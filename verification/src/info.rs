//! The metadata record of a trashed item, and its text form.
//!
//! The text is one section named `Trash Info` with two keys: `Path`, the
//! percent-encoded original path, and `DeletionDate`, the date as
//! `YYYY-MM-DDTHH:MM:SS`. The name under which the item lies in the trash is
//! not part of the text: it is the name of the file that holds the text.

use vstd::prelude::*;
use vstd::utf8::encode_utf8;
use crate::date::{
    DeletionDate,
    timestamp_bytes,
    timestamp_parsed,
    lemma_timestamp_shape,
    lemma_formatted_text_parses,
};
use crate::percent::{
    ascii_text,
    encoded,
    decoded,
    is_unreserved,
    hex_digit,
    percent_encode,
    percent_decode,
    lemma_encoded_is_ascii,
    lemma_ascii_text_bytes,
    lemma_decoded_encoded,
};
use crate::inifile::{
    ini_sections,
    ini_parsed,
    section_text,
    is_plain,
    is_plain_char,
    load,
    section,
    value,
    write_section,
};

verus! {

/// The metadata of one trashed item.
#[derive(Debug, PartialEq, Eq)]
pub struct TrashInfo {
    /// The name of the item inside the trash.
    pub internal_filename: Vec<u8>,
    /// The path that the item had before it was trashed.
    pub path: Vec<u8>,
    /// The moment at which the item was trashed.
    pub deletion_date: DeletionDate,
}

/// A record as a mathematical value.
pub struct Record {
    pub internal_filename: Seq<u8>,
    pub path: Seq<u8>,
    pub deletion_date: DeletionDate,
}

impl View for TrashInfo {
    type V = Record;

    open spec fn view(&self) -> Record {
        Record {
            internal_filename: self.internal_filename@,
            path: self.path@,
            deletion_date: self.deletion_date,
        }
    }
}

/// Why a text is no record.
#[derive(Debug)]
pub enum ParseTrashInfoError {
    /// The text has no section `Trash Info`.
    MissingSection,
    /// The section lacks `Path` or `DeletionDate`.
    MissingKey,
    /// A key stands without a value. Kept for callers; reading never gives it.
    MissingValue,
    /// The value of `DeletionDate` is no date of the form `YYYY-MM-DDTHH:MM:SS`.
    MalformedDate,
    /// The text is no document of sections and keys; the reason is inside.
    ParseError(ini::ParseError),
}

/// The ways in which reading a record fails, without what they carry.
#[derive(Clone, Copy, Debug, PartialEq, Eq, Structural)]
pub enum ParseFailure {
    MissingSection,
    MissingKey,
    MissingValue,
    MalformedDate,
    MalformedText,
}

/// The name of the section that holds a record.
pub open spec fn section_name() -> Seq<char> {
    "Trash Info"@
}

/// The key of the original path.
pub open spec fn path_key() -> Seq<char> {
    "Path"@
}

/// The key of the deletion date.
pub open spec fn date_key() -> Seq<char> {
    "DeletionDate"@
}

/// The value written under `Path`: the percent-encoded path.
pub open spec fn path_text(path: Seq<u8>) -> Seq<char> {
    ascii_text(encoded(path))
}

/// The value written under `DeletionDate`.
pub open spec fn date_text(date: DeletionDate) -> Seq<char> {
    ascii_text(timestamp_bytes(date))
}

/// The text form of a record.
pub open spec fn info_text(record: Record) -> Seq<char> {
    section_text(
        section_name(),
        path_key(),
        path_text(record.path),
        date_key(),
        date_text(record.deletion_date),
    )
}

/// The record that two values give under a name, or why they give none. The
/// path is percent-decoded, which never fails; the date must have the exact
/// form.
pub open spec fn record_of_values(name: Seq<u8>, path_value: Seq<char>, date_value: Seq<char>)
    -> Result<Record, ParseFailure> {
    match timestamp_parsed(encode_utf8(date_value)) {
        Some(date) => Ok(
            Record {
                internal_filename: name,
                path: decoded(encode_utf8(path_value)),
                deletion_date: date,
            },
        ),
        None => Err(ParseFailure::MalformedDate),
    }
}

/// The record that the sections of a document give under a name.
pub open spec fn record_of_sections(
    name: Seq<u8>,
    sections: Map<Seq<char>, Map<Seq<char>, Seq<char>>>,
) -> Result<Record, ParseFailure> {
    if !sections.dom().contains(section_name()) {
        Err(ParseFailure::MissingSection)
    } else if !sections[section_name()].dom().contains(path_key()) || !sections[section_name(
    )].dom().contains(date_key()) {
        Err(ParseFailure::MissingKey)
    } else {
        record_of_values(
            name,
            sections[section_name()][path_key()],
            sections[section_name()][date_key()],
        )
    }
}

/// The record that a text gives under a name.
pub open spec fn record_of_text(name: Seq<u8>, text: Seq<char>) -> Result<Record, ParseFailure> {
    match ini_parsed(text) {
        Some(sections) => record_of_sections(name, sections),
        None => Err(ParseFailure::MalformedText),
    }
}

/// True where what was read is what was to be read: the same record, or a
/// failure of the same kind.
pub open spec fn agrees(
    read: Result<TrashInfo, ParseTrashInfoError>,
    expected: Result<Record, ParseFailure>,
) -> bool {
    match expected {
        Ok(record) => read matches Ok(info) && info@ == record,
        Err(failure) => read matches Err(error) && error.failure() == failure,
    }
}

impl ParseTrashInfoError {
    /// The kind of this error.
    pub open spec fn failure(&self) -> ParseFailure {
        match self {
            ParseTrashInfoError::MissingSection => ParseFailure::MissingSection,
            ParseTrashInfoError::MissingKey => ParseFailure::MissingKey,
            ParseTrashInfoError::MissingValue => ParseFailure::MissingValue,
            ParseTrashInfoError::MalformedDate => ParseFailure::MalformedDate,
            ParseTrashInfoError::ParseError(_) => ParseFailure::MalformedText,
        }
    }

    /// The kind of this error.
    pub fn kind(&self) -> (r: ParseFailure)
        ensures
            r == self.failure(),
    {
        match self {
            ParseTrashInfoError::MissingSection => ParseFailure::MissingSection,
            ParseTrashInfoError::MissingKey => ParseFailure::MissingKey,
            ParseTrashInfoError::MissingValue => ParseFailure::MissingValue,
            ParseTrashInfoError::MalformedDate => ParseFailure::MalformedDate,
            ParseTrashInfoError::ParseError(_) => ParseFailure::MalformedText,
        }
    }
}

impl From<ini::ParseError> for ParseTrashInfoError {
    /// The error of a text that is no document.
    fn from(item: ini::ParseError) -> (r: ParseTrashInfoError) {
        ParseTrashInfoError::ParseError(item)
    }
}

impl vstd::std_specs::convert::FromSpecImpl<ini::ParseError> for ParseTrashInfoError {
    open spec fn obeys_from_spec() -> bool {
        true
    }

    open spec fn from_spec(item: ini::ParseError) -> ParseTrashInfoError {
        ParseTrashInfoError::ParseError(item)
    }
}

/// The characters of an encoded path are written unchanged into a document.
pub proof fn lemma_path_text_is_plain(path: Seq<u8>)
    ensures
        is_plain(path_text(path)),
    decreases path.len(),
{
    if path.len() > 0 {
        lemma_path_text_is_plain(path.drop_first());
        let b = path[0];
        let head = crate::percent::encode_byte(b);
        let tail = encoded(path.drop_first());
        let text = path_text(path);
        assert forall|i: int| 0 <= i < text.len() implies is_plain_char(#[trigger] text[i]) by {
            if i < head.len() {
                assert(encoded(path)[i] == head[i]);
                if !is_unreserved(b) {
                    let high = b as int / 16;
                    let low = b as int % 16;
                    assert(0x30 <= hex_digit(high) <= 0x46);
                    assert(0x30 <= hex_digit(low) <= 0x46);
                }
            } else {
                assert(encoded(path)[i] == tail[i - head.len()]);
                assert(text[i] == path_text(path.drop_first())[i - head.len()]);
            }
        }
    }
}

/// The characters of a date's text are written unchanged into a document.
pub proof fn lemma_date_text_is_plain(date: DeletionDate)
    requires
        date.valid(),
    ensures
        is_plain(date_text(date)),
{
    lemma_timestamp_shape(date);
    let text = date_text(date);
    let bytes = timestamp_bytes(date);
    assert forall|i: int| 0 <= i < text.len() implies is_plain_char(#[trigger] text[i]) by {
        assert(text[i] == bytes[i] as char);
        assert(0x2d <= bytes[i] <= 0x54);
    }
}

impl TrashInfo {
    /// A record of the item `internal`, which lay at `path`, trashed now.
    ///
    /// The date is read from the clock. `None` is returned where the clock's
    /// year has more than four digits, for which the text form has no place.
    pub fn new(internal: Vec<u8>, path: Vec<u8>) -> (r: Option<TrashInfo>)
        ensures
            r matches Some(info) ==> {
                &&& info.internal_filename@ == internal@
                &&& info.path@ == path@
                &&& info.deletion_date.valid()
            },
    {
        TrashInfo::stamped(internal, path, DeletionDate::now())
    }

    /// A record with the date that a clock gave, if it gave one.
    pub fn stamped(internal: Vec<u8>, path: Vec<u8>, clock: Option<DeletionDate>) -> (r: Option<
        TrashInfo,
    >)
        ensures
            match clock {
                Some(date) => r matches Some(info) && info@ == (Record {
                    internal_filename: internal@,
                    path: path@,
                    deletion_date: date,
                }),
                None => r is None,
            },
    {
        match clock {
            Some(date) => Some(TrashInfo::with_delete_datetime(internal, path, date)),
            None => None,
        }
    }

    /// A record with a given date.
    pub fn with_delete_datetime(internal: Vec<u8>, path: Vec<u8>, deletion_date: DeletionDate) -> (r:
        TrashInfo)
        ensures
            r@ == (Record {
                internal_filename: internal@,
                path: path@,
                deletion_date: deletion_date,
            }),
    {
        TrashInfo { internal_filename: internal, path, deletion_date }
    }

    /// The text form of this record: the section `Trash Info` with the
    /// percent-encoded path and the formatted date, one line each.
    pub fn serialize(&self) -> (text: String)
        requires
            self.deletion_date.valid(),
        ensures
            text@ == info_text(self@),
    {
        let path_value = percent_encode(self.path.as_slice());
        let date_value = self.deletion_date.format();
        proof {
            lemma_path_text_is_plain(self.path@);
            lemma_date_text_is_plain(self.deletion_date);
            lemma_names_are_plain();
        }
        write_section(
            "Trash Info",
            "Path",
            path_value.as_str(),
            "DeletionDate",
            date_value.as_str(),
        )
    }

    /// The record that two values give under a name: the value of `Path`,
    /// percent-decoded, and the date that the value of `DeletionDate` spells.
    pub fn from_values(filename: Vec<u8>, path_value: &str, date_value: &str) -> (r: Result<
        TrashInfo,
        ParseTrashInfoError,
    >)
        ensures
            agrees(r, record_of_values(filename@, path_value@, date_value@)),
            r matches Ok(info) ==> info.deletion_date.valid(),
    {
        let path = percent_decode(path_value.as_bytes());
        match DeletionDate::parse(date_value) {
            Some(date) => Ok(TrashInfo::with_delete_datetime(filename, path, date)),
            None => Err(ParseTrashInfoError::MalformedDate),
        }
    }

    /// The record that a parsed document gives under a name.
    pub fn from_document(filename: Vec<u8>, doc: &ini::Ini) -> (r: Result<
        TrashInfo,
        ParseTrashInfoError,
    >)
        ensures
            agrees(r, record_of_sections(filename@, ini_sections(*doc))),
            r matches Ok(info) ==> info.deletion_date.valid(),
    {
        let found = match section(doc, "Trash Info") {
            Some(found) => found,
            None => {
                return Err(ParseTrashInfoError::MissingSection);
            },
        };
        let path_value = match value(found, "Path") {
            Some(path_value) => path_value,
            None => {
                return Err(ParseTrashInfoError::MissingKey);
            },
        };
        let date_value = match value(found, "DeletionDate") {
            Some(date_value) => date_value,
            None => {
                return Err(ParseTrashInfoError::MissingKey);
            },
        };
        TrashInfo::from_values(filename, path_value, date_value)
    }

    /// Reads a record from the text of a metadata file. The name of the item
    /// is not in the text: the caller gives it, from the file's own name.
    pub fn from_filename_and_content(filename: Vec<u8>, content: &str) -> (r: Result<
        TrashInfo,
        ParseTrashInfoError,
    >)
        ensures
            agrees(r, record_of_text(filename@, content@)),
            r matches Ok(info) ==> info.deletion_date.valid(),
    {
        match load(content) {
            Ok(doc) => TrashInfo::from_document(filename, &doc),
            Err(error) => Err(ParseTrashInfoError::from(error)),
        }
    }
}

/// The section's name and its two keys are written unchanged, and the keys
/// differ.
pub proof fn lemma_names_are_plain()
    ensures
        is_plain(section_name()),
        is_plain(path_key()),
        is_plain(date_key()),
        path_key() != date_key(),
{
    reveal_strlit("Trash Info");
    reveal_strlit("Path");
    reveal_strlit("DeletionDate");
    assert(path_key().len() != date_key().len());
}

/// Round trip: the two values that a record is written with, read under the
/// record's name, give the record back. This holds for every path, whatever
/// bytes it holds, and every valid date.
pub proof fn law_round_trip(record: Record)
    requires
        record.deletion_date.valid(),
    ensures
        record_of_values(
            record.internal_filename,
            path_text(record.path),
            date_text(record.deletion_date),
        ) == Ok::<Record, ParseFailure>(record),
{
    lemma_encoded_is_ascii(record.path);
    lemma_ascii_text_bytes(encoded(record.path));
    lemma_decoded_encoded(record.path);
    lemma_formatted_text_parses(record.deletion_date);
}

/// Round trip through a document: where the section `Trash Info` of a
/// document holds the two values that a record is written with, the document
/// gives the record back.
pub proof fn law_round_trip_document(
    record: Record,
    sections: Map<Seq<char>, Map<Seq<char>, Seq<char>>>,
)
    requires
        record.deletion_date.valid(),
        sections.dom().contains(section_name()),
        sections[section_name()].dom().contains(path_key()),
        sections[section_name()].dom().contains(date_key()),
        sections[section_name()][path_key()] == path_text(record.path),
        sections[section_name()][date_key()] == date_text(record.deletion_date),
    ensures
        record_of_sections(record.internal_filename, sections) == Ok::<Record, ParseFailure>(
            record,
        ),
{
    law_round_trip(record);
}

} // verus!
