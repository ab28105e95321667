//! The sectioned key and value text that holds a record, read and written by
//! the `ini` crate.
//!
//! Nothing here is proved: each item states what the crate does, and the rest
//! of the library is verified against these statements.

use vstd::prelude::*;

verus! {

/// A parsed document of the `ini` crate.
#[verifier::external_type_specification]
#[verifier::external_body]
pub struct ExIni(ini::Ini);

/// The keys and values of one section of a document.
#[verifier::external_type_specification]
#[verifier::external_body]
pub struct ExProperties(ini::Properties);

/// The reason for which the `ini` crate refuses a text.
#[verifier::external_type_specification]
#[verifier::external_body]
pub struct ExParseError(ini::ParseError);

/// The named sections of a document: for each name the section that
/// `Ini::section` finds under it, as the values that `Properties::get` finds
/// under its keys.
pub uninterp spec fn ini_sections(doc: ini::Ini) -> Map<Seq<char>, Map<Seq<char>, Seq<char>>>;

/// The keys of one section, each with the value that `Properties::get` finds.
pub uninterp spec fn section_values(section: ini::Properties) -> Map<Seq<char>, Seq<char>>;

/// What `Ini::load_from_str` makes of a text: the named sections of the
/// document, or nothing where the text is refused.
pub uninterp spec fn ini_parsed(text: Seq<char>) -> Option<
    Map<Seq<char>, Map<Seq<char>, Seq<char>>>,
>;

/// True for a character that the `ini` crate writes unchanged under its
/// escape policy `Basics`: no backslash, no control character, no delete.
pub open spec fn is_plain_char(c: char) -> bool {
    c != '\\' && ' ' <= c && c != '\u{7f}'
}

/// True for a text of plain characters.
pub open spec fn is_plain(text: Seq<char>) -> bool {
    forall|i: int| 0 <= i < text.len() ==> is_plain_char(#[trigger] text[i])
}

/// One section with two keys, as text: the name in brackets, then one line
/// for each key, its value behind `=`.
pub open spec fn section_text(
    name: Seq<char>,
    first_key: Seq<char>,
    first_value: Seq<char>,
    second_key: Seq<char>,
    second_value: Seq<char>,
) -> Seq<char> {
    seq!['['] + name + seq![']', '\n'] + first_key + seq!['='] + first_value + seq!['\n']
        + second_key + seq!['='] + second_value + seq!['\n']
}

/// `ini::Ini::load_from_str`, with the default options of the crate: the
/// document, or the crate's error. The outcome depends on the text alone.
#[verifier::external_body]
pub(crate) fn load(text: &str) -> (r: Result<ini::Ini, ini::ParseError>)
    ensures
        match r {
            Ok(doc) => ini_parsed(text@) == Some(ini_sections(doc)),
            Err(_) => ini_parsed(text@) is None,
        },
{
    ini::Ini::load_from_str(text)
}

/// `ini::Ini::section` for a named section: the first section of that name,
/// if the document has one.
#[verifier::external_body]
pub(crate) fn section<'a>(doc: &'a ini::Ini, name: &str) -> (r: Option<&'a ini::Properties>)
    ensures
        r is Some <==> ini_sections(*doc).dom().contains(name@),
        r matches Some(found) ==> section_values(*found) == ini_sections(*doc)[name@],
{
    doc.section(Some(name))
}

/// `ini::Properties::get`: the first value under the key, if the section has
/// the key.
#[verifier::external_body]
pub(crate) fn value<'a>(section: &'a ini::Properties, key: &str) -> (r: Option<&'a str>)
    ensures
        r is Some <==> section_values(*section).dom().contains(key@),
        r matches Some(found) ==> found@ == section_values(*section)[key@],
{
    section.get(key)
}

/// `ini::Ini::write_to_opt` on a new document that got one section by
/// `with_section` and its two keys by `set`, with the escape policy `Basics`,
/// the line feed as line separator and `=` between key and value. The crate
/// writes the section's name in brackets and one line for each key, in the
/// order in which they were set; plain characters are written unchanged.
#[verifier::external_body]
pub(crate) fn write_section(
    name: &str,
    first_key: &str,
    first_value: &str,
    second_key: &str,
    second_value: &str,
) -> (text: String)
    requires
        is_plain(name@),
        is_plain(first_key@),
        is_plain(first_value@),
        is_plain(second_key@),
        is_plain(second_value@),
        first_key@ != second_key@,
    ensures
        text@ == section_text(name@, first_key@, first_value@, second_key@, second_value@),
{
    let mut doc = ini::Ini::new();
    doc.with_section(Some(name)).set(first_key, first_value).set(second_key, second_value);
    let options = ini::WriteOption {
        escape_policy: ini::EscapePolicy::Basics,
        line_separator: ini::LineSeparator::CR,
        kv_separator: "=",
    };
    let mut out: Vec<u8> = Vec::new();
    doc.write_to_opt(&mut out, options).unwrap();
    String::from_utf8(out).unwrap()
}

} // verus!
