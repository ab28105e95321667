//! The moment of deletion: a local date and time to the second, without a time
//! zone, and its text form `YYYY-MM-DDTHH:MM:SS`.

use vstd::prelude::*;
use vstd::string::*;
use crate::percent::{ascii_text, is_ascii_bytes, lemma_ascii_text_bytes};

verus! {

/// A calendar date and a time of day, as plain numbers.
///
/// The fields are open; [`DeletionDate::valid`] says which values name a real
/// moment, and [`DeletionDate::new`] gives only those.
#[derive(Clone, Copy, Debug, PartialEq, Eq, Structural)]
pub struct DeletionDate {
    pub year: i32,
    pub month: u32,
    pub day: u32,
    pub hour: u32,
    pub minute: u32,
    pub second: u32,
}

/// Leap years of the Gregorian calendar, year 0 included.
pub open spec fn is_leap_year(year: int) -> bool {
    year % 4 == 0 && (year % 100 != 0 || year % 400 == 0)
}

/// The number of days of a month, for a month from 1 to 12.
pub open spec fn days_in_month(year: int, month: int) -> int {
    if month == 2 {
        if is_leap_year(year) {
            29
        } else {
            28
        }
    } else if month == 4 || month == 6 || month == 9 || month == 11 {
        30
    } else {
        31
    }
}

/// True for the six numbers of a real moment whose year has four digits.
pub open spec fn is_moment(year: int, month: int, day: int, hour: int, minute: int, second: int)
    -> bool {
    &&& 0 <= year <= 9999
    &&& 1 <= month <= 12
    &&& 1 <= day <= days_in_month(year, month)
    &&& 0 <= hour <= 23
    &&& 0 <= minute <= 59
    &&& 0 <= second <= 59
}

/// True for an ASCII decimal digit.
pub open spec fn is_digit(b: u8) -> bool {
    0x30 <= b <= 0x39
}

/// A number below 100 as two digits.
pub open spec fn two_digits(n: int) -> Seq<u8> {
    seq![(0x30 + n / 10) as u8, (0x30 + n % 10) as u8]
}

/// A number below 10000 as four digits.
pub open spec fn four_digits(n: int) -> Seq<u8> {
    two_digits(n / 100) + two_digits(n % 100)
}

/// The text form of a date, as bytes: nineteen of them.
pub open spec fn timestamp_bytes(date: DeletionDate) -> Seq<u8> {
    four_digits(date.year as int) + seq![0x2du8] + two_digits(date.month as int) + seq![0x2du8]
        + two_digits(date.day as int) + seq![0x54u8] + two_digits(date.hour as int) + seq![0x3au8]
        + two_digits(date.minute as int) + seq![0x3au8] + two_digits(date.second as int)
}

/// The number that the two digits at `at` spell.
pub open spec fn number_at(s: Seq<u8>, at: int) -> int {
    (s[at] - 0x30) * 10 + (s[at + 1] - 0x30)
}

/// True where `s` is nineteen bytes long, with digits and separators in the
/// places of `YYYY-MM-DDTHH:MM:SS`.
pub open spec fn has_timestamp_shape(s: Seq<u8>) -> bool {
    &&& s.len() == 19
    &&& is_digit(s[0]) && is_digit(s[1]) && is_digit(s[2]) && is_digit(s[3])
    &&& s[4] == 0x2d
    &&& is_digit(s[5]) && is_digit(s[6])
    &&& s[7] == 0x2d
    &&& is_digit(s[8]) && is_digit(s[9])
    &&& s[10] == 0x54
    &&& is_digit(s[11]) && is_digit(s[12])
    &&& s[13] == 0x3a
    &&& is_digit(s[14]) && is_digit(s[15])
    &&& s[16] == 0x3a
    &&& is_digit(s[17]) && is_digit(s[18])
}

/// The six numbers that a text of the right shape spells.
pub open spec fn timestamp_fields(s: Seq<u8>) -> DeletionDate {
    DeletionDate {
        year: (number_at(s, 0) * 100 + number_at(s, 2)) as i32,
        month: number_at(s, 5) as u32,
        day: number_at(s, 8) as u32,
        hour: number_at(s, 11) as u32,
        minute: number_at(s, 14) as u32,
        second: number_at(s, 17) as u32,
    }
}

/// What a text means as a date: the date it spells, where it has the shape
/// and spells a real moment; nothing otherwise.
pub open spec fn timestamp_parsed(s: Seq<u8>) -> Option<DeletionDate> {
    if has_timestamp_shape(s) && timestamp_fields(s).valid() {
        Some(timestamp_fields(s))
    } else {
        None
    }
}

/// `chrono::Local::now` and `naive_local`, with the six numbers read through
/// `Datelike` and `Timelike`. The result is whatever the clock says: nothing
/// is claimed of it.
#[verifier::external_body]
fn local_clock() -> (i32, u32, u32, u32, u32, u32) {
    let now = chrono::Local::now().naive_local();
    (
        chrono::Datelike::year(&now),
        chrono::Datelike::month(&now),
        chrono::Datelike::day(&now),
        chrono::Timelike::hour(&now),
        chrono::Timelike::minute(&now),
        chrono::Timelike::second(&now),
    )
}

/// `chrono::NaiveDateTime::format` with `%Y-%m-%dT%H:%M:%S`, on the moment
/// built by `NaiveDate::from_ymd_opt` and `and_hms_opt`. For a year from 0 to
/// 9999 chrono writes four digits without a sign, and two digits for each of
/// the other numbers.
#[verifier::external_body]
fn chrono_format(date: &DeletionDate) -> (text: String)
    requires
        date.valid(),
    ensures
        text@ == ascii_text(timestamp_bytes(*date)),
{
    chrono::NaiveDate::from_ymd_opt(date.year, date.month, date.day)
        .unwrap()
        .and_hms_opt(date.hour, date.minute, date.second)
        .unwrap()
        .format("%Y-%m-%dT%H:%M:%S")
        .to_string()
}

/// Tells whether a year from 0 to 9999 is a leap year.
fn leap_year(year: u32) -> (r: bool)
    ensures
        r == is_leap_year(year as int),
{
    year % 4 == 0 && (year % 100 != 0 || year % 400 == 0)
}

/// The number of days of a month from 1 to 12.
fn month_length(year: u32, month: u32) -> (r: u32)
    ensures
        r == days_in_month(year as int, month as int),
{
    if month == 2 {
        if leap_year(year) {
            29
        } else {
            28
        }
    } else if month == 4 || month == 6 || month == 9 || month == 11 {
        30
    } else {
        31
    }
}

/// The number that the two bytes at `at` spell, if both are digits.
fn read_number(s: &[u8], at: usize) -> (r: Option<u32>)
    requires
        at + 1 < s.len(),
    ensures
        r is Some <==> is_digit(s@[at as int]) && is_digit(s@[at + 1]),
        r matches Some(n) ==> n == number_at(s@, at as int),
{
    let high = s[at];
    let low = s[at + 1];
    if 0x30 <= high && high <= 0x39 && 0x30 <= low && low <= 0x39 {
        Some((high - 0x30) as u32 * 10 + (low - 0x30) as u32)
    } else {
        None
    }
}

impl DeletionDate {
    /// True where the six numbers name a real moment of the years 0 to 9999:
    /// a month from 1 to 12, a day that the month has, a time before 24:00:00.
    pub open spec fn valid(&self) -> bool {
        is_moment(
            self.year as int,
            self.month as int,
            self.day as int,
            self.hour as int,
            self.minute as int,
            self.second as int,
        )
    }

    /// The date with these six numbers, if they name a real moment.
    pub fn new(year: i32, month: u32, day: u32, hour: u32, minute: u32, second: u32) -> (r: Option<
        DeletionDate,
    >)
        ensures
            r is Some <==> is_moment(
                year as int,
                month as int,
                day as int,
                hour as int,
                minute as int,
                second as int,
            ),
            r matches Some(date) ==> date == (DeletionDate {
                year,
                month,
                day,
                hour,
                minute,
                second,
            }),
    {
        let date = DeletionDate { year, month, day, hour, minute, second };
        if date.is_valid() {
            Some(date)
        } else {
            None
        }
    }

    /// Tells whether the six numbers name a real moment.
    pub fn is_valid(&self) -> (r: bool)
        ensures
            r == self.valid(),
    {
        if self.year < 0 || self.year > 9999 {
            return false;
        }
        if self.month < 1 || self.month > 12 {
            return false;
        }
        let length = month_length(self.year as u32, self.month);
        1 <= self.day && self.day <= length && self.hour <= 23 && self.minute <= 59 && self.second
            <= 59
    }

    /// The local date and time of the clock, where its year has four digits.
    ///
    /// The result depends on the clock, so nothing more is known of it than
    /// that it is valid.
    pub fn now() -> (r: Option<DeletionDate>)
        ensures
            r matches Some(date) ==> date.valid(),
    {
        let (year, month, day, hour, minute, second) = local_clock();
        DeletionDate::new(year, month, day, hour, minute, second)
    }

    /// The text form `YYYY-MM-DDTHH:MM:SS`: fixed width, padded with zeros.
    pub fn format(&self) -> (text: String)
        requires
            self.valid(),
        ensures
            text@ == ascii_text(timestamp_bytes(*self)),
    {
        chrono_format(self)
    }

    /// Reads the text form from bytes. Only the exact form is taken: nineteen
    /// bytes, every number with all its digits, and a real moment.
    pub fn parse_bytes(s: &[u8]) -> (r: Option<DeletionDate>)
        ensures
            r == timestamp_parsed(s@),
    {
        if s.len() != 19 {
            return None;
        }
        if s[4] != 0x2d || s[7] != 0x2d || s[10] != 0x54 || s[13] != 0x3a || s[16] != 0x3a {
            return None;
        }
        let century = read_number(s, 0);
        let years = read_number(s, 2);
        let month = read_number(s, 5);
        let day = read_number(s, 8);
        let hour = read_number(s, 11);
        let minute = read_number(s, 14);
        let second = read_number(s, 17);
        match (century, years, month, day, hour, minute, second) {
            (Some(c), Some(y), Some(mo), Some(d), Some(h), Some(mi), Some(se)) => {
                DeletionDate::new((c * 100 + y) as i32, mo, d, h, mi, se)
            },
            _ => None,
        }
    }

    /// Reads the text form `YYYY-MM-DDTHH:MM:SS`.
    pub fn parse(text: &str) -> (r: Option<DeletionDate>)
        ensures
            r == timestamp_parsed(text.spec_bytes()),
    {
        DeletionDate::parse_bytes(text.as_bytes())
    }
}

/// Two digits spell the number that they were written for.
pub proof fn lemma_two_digits(n: int)
    requires
        0 <= n <= 99,
    ensures
        two_digits(n).len() == 2,
        is_digit(two_digits(n)[0]),
        is_digit(two_digits(n)[1]),
        number_at(two_digits(n), 0) == n,
{
    let high = n / 10;
    let low = n % 10;
    assert(0 <= high <= 9 && 0 <= low <= 9 && n == high * 10 + low);
    assert(two_digits(n)[0] == (0x30 + high) as u8);
    assert(two_digits(n)[1] == (0x30 + low) as u8);
}

/// A number that two digits spell is written with these two digits.
pub proof fn lemma_number_at(s: Seq<u8>, at: int)
    requires
        0 <= at,
        at + 1 < s.len(),
        is_digit(s[at]),
        is_digit(s[at + 1]),
    ensures
        0 <= number_at(s, at) <= 99,
        two_digits(number_at(s, at)) == seq![s[at], s[at + 1]],
{
    let high = s[at] - 0x30;
    let low = s[at + 1] - 0x30;
    let n = number_at(s, at);
    assert(n == high * 10 + low);
    assert(0 <= high <= 9 && 0 <= low <= 9);
    assert(n / 10 == high && n % 10 == low);
    assert(two_digits(n) =~= seq![s[at], s[at + 1]]);
}

/// The bytes of the text form, place by place.
pub proof fn lemma_timestamp_places(date: DeletionDate)
    ensures
        timestamp_bytes(date).len() == 19,
        timestamp_bytes(date).subrange(0, 2) == two_digits(date.year as int / 100),
        timestamp_bytes(date).subrange(2, 4) == two_digits(date.year as int % 100),
        timestamp_bytes(date)[4] == 0x2d,
        timestamp_bytes(date).subrange(5, 7) == two_digits(date.month as int),
        timestamp_bytes(date)[7] == 0x2d,
        timestamp_bytes(date).subrange(8, 10) == two_digits(date.day as int),
        timestamp_bytes(date)[10] == 0x54,
        timestamp_bytes(date).subrange(11, 13) == two_digits(date.hour as int),
        timestamp_bytes(date)[13] == 0x3a,
        timestamp_bytes(date).subrange(14, 16) == two_digits(date.minute as int),
        timestamp_bytes(date)[16] == 0x3a,
        timestamp_bytes(date).subrange(17, 19) == two_digits(date.second as int),
{
    let s = timestamp_bytes(date);
    assert(s.len() == 19);
    assert(s.subrange(0, 2) =~= two_digits(date.year as int / 100));
    assert(s.subrange(2, 4) =~= two_digits(date.year as int % 100));
    assert(s.subrange(5, 7) =~= two_digits(date.month as int));
    assert(s.subrange(8, 10) =~= two_digits(date.day as int));
    assert(s.subrange(11, 13) =~= two_digits(date.hour as int));
    assert(s.subrange(14, 16) =~= two_digits(date.minute as int));
    assert(s.subrange(17, 19) =~= two_digits(date.second as int));
}

/// The two bytes at a place of a text are the two digits of a number below
/// 100: then both are digits, and they spell the number.
pub proof fn lemma_place(s: Seq<u8>, at: int, n: int)
    requires
        0 <= at,
        at + 2 <= s.len(),
        0 <= n <= 99,
        s.subrange(at, at + 2) == two_digits(n),
    ensures
        is_digit(s[at]),
        is_digit(s[at + 1]),
        s[at] < 0x80,
        s[at + 1] < 0x80,
        number_at(s, at) == n,
{
    lemma_two_digits(n);
    let part = s.subrange(at, at + 2);
    assert(part[0] == s[at]);
    assert(part[1] == s[at + 1]);
}

/// The text form of a valid date has the shape that parsing asks for, and
/// spells the date.
pub proof fn lemma_timestamp_shape(date: DeletionDate)
    requires
        date.valid(),
    ensures
        has_timestamp_shape(timestamp_bytes(date)),
        timestamp_fields(timestamp_bytes(date)) == date,
        is_ascii_bytes(timestamp_bytes(date)),
        forall|i: int|
            0 <= i < 19 ==> 0x2d <= #[trigger] timestamp_bytes(date)[i] <= 0x54,
{
    let s = timestamp_bytes(date);
    let year = date.year as int;
    lemma_timestamp_places(date);
    assert(0 <= year / 100 <= 99 && 0 <= year % 100 <= 99 && year == (year / 100) * 100 + year
        % 100);
    lemma_place(s, 0, year / 100);
    lemma_place(s, 2, year % 100);
    lemma_place(s, 5, date.month as int);
    lemma_place(s, 8, date.day as int);
    lemma_place(s, 11, date.hour as int);
    lemma_place(s, 14, date.minute as int);
    lemma_place(s, 17, date.second as int);
    assert(has_timestamp_shape(s));
    assert(timestamp_fields(s) == date);
    assert forall|i: int| 0 <= i < 19 implies 0x2d <= #[trigger] s[i] <= 0x54 by {
        if i == 0 || i == 1 || i == 2 || i == 3 || i == 5 || i == 6 || i == 8 || i == 9 || i == 11
            || i == 12 || i == 14 || i == 15 || i == 17 || i == 18 {
            assert(is_digit(s[i]));
        }
    }
    assert(is_ascii_bytes(s));
}

/// Parsing undoes formatting, for every valid date.
pub proof fn lemma_timestamp_round_trip(date: DeletionDate)
    requires
        date.valid(),
    ensures
        timestamp_parsed(timestamp_bytes(date)) == Some(date),
{
    lemma_timestamp_shape(date);
}

/// One spelling only: a text that parses is the text form of its date, byte
/// for byte. No other spelling of a date is taken.
pub proof fn law_timestamp_is_canonical(s: Seq<u8>)
    requires
        timestamp_parsed(s) is Some,
    ensures
        timestamp_parsed(s)->0.valid(),
        timestamp_bytes(timestamp_parsed(s)->0) == s,
{
    let date = timestamp_fields(s);
    let t = timestamp_bytes(date);
    let year = date.year as int;
    lemma_number_at(s, 0);
    lemma_number_at(s, 2);
    lemma_number_at(s, 5);
    lemma_number_at(s, 8);
    lemma_number_at(s, 11);
    lemma_number_at(s, 14);
    lemma_number_at(s, 17);
    assert(year == number_at(s, 0) * 100 + number_at(s, 2));
    assert(year / 100 == number_at(s, 0) && year % 100 == number_at(s, 2));
    lemma_timestamp_places(date);
    assert forall|i: int| 0 <= i < 19 implies t[i] == s[i] by {
        if i == 0 || i == 1 {
            assert(t[i] == t.subrange(0, 2)[i]);
        } else if i == 2 || i == 3 {
            assert(t[i] == t.subrange(2, 4)[i - 2]);
        } else if i == 5 || i == 6 {
            assert(t[i] == t.subrange(5, 7)[i - 5]);
        } else if i == 8 || i == 9 {
            assert(t[i] == t.subrange(8, 10)[i - 8]);
        } else if i == 11 || i == 12 {
            assert(t[i] == t.subrange(11, 13)[i - 11]);
        } else if i == 14 || i == 15 {
            assert(t[i] == t.subrange(14, 16)[i - 14]);
        } else if i == 17 || i == 18 {
            assert(t[i] == t.subrange(17, 19)[i - 17]);
        }
    }
    assert(t =~= s);
}

/// The formatted text is ASCII, and its bytes parse back to the date.
pub proof fn lemma_formatted_text_parses(date: DeletionDate)
    requires
        date.valid(),
    ensures
        timestamp_parsed(vstd::utf8::encode_utf8(ascii_text(timestamp_bytes(date)))) == Some(date),
{
    lemma_timestamp_shape(date);
    lemma_timestamp_round_trip(date);
    lemma_ascii_text_bytes(timestamp_bytes(date));
}

} // verus!
