//! Percent-encoding of byte strings.
//!
//! A path may hold any bytes. Its text form keeps the unreserved characters of
//! RFC 3986 and writes every other byte as `%` and two upper-case hexadecimal
//! digits, so the text is ASCII whatever the path holds, and decoding gives the
//! path back.

use vstd::prelude::*;
use vstd::string::*;
use vstd::slice::*;

verus! {

/// The bytes that are written as they are: letters, digits, `-`, `.`, `_`, `~`.
pub open spec fn is_unreserved(b: u8) -> bool {
    ||| 0x41 <= b <= 0x5a
    ||| 0x61 <= b <= 0x7a
    ||| 0x30 <= b <= 0x39
    ||| b == 0x2d
    ||| b == 0x2e
    ||| b == 0x5f
    ||| b == 0x7e
}

/// The upper-case hexadecimal digit for a value below 16.
pub open spec fn hex_digit(value: int) -> u8 {
    if value < 10 {
        (0x30 + value) as u8
    } else {
        (0x41 + value - 10) as u8
    }
}

/// The value of a hexadecimal digit of either case, if the byte is one.
pub open spec fn hex_value(b: u8) -> Option<int> {
    if 0x30 <= b <= 0x39 {
        Some(b - 0x30)
    } else if 0x41 <= b <= 0x46 {
        Some(b - 0x41 + 10)
    } else if 0x61 <= b <= 0x66 {
        Some(b - 0x61 + 10)
    } else {
        None
    }
}

/// The three bytes `%XX` that stand for `b`.
pub open spec fn escape(b: u8) -> Seq<u8> {
    seq![0x25u8, hex_digit(b as int / 16), hex_digit(b as int % 16)]
}

/// What one byte of the input becomes.
pub open spec fn encode_byte(b: u8) -> Seq<u8> {
    if is_unreserved(b) {
        seq![b]
    } else {
        escape(b)
    }
}

/// The percent-encoding of a byte string.
pub open spec fn encoded(s: Seq<u8>) -> Seq<u8>
    decreases s.len(),
{
    if s.len() == 0 {
        Seq::empty()
    } else {
        encode_byte(s[0]) + encoded(s.drop_first())
    }
}

/// True where `s` begins with `%` and two hexadecimal digits.
pub open spec fn starts_with_escape(s: Seq<u8>) -> bool {
    &&& s.len() >= 3
    &&& s[0] == 0x25
    &&& hex_value(s[1]) is Some
    &&& hex_value(s[2]) is Some
}

/// The percent-decoding of a byte string. Every `%XX` with two hexadecimal
/// digits becomes one byte; anything else, a lone `%` too, stays as it is.
pub open spec fn decoded(s: Seq<u8>) -> Seq<u8>
    decreases s.len(),
{
    if s.len() == 0 {
        Seq::empty()
    } else if starts_with_escape(s) {
        seq![(hex_value(s[1])->0 * 16 + hex_value(s[2])->0) as u8] + decoded(s.skip(3))
    } else {
        seq![s[0]] + decoded(s.drop_first())
    }
}

/// ASCII bytes read as text.
pub open spec fn ascii_text(bytes: Seq<u8>) -> Seq<char> {
    Seq::new(bytes.len(), |i: int| bytes[i] as char)
}

/// True where every byte is below 128.
pub open spec fn is_ascii_bytes(bytes: Seq<u8>) -> bool {
    forall|i: int| 0 <= i < bytes.len() ==> #[trigger] bytes[i] < 0x80
}

/// `String::push` appends one character.
pub assume_specification[ String::push ](s: &mut String, c: char)
    ensures
        final(s)@ == old(s)@.push(c),
;

/// `percent_encoding::percent_encode_byte` gives, for every byte, `%` and the
/// byte's two upper-case hexadecimal digits.
#[verifier::external_body]
fn escape_text(b: u8) -> (text: &'static str)
    ensures
        text@ == ascii_text(escape(b)),
{
    percent_encoding::percent_encode_byte(b)
}

/// `percent_encoding::percent_decode` followed by `if_any`: the decoded bytes
/// where the input holds at least one `%XX`, `None` where it holds none and
/// decoding would change nothing.
#[verifier::external_body]
fn decode_if_any(input: &[u8]) -> (out: Option<Vec<u8>>)
    ensures
        match out {
            Some(bytes) => bytes@ == decoded(input@),
            None => decoded(input@) == input@,
        },
{
    percent_encoding::percent_decode(input).if_any()
}

/// Tells whether a byte is written as it is.
pub fn unreserved(b: u8) -> (r: bool)
    ensures
        r == is_unreserved(b),
{
    (0x41 <= b && b <= 0x5a) || (0x61 <= b && b <= 0x7a) || (0x30 <= b && b <= 0x39) || b == 0x2d
        || b == 0x2e || b == 0x5f || b == 0x7e
}

/// Encoding a string that ends in `b` encodes the rest and then `b`.
pub proof fn lemma_encoded_push(s: Seq<u8>, b: u8)
    ensures
        encoded(s.push(b)) == encoded(s) + encode_byte(b),
    decreases s.len(),
{
    if s.len() == 0 {
        let one = s.push(b);
        assert(one[0] == b);
        assert(one.drop_first() =~= Seq::<u8>::empty());
        assert(encoded(one.drop_first()) =~= Seq::<u8>::empty());
        assert(encoded(one) =~= encoded(s) + encode_byte(b));
    } else {
        assert(s.push(b).drop_first() =~= s.drop_first().push(b));
        lemma_encoded_push(s.drop_first(), b);
        assert(encoded(s.push(b)) =~= encoded(s) + encode_byte(b));
    }
}

/// The encoding holds only unreserved characters, `%` and hexadecimal digits.
pub proof fn lemma_encoded_is_ascii(s: Seq<u8>)
    ensures
        is_ascii_bytes(encoded(s)),
    decreases s.len(),
{
    if s.len() > 0 {
        lemma_encoded_is_ascii(s.drop_first());
        let head = encode_byte(s[0]);
        let tail = encoded(s.drop_first());
        assert forall|i: int| 0 <= i < encoded(s).len() implies #[trigger] encoded(s)[i] < 0x80 by {
            if i >= head.len() {
                assert(encoded(s)[i] == tail[i - head.len()]);
            }
        }
    }
}

/// Decoding undoes encoding, for every byte string.
pub proof fn lemma_decoded_encoded(s: Seq<u8>)
    ensures
        decoded(encoded(s)) == s,
    decreases s.len(),
{
    if s.len() > 0 {
        let b = s[0];
        let rest = encoded(s.drop_first());
        let whole = encoded(s);
        lemma_decoded_encoded(s.drop_first());
        if is_unreserved(b) {
            assert(whole =~= seq![b] + rest);
            assert(!starts_with_escape(whole));
            assert(whole.drop_first() =~= rest);
            assert(decoded(whole) =~= seq![b] + s.drop_first());
        } else {
            let high = b as int / 16;
            let low = b as int % 16;
            assert(whole =~= escape(b) + rest);
            assert(hex_value(hex_digit(high)) == Some(high));
            assert(hex_value(hex_digit(low)) == Some(low));
            assert(starts_with_escape(whole));
            assert(whole.skip(3) =~= rest);
            assert(decoded(whole) =~= seq![b] + s.drop_first());
        }
        assert(seq![b] + s.drop_first() =~= s);
    }
}

/// The text of ASCII bytes is ASCII, and its UTF-8 bytes are those bytes.
pub proof fn lemma_ascii_text_bytes(bytes: Seq<u8>)
    requires
        is_ascii_bytes(bytes),
    ensures
        vstd::utf8::is_ascii_chars(ascii_text(bytes)),
        vstd::utf8::encode_utf8(ascii_text(bytes)) == bytes,
{
    let text = ascii_text(bytes);
    assert(vstd::utf8::is_ascii_chars(text)) by {
        assert forall|i: int| 0 <= i < text.len() implies '\0' <= #[trigger] text[i] <= '\u{7f}' by {
            assert(bytes[i] < 0x80);
        }
    }
    vstd::utf8::is_ascii_chars_encode_utf8(text);
    assert(vstd::utf8::encode_utf8(text) =~= bytes) by {
        assert forall|i: int| 0 <= i < bytes.len() implies vstd::utf8::encode_utf8(text)[i]
            == bytes[i] by {
            assert(text[i] as u8 == vstd::utf8::encode_utf8(text)[i]);
            assert(bytes[i] < 0x80);
        }
    }
}

/// Percent-encodes a byte string.
pub fn percent_encode(input: &[u8]) -> (text: String)
    ensures
        text@ == ascii_text(encoded(input@)),
{
    let mut text = String::new();
    let mut i: usize = 0;
    assert(input@.take(0) =~= Seq::<u8>::empty());
    assert(text@ =~= ascii_text(encoded(input@.take(0))));
    while i < input.len()
        invariant
            i <= input.len(),
            text@ == ascii_text(encoded(input@.take(i as int))),
        decreases input.len() - i,
    {
        let b = input[i];
        let ghost before = encoded(input@.take(i as int));
        proof {
            assert(input@.take(i + 1) =~= input@.take(i as int).push(b));
            lemma_encoded_push(input@.take(i as int), b);
        }
        if unreserved(b) {
            text.push(b as char);
            assert(text@ =~= ascii_text(before + encode_byte(b)));
        } else {
            text.append(escape_text(b));
            assert(text@ =~= ascii_text(before + encode_byte(b)));
        }
        i += 1;
    }
    assert(input@.take(i as int) =~= input@);
    text
}

/// Percent-decodes a byte string. Decoding never fails: what is no `%XX`
/// stays as it is.
pub fn percent_decode(input: &[u8]) -> (bytes: Vec<u8>)
    ensures
        bytes@ == decoded(input@),
{
    match decode_if_any(input) {
        Some(bytes) => bytes,
        None => slice_to_vec(input),
    }
}

} // verus!
