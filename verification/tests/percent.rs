use trashcan::percent::{percent_decode, percent_encode, unreserved};

#[test]
fn unreserved_bytes_are_letters_digits_and_four_marks() {
    let mut kept: Vec<u8> = Vec::new();
    for b in 0..=255u8 {
        if unreserved(b) {
            kept.push(b);
        }
    }
    let expected: Vec<u8> =
        b"-.0123456789ABCDEFGHIJKLMNOPQRSTUVWXYZ_abcdefghijklmnopqrstuvwxyz~".to_vec();
    assert_eq!(kept, expected);
}

#[test]
fn encode_keeps_unreserved_text() {
    assert_eq!(percent_encode(b"report-2.final_v1~"), "report-2.final_v1~");
}

#[test]
fn encode_of_nothing_is_nothing() {
    assert_eq!(percent_encode(b""), "");
}

#[test]
fn encode_escapes_separators_and_spaces() {
    assert_eq!(
        percent_encode(b"/home/user/my report.txt"),
        "%2Fhome%2Fuser%2Fmy%20report.txt"
    );
}

#[test]
fn encode_escapes_the_percent_sign() {
    assert_eq!(percent_encode(b"100%41"), "100%2541");
}

#[test]
fn encode_writes_upper_case_digits() {
    assert_eq!(percent_encode(&[0xff, 0xee, 0x0a, 0x00, 0x7f]), "%FF%EE%0A%00%7F");
}

#[test]
fn encode_is_ascii_for_every_byte() {
    let all: Vec<u8> = (0..=255u8).collect();
    let text = percent_encode(&all);
    assert!(text.is_ascii());
    assert_eq!(text.len(), 66 + 3 * (256 - 66));
}

#[test]
fn decode_reads_both_cases_of_digits() {
    assert_eq!(percent_decode(b"%2f%2F%fF%Ab"), vec![0x2f, 0x2f, 0xff, 0xab]);
}

#[test]
fn decode_leaves_what_is_no_escape() {
    assert_eq!(percent_decode(b"100%"), b"100%".to_vec());
    assert_eq!(percent_decode(b"%4"), b"%4".to_vec());
    assert_eq!(percent_decode(b"%zz%4g"), b"%zz%4g".to_vec());
    assert_eq!(percent_decode(b"plain"), b"plain".to_vec());
    assert_eq!(percent_decode(b""), Vec::<u8>::new());
}

#[test]
fn decode_goes_on_after_a_lone_percent_sign() {
    assert_eq!(percent_decode(b"%%41"), b"%A".to_vec());
    assert_eq!(percent_decode(b"a%zzb%20c"), b"a%zzb c".to_vec());
}

#[test]
fn decode_undoes_encode_for_every_byte() {
    for b in 0..=255u8 {
        let path = vec![b'/', b, b'%', b, b'4', b'1'];
        let text = percent_encode(&path);
        assert_eq!(percent_decode(text.as_bytes()), path);
    }
}

#[test]
fn decode_undoes_encode_for_bytes_that_are_no_text() {
    let path = b"/tmp/tras \xff\xee\xef\xced d h.txt".to_vec();
    let text = percent_encode(&path);
    assert_eq!(text, "%2Ftmp%2Ftras%20%FF%EE%EF%CEd%20d%20h.txt");
    assert_eq!(percent_decode(text.as_bytes()), path);
}
