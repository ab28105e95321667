use trashcan::{DeletionDate, ParseFailure, ParseTrashInfoError, TrashInfo};

fn date(year: i32, month: u32, day: u32, hour: u32, minute: u32, second: u32) -> DeletionDate {
    DeletionDate::new(year, month, day, hour, minute, second).expect("a real moment")
}

fn failure(read: Result<TrashInfo, ParseTrashInfoError>) -> ParseFailure {
    match read {
        Ok(info) => panic!("read {:?}", info),
        Err(error) => error.kind(),
    }
}

#[test]
fn with_delete_datetime_keeps_what_it_is_given() {
    let info = TrashInfo::with_delete_datetime(
        b"report.txt".to_vec(),
        b"/home/user/report.txt".to_vec(),
        date(2021, 3, 14, 15, 9, 26),
    );
    assert_eq!(info.internal_filename, b"report.txt".to_vec());
    assert_eq!(info.path, b"/home/user/report.txt".to_vec());
    assert_eq!(info.deletion_date, date(2021, 3, 14, 15, 9, 26));
}

#[test]
fn stamped_takes_the_date_of_the_clock() {
    let clock = Some(date(2022, 1, 2, 3, 4, 5));
    let info = TrashInfo::stamped(b"a".to_vec(), b"/a".to_vec(), clock).expect("a record");
    assert_eq!(
        info,
        TrashInfo::with_delete_datetime(b"a".to_vec(), b"/a".to_vec(), date(2022, 1, 2, 3, 4, 5))
    );
    assert_eq!(TrashInfo::stamped(b"a".to_vec(), b"/a".to_vec(), None), None);
}

#[test]
fn new_is_stamped_with_a_real_moment() {
    let info = TrashInfo::new(b"a.txt".to_vec(), b"/tmp/a.txt".to_vec()).expect("a record");
    assert_eq!(info.internal_filename, b"a.txt".to_vec());
    assert_eq!(info.path, b"/tmp/a.txt".to_vec());
    assert!(info.deletion_date.is_valid());
}

#[test]
fn serialize_writes_one_section_with_two_lines() {
    let info = TrashInfo::with_delete_datetime(
        b"report.txt".to_vec(),
        b"/home/user/my report.txt".to_vec(),
        date(2021, 3, 14, 15, 9, 26),
    );
    assert_eq!(
        info.serialize(),
        "[Trash Info]\nPath=%2Fhome%2Fuser%2Fmy%20report.txt\nDeletionDate=2021-03-14T15:09:26\n"
    );
}

#[test]
fn serialize_leaves_the_name_out() {
    let one = TrashInfo::with_delete_datetime(
        b"x".to_vec(),
        b"/p".to_vec(),
        date(2000, 1, 1, 0, 0, 0),
    );
    let other = TrashInfo::with_delete_datetime(
        b"x.2".to_vec(),
        b"/p".to_vec(),
        date(2000, 1, 1, 0, 0, 0),
    );
    assert_eq!(one.serialize(), other.serialize());
    assert_eq!(one.serialize(), "[Trash Info]\nPath=%2Fp\nDeletionDate=2000-01-01T00:00:00\n");
}

#[test]
fn from_values_decodes_the_path_and_reads_the_date() {
    let info = TrashInfo::from_values(
        b"n".to_vec(),
        "%2Fhome%2Fuser%2Fmy%20report.txt",
        "2021-03-14T15:09:26",
    )
    .expect("a record");
    assert_eq!(
        info,
        TrashInfo::with_delete_datetime(
            b"n".to_vec(),
            b"/home/user/my report.txt".to_vec(),
            date(2021, 3, 14, 15, 9, 26),
        )
    );
}

#[test]
fn from_values_keeps_a_path_that_is_not_encoded() {
    let info = TrashInfo::from_values(b"n".to_vec(), "/home/100%/%zz", "2021-03-14T15:09:26")
        .expect("a record");
    assert_eq!(info.path, b"/home/100%/%zz".to_vec());
}

#[test]
fn from_values_takes_the_bytes_of_text_that_is_not_ascii() {
    let info = TrashInfo::from_values(b"n".to_vec(), "/caf\u{e9}%20", "2021-03-14T15:09:26")
        .expect("a record");
    assert_eq!(info.path, b"/caf\xc3\xa9 ".to_vec());
}

#[test]
fn from_values_refuses_a_date_of_another_form() {
    assert_eq!(
        failure(TrashInfo::from_values(b"n".to_vec(), "%2Fp", "2021-3-14T15:09:26")),
        ParseFailure::MalformedDate
    );
    assert_eq!(
        failure(TrashInfo::from_values(b"n".to_vec(), "%2Fp", "yesterday")),
        ParseFailure::MalformedDate
    );
    assert_eq!(
        failure(TrashInfo::from_values(b"n".to_vec(), "%2Fp", "2021-02-30T15:09:26")),
        ParseFailure::MalformedDate
    );
}

#[test]
fn from_filename_and_content_reads_a_metadata_file() {
    let text = "[Trash Info]\nPath=%2Fhome%2Fuser%2Freport.txt\nDeletionDate=2021-03-14T15:09:26\n";
    let info = TrashInfo::from_filename_and_content(b"report.txt".to_vec(), text)
        .expect("a record");
    assert_eq!(
        info,
        TrashInfo::with_delete_datetime(
            b"report.txt".to_vec(),
            b"/home/user/report.txt".to_vec(),
            date(2021, 3, 14, 15, 9, 26),
        )
    );
}

#[test]
fn from_filename_and_content_takes_keys_in_any_order() {
    let text = "# written by hand\n[Other]\nPath=%2Fwrong\n\n[Trash Info]\nDeletionDate=2021-03-14T15:09:26\nPath=/home/user/report.txt\n";
    let info = TrashInfo::from_filename_and_content(b"r".to_vec(), text).expect("a record");
    assert_eq!(info.path, b"/home/user/report.txt".to_vec());
    assert_eq!(info.deletion_date, date(2021, 3, 14, 15, 9, 26));
}

#[test]
fn from_filename_and_content_misses_the_section() {
    assert_eq!(
        failure(TrashInfo::from_filename_and_content(b"n".to_vec(), "")),
        ParseFailure::MissingSection
    );
    assert_eq!(
        failure(TrashInfo::from_filename_and_content(
            b"n".to_vec(),
            "[Trash]\nPath=%2Fp\nDeletionDate=2021-03-14T15:09:26\n"
        )),
        ParseFailure::MissingSection
    );
    assert_eq!(
        failure(TrashInfo::from_filename_and_content(
            b"n".to_vec(),
            "Path=%2Fp\nDeletionDate=2021-03-14T15:09:26\n"
        )),
        ParseFailure::MissingSection
    );
}

#[test]
fn from_filename_and_content_misses_a_key() {
    assert_eq!(
        failure(TrashInfo::from_filename_and_content(
            b"n".to_vec(),
            "[Trash Info]\nDeletionDate=2021-03-14T15:09:26\n"
        )),
        ParseFailure::MissingKey
    );
    assert_eq!(
        failure(TrashInfo::from_filename_and_content(b"n".to_vec(), "[Trash Info]\nPath=%2Fp\n")),
        ParseFailure::MissingKey
    );
    assert_eq!(
        failure(TrashInfo::from_filename_and_content(b"n".to_vec(), "[Trash Info]\n")),
        ParseFailure::MissingKey
    );
}

#[test]
fn from_filename_and_content_refuses_a_malformed_date() {
    assert_eq!(
        failure(TrashInfo::from_filename_and_content(
            b"n".to_vec(),
            "[Trash Info]\nPath=%2Fp\nDeletionDate=14.03.2021\n"
        )),
        ParseFailure::MalformedDate
    );
}

#[test]
fn from_filename_and_content_hands_on_the_error_of_the_text() {
    let read = TrashInfo::from_filename_and_content(b"n".to_vec(), "[Trash Info\nPath=%2Fp\n");
    assert!(matches!(read, Err(ParseTrashInfoError::ParseError(_))));
    assert_eq!(
        failure(TrashInfo::from_filename_and_content(b"n".to_vec(), "=nothing\n")),
        ParseFailure::MalformedText
    );
}

#[test]
fn from_document_reads_a_document_built_by_hand() {
    let mut doc = ini::Ini::new();
    doc.with_section(Some("Trash Info"))
        .set("Path", "%2Fa%2Fb")
        .set("DeletionDate", "1999-12-31T23:59:59");
    let info = TrashInfo::from_document(b"b".to_vec(), &doc).expect("a record");
    assert_eq!(
        info,
        TrashInfo::with_delete_datetime(b"b".to_vec(), b"/a/b".to_vec(), date(1999, 12, 31, 23, 59, 59))
    );
    let empty = ini::Ini::new();
    assert_eq!(failure(TrashInfo::from_document(b"b".to_vec(), &empty)), ParseFailure::MissingSection);
}

#[test]
fn the_error_of_a_text_becomes_an_error_of_reading() {
    let refused = ini::Ini::load_from_str("[Trash Info").expect_err("no document");
    let error = ParseTrashInfoError::from(refused);
    assert!(matches!(error, ParseTrashInfoError::ParseError(_)));
    assert_eq!(error.kind(), ParseFailure::MalformedText);
}

#[test]
fn kind_names_every_error() {
    assert_eq!(ParseTrashInfoError::MissingSection.kind(), ParseFailure::MissingSection);
    assert_eq!(ParseTrashInfoError::MissingKey.kind(), ParseFailure::MissingKey);
    assert_eq!(ParseTrashInfoError::MissingValue.kind(), ParseFailure::MissingValue);
    assert_eq!(ParseTrashInfoError::MalformedDate.kind(), ParseFailure::MalformedDate);
}

#[test]
fn reading_undoes_writing() {
    let paths: Vec<Vec<u8>> = vec![
        b"/home/user/report.txt".to_vec(),
        b"/tmp/with space/and%percent/100%41".to_vec(),
        b"/tmp/=;#[brackets]\\back\"quote'".to_vec(),
        b"/tmp/line\nfeed\ttab\r".to_vec(),
        b"/".to_vec(),
        (0..=255u8).collect(),
    ];
    for path in paths {
        let info = TrashInfo::with_delete_datetime(
            b"name".to_vec(),
            path.clone(),
            date(2024, 2, 29, 23, 59, 59),
        );
        let text = info.serialize();
        let read = TrashInfo::from_filename_and_content(b"name".to_vec(), &text).expect("a record");
        assert_eq!(read, info);
    }
}

#[test]
fn bytes_that_are_no_text_come_back() {
    let path = b"/tmp/tras \xff\xee\xef\xced d h.txt".to_vec();
    let info = TrashInfo::with_delete_datetime(
        b"tras \xff\xee\xef\xced d h.txt".to_vec(),
        path.clone(),
        date(2020, 5, 17, 8, 0, 1),
    );
    let text = info.serialize();
    assert_eq!(
        text,
        "[Trash Info]\nPath=%2Ftmp%2Ftras%20%FF%EE%EF%CEd%20d%20h.txt\nDeletionDate=2020-05-17T08:00:01\n"
    );
    let read = TrashInfo::from_filename_and_content(b"tras \xff\xee\xef\xced d h.txt".to_vec(), &text)
        .expect("a record");
    assert_eq!(read.path, path);
    assert_eq!(read, info);
}
