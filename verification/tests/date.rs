use trashcan::DeletionDate;

fn date(year: i32, month: u32, day: u32, hour: u32, minute: u32, second: u32) -> DeletionDate {
    DeletionDate::new(year, month, day, hour, minute, second).expect("a real moment")
}

#[test]
fn new_keeps_the_six_numbers() {
    let d = date(2019, 7, 4, 13, 5, 9);
    assert_eq!(
        d,
        DeletionDate { year: 2019, month: 7, day: 4, hour: 13, minute: 5, second: 9 }
    );
}

#[test]
fn new_knows_the_length_of_each_month() {
    let lengths = [31, 28, 31, 30, 31, 30, 31, 31, 30, 31, 30, 31];
    for (index, length) in lengths.iter().enumerate() {
        let month = index as u32 + 1;
        assert!(DeletionDate::new(2023, month, *length, 0, 0, 0).is_some());
        assert!(DeletionDate::new(2023, month, *length + 1, 0, 0, 0).is_none());
        assert!(DeletionDate::new(2023, month, 0, 0, 0, 0).is_none());
    }
}

#[test]
fn new_knows_leap_years() {
    assert!(DeletionDate::new(2024, 2, 29, 0, 0, 0).is_some());
    assert!(DeletionDate::new(2023, 2, 29, 0, 0, 0).is_none());
    assert!(DeletionDate::new(1900, 2, 29, 0, 0, 0).is_none());
    assert!(DeletionDate::new(2000, 2, 29, 0, 0, 0).is_some());
    assert!(DeletionDate::new(0, 2, 29, 0, 0, 0).is_some());
    assert!(DeletionDate::new(2024, 2, 30, 0, 0, 0).is_none());
}

#[test]
fn new_refuses_what_is_no_moment() {
    assert!(DeletionDate::new(-1, 1, 1, 0, 0, 0).is_none());
    assert!(DeletionDate::new(10000, 1, 1, 0, 0, 0).is_none());
    assert!(DeletionDate::new(2020, 0, 1, 0, 0, 0).is_none());
    assert!(DeletionDate::new(2020, 13, 1, 0, 0, 0).is_none());
    assert!(DeletionDate::new(2020, 1, 1, 24, 0, 0).is_none());
    assert!(DeletionDate::new(2020, 1, 1, 0, 60, 0).is_none());
    assert!(DeletionDate::new(2020, 1, 1, 0, 0, 60).is_none());
    assert!(DeletionDate::new(9999, 12, 31, 23, 59, 59).is_some());
}

#[test]
fn is_valid_tells_what_new_takes() {
    let good = DeletionDate { year: 2020, month: 2, day: 29, hour: 0, minute: 0, second: 0 };
    let bad = DeletionDate { year: 2021, month: 2, day: 29, hour: 0, minute: 0, second: 0 };
    assert!(good.is_valid());
    assert!(!bad.is_valid());
}

#[test]
fn format_has_fixed_width_and_zeros() {
    assert_eq!(date(2019, 7, 4, 13, 5, 9).format(), "2019-07-04T13:05:09");
    assert_eq!(date(0, 1, 1, 0, 0, 0).format(), "0000-01-01T00:00:00");
    assert_eq!(date(987, 10, 31, 23, 59, 59).format(), "0987-10-31T23:59:59");
    assert_eq!(date(9999, 12, 31, 23, 59, 59).format(), "9999-12-31T23:59:59");
}

#[test]
fn parse_reads_the_exact_form() {
    assert_eq!(DeletionDate::parse("2019-07-04T13:05:09"), Some(date(2019, 7, 4, 13, 5, 9)));
    assert_eq!(DeletionDate::parse("0000-01-01T00:00:00"), Some(date(0, 1, 1, 0, 0, 0)));
    assert_eq!(
        DeletionDate::parse_bytes(b"2024-02-29T23:59:59"),
        Some(date(2024, 2, 29, 23, 59, 59))
    );
}

#[test]
fn parse_refuses_another_width() {
    assert_eq!(DeletionDate::parse("2015-9-18T23:56:04"), None);
    assert_eq!(DeletionDate::parse("2015-09-18T23:56:4"), None);
    assert_eq!(DeletionDate::parse("15-09-18T23:56:04"), None);
    assert_eq!(DeletionDate::parse("+2015-09-18T23:56:04"), None);
    assert_eq!(DeletionDate::parse("2015-09-18T23:56:04.5"), None);
    assert_eq!(DeletionDate::parse("2015-09-18T23:56:04 "), None);
    assert_eq!(DeletionDate::parse(" 2015-09-18T23:56:04"), None);
    assert_eq!(DeletionDate::parse(""), None);
}

#[test]
fn parse_refuses_other_separators() {
    assert_eq!(DeletionDate::parse("2015-09-18 23:56:04"), None);
    assert_eq!(DeletionDate::parse("2015-09-18t23:56:04"), None);
    assert_eq!(DeletionDate::parse("2015/09/18T23:56:04"), None);
    assert_eq!(DeletionDate::parse("2015-09-18T23.56.04"), None);
}

#[test]
fn parse_refuses_what_is_no_digit() {
    assert_eq!(DeletionDate::parse("2o15-09-18T23:56:04"), None);
    assert_eq!(DeletionDate::parse("2015-09-18T23:56:0x"), None);
    assert_eq!(DeletionDate::parse("２015-09-18T23:56:04"), None);
}

#[test]
fn parse_refuses_what_is_no_moment() {
    assert_eq!(DeletionDate::parse("2023-02-29T00:00:00"), None);
    assert_eq!(DeletionDate::parse("2023-13-01T00:00:00"), None);
    assert_eq!(DeletionDate::parse("2023-00-10T00:00:00"), None);
    assert_eq!(DeletionDate::parse("2023-04-31T00:00:00"), None);
    assert_eq!(DeletionDate::parse("2023-04-30T24:00:00"), None);
    assert_eq!(DeletionDate::parse("2023-04-30T23:60:00"), None);
    assert_eq!(DeletionDate::parse("2023-04-30T23:59:60"), None);
}

#[test]
fn parse_undoes_format() {
    let days = [
        date(1970, 1, 1, 0, 0, 0),
        date(2000, 2, 29, 12, 30, 45),
        date(2038, 1, 19, 3, 14, 7),
        date(9999, 12, 31, 23, 59, 59),
        date(0, 12, 31, 1, 2, 3),
    ];
    for d in days {
        assert_eq!(DeletionDate::parse(&d.format()), Some(d));
    }
}

#[test]
fn now_is_a_real_moment() {
    let now = DeletionDate::now().expect("a clock within four digits of years");
    assert!(now.is_valid());
    assert!(now.year >= 2024);
    assert_eq!(DeletionDate::parse(&now.format()), Some(now));
}
