use fitbit_exporter::day::{parse_datetime_to_unix_timestamp, Day};
use fitbit_exporter::decimal::{parse_u64, push_decimal, push_signed};

#[test]
fn parse_u64_reads_plain_digits() {
    assert_eq!(parse_u64("4321"), Some(4321));
    assert_eq!(parse_u64("0"), Some(0));
    assert_eq!(parse_u64("007"), Some(7));
}

#[test]
fn parse_u64_takes_one_plus_sign() {
    assert_eq!(parse_u64("+7"), Some(7));
    assert_eq!(parse_u64("+"), None);
    assert_eq!(parse_u64("++7"), None);
}

#[test]
fn parse_u64_refuses_other_text() {
    assert_eq!(parse_u64(""), None);
    assert_eq!(parse_u64("-1"), None);
    assert_eq!(parse_u64("12a"), None);
    assert_eq!(parse_u64(" 12"), None);
    assert_eq!(parse_u64("1.5"), None);
}

#[test]
fn parse_u64_at_the_limit() {
    assert_eq!(parse_u64("18446744073709551615"), Some(u64::MAX));
    assert_eq!(parse_u64("18446744073709551616"), None);
    assert_eq!(parse_u64("99999999999999999999x"), None);
}

#[test]
fn parse_u64_agrees_with_std() {
    for s in ["1", "+0", "-0", "", "42", "4294967296", "1e3", "+-1"] {
        assert_eq!(parse_u64(s), s.parse::<u64>().ok(), "{}", s);
    }
}

#[test]
fn decimal_text_of_numbers() {
    let mut out = String::new();
    push_decimal(&mut out, 0);
    assert_eq!(out, "0");
    let mut out = String::from("n=");
    push_decimal(&mut out, 1234567890);
    assert_eq!(out, "n=1234567890");
    let mut out = String::new();
    push_decimal(&mut out, u64::MAX);
    assert_eq!(out, "18446744073709551615");
}

#[test]
fn signed_text_of_numbers() {
    let mut out = String::new();
    push_signed(&mut out, -86400);
    assert_eq!(out, "-86400");
    let mut out = String::new();
    push_signed(&mut out, i64::MIN);
    assert_eq!(out, "-9223372036854775808");
    let mut out = String::new();
    push_signed(&mut out, 1672531200);
    assert_eq!(out, "1672531200");
}

#[test]
fn day_parse_and_midnight() {
    let d = Day::parse("2023-01-01").unwrap();
    assert_eq!(d.days_from_ce, 738521);
    assert_eq!(d.midnight_utc_timestamp(), 1672531200);
    let e = Day::parse("1970-01-01").unwrap();
    assert_eq!(e.midnight_utc_timestamp(), 0);
    let f = Day::parse("1969-12-31").unwrap();
    assert_eq!(f.midnight_utc_timestamp(), -86400);
}

#[test]
fn day_parse_refuses_bad_dates() {
    assert_eq!(Day::parse("2023-13-01"), None);
    assert_eq!(Day::parse("2023-02-29"), None);
    assert_eq!(Day::parse("yesterday"), None);
    assert_eq!(Day::parse(""), None);
}

#[test]
fn day_text_round_trip() {
    let d = Day::parse("2024-02-29").unwrap();
    assert_eq!(d.text(), Some("2024-02-29".to_string()));
    assert_eq!(Day::from_days_from_ce(i32::MAX).text(), None);
}

#[test]
fn day_days_before() {
    let d = Day::parse("2023-01-02").unwrap();
    assert_eq!(d.days_before(1), Day::parse("2023-01-01"));
    assert_eq!(d.days_before(365), Day::parse("2022-01-02"));
    assert_eq!(Day::from_days_from_ce(i32::MIN + 3).days_before(4), None);
}

#[test]
fn datetime_to_unix_timestamp() {
    assert_eq!(parse_datetime_to_unix_timestamp("2023-03-04T03:47:00.000"), 1677901620);
    assert_eq!(parse_datetime_to_unix_timestamp("not a time"), 0);
}
