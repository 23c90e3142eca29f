use community_auth::subject::{format_subject, parse_subject};

#[test]
fn format_subject_writes_decimal() {
    assert_eq!(format_subject(0), "0");
    assert_eq!(format_subject(7), "7");
    assert_eq!(format_subject(10), "10");
    assert_eq!(format_subject(42), "42");
    assert_eq!(format_subject(-7), "-7");
    assert_eq!(format_subject(1_000_000), "1000000");
    assert_eq!(format_subject(i32::MAX), "2147483647");
    assert_eq!(format_subject(i32::MIN), "-2147483648");
}

#[test]
fn format_subject_agrees_with_to_string() {
    let samples = [0, 1, -1, 9, 10, 11, 99, 100, 101, -100, 123_456_789, -987_654_321, i32::MAX, i32::MIN];
    for id in samples {
        assert_eq!(format_subject(id), id.to_string());
    }
}

#[test]
fn parse_subject_reads_plain_numbers() {
    assert_eq!(parse_subject("0"), Some(0));
    assert_eq!(parse_subject("7"), Some(7));
    assert_eq!(parse_subject("42"), Some(42));
    assert_eq!(parse_subject("2147483647"), Some(i32::MAX));
}

#[test]
fn parse_subject_reads_signs() {
    assert_eq!(parse_subject("-7"), Some(-7));
    assert_eq!(parse_subject("+7"), Some(7));
    assert_eq!(parse_subject("-0"), Some(0));
    assert_eq!(parse_subject("+0"), Some(0));
    assert_eq!(parse_subject("-2147483648"), Some(i32::MIN));
}

#[test]
fn parse_subject_allows_leading_zeros() {
    assert_eq!(parse_subject("007"), Some(7));
    assert_eq!(parse_subject("-007"), Some(-7));
    assert_eq!(parse_subject("0000000000000000000000000000000000000001"), Some(1));
    assert_eq!(parse_subject("00000000000000000000002147483647"), Some(i32::MAX));
}

#[test]
fn parse_subject_rejects_what_is_no_number() {
    assert_eq!(parse_subject(""), None);
    assert_eq!(parse_subject("-"), None);
    assert_eq!(parse_subject("+"), None);
    assert_eq!(parse_subject("+-1"), None);
    assert_eq!(parse_subject("--1"), None);
    assert_eq!(parse_subject("1-"), None);
    assert_eq!(parse_subject("12a"), None);
    assert_eq!(parse_subject("a12"), None);
    assert_eq!(parse_subject(" 12"), None);
    assert_eq!(parse_subject("12 "), None);
    assert_eq!(parse_subject("1_000"), None);
    assert_eq!(parse_subject("1.0"), None);
    assert_eq!(parse_subject("0x10"), None);
    assert_eq!(parse_subject("seven"), None);
}

#[test]
fn parse_subject_rejects_digits_outside_ascii() {
    assert_eq!(parse_subject("\u{ff11}\u{ff12}"), None);
    assert_eq!(parse_subject("1\u{0662}"), None);
    assert_eq!(parse_subject("\u{e9}"), None);
    assert_eq!(parse_subject("-\u{ff11}"), None);
}

#[test]
fn parse_subject_rejects_what_does_not_fit() {
    assert_eq!(parse_subject("2147483648"), None);
    assert_eq!(parse_subject("+2147483648"), None);
    assert_eq!(parse_subject("-2147483649"), None);
    assert_eq!(parse_subject("4294967296"), None);
    assert_eq!(parse_subject("99999999999999999999999999999999"), None);
    assert_eq!(parse_subject("-99999999999999999999999999999999"), None);
    assert_eq!(parse_subject("21474836470"), None);
}

#[test]
fn parse_subject_agrees_with_std_parse() {
    let samples = [
        "", "0", "-0", "+0", "1", "-1", "+1", "00", "0012", "2147483647", "2147483648",
        "-2147483648", "-2147483649", "+", "-", "1a", "a", " 1", "1 ", "1e3", "١٢", "１",
        "-+1", "++1", "10000000000", "-10000000000",
    ];
    for s in samples {
        assert_eq!(parse_subject(s), s.parse::<i32>().ok(), "on {:?}", s);
    }
}

#[test]
fn parse_subject_inverts_format_subject() {
    let samples = [0, 1, -1, 10, -10, 99, 1234, -98765, i32::MAX, i32::MIN, i32::MAX - 1, i32::MIN + 1];
    for id in samples {
        assert_eq!(parse_subject(&format_subject(id)), Some(id));
    }
}
