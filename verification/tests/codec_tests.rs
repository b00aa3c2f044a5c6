use cloudsync::codec::parse_iso_date;

#[test]
fn test_date_parsing() {
    assert_eq!(parse_iso_date("2023-08-06T13:23:00Z").unwrap(), 1691328180);
}

#[test]
fn fractional_seconds_are_ignored() {
    assert_eq!(parse_iso_date("2023-08-06T13:23:00.093Z"), Some(1691328180));
    assert_eq!(parse_iso_date("2023-08-06T13:23:00.9Z"), Some(1691328180));
}

#[test]
fn leap_year_february_29_decodes() {
    let feb28 = parse_iso_date("2024-02-28T00:00:00Z").unwrap();
    let feb29 = parse_iso_date("2024-02-29T00:00:00Z").unwrap();
    assert_eq!(feb28, 1709078400);
    assert_eq!(feb29, 1709078400 + 86400);
    // A century leap year (divisible by 400).
    assert_eq!(parse_iso_date("2000-02-29T12:00:00Z"), Some(951825600));
}

#[test]
fn non_leap_year_has_no_february_29() {
    assert_eq!(parse_iso_date("2023-02-29T00:00:00Z"), None);
    // A century year not divisible by 400 is not a leap year either,
    // even though it is divisible by 4 via 100.
    assert_eq!(parse_iso_date("2100-02-29T00:00:00Z"), None);
    assert!(parse_iso_date("2100-02-28T00:00:00Z").is_some());
}

#[test]
fn epoch_start_decodes_to_zero() {
    assert_eq!(parse_iso_date("1970-01-01T00:00:00Z"), Some(0));
    assert_eq!(parse_iso_date("1970-01-01T00:00:01Z"), Some(1));
}

#[test]
fn malformed_dates_are_rejected() {
    assert_eq!(parse_iso_date(""), None);
    assert_eq!(parse_iso_date("2023-08-06"), None);
    assert_eq!(parse_iso_date("2023-08-06 13:23:00Z"), None);
    assert_eq!(parse_iso_date("2023-08-06T13:23:00"), None);
    assert_eq!(parse_iso_date("2023-08-06T13:23:00+02:00"), None);
    assert_eq!(parse_iso_date("2023-13-01T00:00:00Z"), None);
    assert_eq!(parse_iso_date("2023-00-01T00:00:00Z"), None);
    assert_eq!(parse_iso_date("2023-04-31T00:00:00Z"), None);
    assert_eq!(parse_iso_date("2023-08-00T00:00:00Z"), None);
    assert_eq!(parse_iso_date("2023-08-06T24:00:00Z"), None);
    assert_eq!(parse_iso_date("2023-08-06T13:60:00Z"), None);
    assert_eq!(parse_iso_date("2023-08-06T13:23:60Z"), None);
    assert_eq!(parse_iso_date("1969-12-31T23:59:59Z"), None);
    assert_eq!(parse_iso_date("2023-08-06T13:23:00.Z"), None);
    assert_eq!(parse_iso_date("20a3-08-06T13:23:00Z"), None);
}

#[test]
fn month_boundaries_decode() {
    // One second before and at a month rollover.
    assert_eq!(
        parse_iso_date("2023-08-31T23:59:59Z").unwrap() + 1,
        parse_iso_date("2023-09-01T00:00:00Z").unwrap()
    );
    // Year rollover.
    assert_eq!(
        parse_iso_date("2023-12-31T23:59:59Z").unwrap() + 1,
        parse_iso_date("2024-01-01T00:00:00Z").unwrap()
    );
}
