use redisearch_sql::datetime::{parse_iso8601, timestamp_from_readings, ParseError};

#[test]
fn test_parse_date_only() {
    // 2024-01-01 00:00:00 UTC
    assert_eq!(parse_iso8601("2024-01-01"), Ok(1704067200));

    // 2024-03-15 00:00:00 UTC
    assert_eq!(parse_iso8601("2024-03-15"), Ok(1710460800));
}

#[test]
fn test_parse_datetime_utc() {
    // 2024-01-01 00:00:00 UTC
    assert_eq!(parse_iso8601("2024-01-01T00:00:00Z"), Ok(1704067200));

    // 2024-03-15 10:30:00 UTC
    assert_eq!(parse_iso8601("2024-03-15T10:30:00Z"), Ok(1710498600));
}

#[test]
fn test_parse_datetime_with_offset() {
    // 2024-01-01 05:00:00+05:00 = 2024-01-01 00:00:00 UTC
    assert_eq!(parse_iso8601("2024-01-01T05:00:00+05:00"), Ok(1704067200));

    // 2024-03-15 15:30:00+05:00 = 2024-03-15 10:30:00 UTC
    assert_eq!(parse_iso8601("2024-03-15T15:30:00+05:00"), Ok(1710498600));
}

#[test]
fn test_parse_datetime_with_fractional_seconds() {
    // Fractional seconds should be ignored
    assert_eq!(parse_iso8601("2024-01-01T00:00:00.123Z"), Ok(1704067200));
    assert_eq!(parse_iso8601("2024-01-01T00:00:00.999999Z"), Ok(1704067200));
}

#[test]
fn test_parse_invalid_format() {
    assert_eq!(parse_iso8601("not a date"), Err(ParseError::InvalidFormat));
    assert_eq!(parse_iso8601("2024-13-01"), Err(ParseError::InvalidFormat)); // Invalid month
    assert_eq!(parse_iso8601("2024-01-32"), Err(ParseError::InvalidFormat)); // Invalid day
    assert_eq!(parse_iso8601(""), Err(ParseError::InvalidFormat));
}

#[test]
fn test_parse_various_formats() {
    // Different valid ISO-8601 formats
    assert!(parse_iso8601("2024-01-01T00:00:00+00:00").is_ok());
    assert!(parse_iso8601("2024-01-01T00:00:00-05:00").is_ok());
    assert!(parse_iso8601("2024-12-31T23:59:59Z").is_ok());
}

#[test]
fn datetime_reading_wins_over_date_reading() {
    assert_eq!(timestamp_from_readings(Some(5), Some(Some(7))), Ok(5));
    assert_eq!(timestamp_from_readings(None, Some(Some(7))), Ok(7));
    assert_eq!(timestamp_from_readings(None, Some(None)), Err(ParseError::InvalidFormat));
    assert_eq!(timestamp_from_readings(None, None), Err(ParseError::InvalidFormat));
}

#[test]
fn parse_error_message() {
    assert_eq!(ParseError::InvalidFormat.display_string(), "Invalid ISO-8601 format");
}

#[test]
fn negative_offset_and_epoch() {
    assert_eq!(parse_iso8601("1970-01-01"), Ok(0));
    assert_eq!(parse_iso8601("1969-12-31T19:00:00-05:00"), Ok(0));
    assert_eq!(parse_iso8601("1969-12-31"), Ok(-86400));
}
