//! ISO-8601 datetime parsing for DATETIME fields.
//!
//! Parses ISO-8601 formatted date and datetime strings into Unix timestamps
//! (seconds since epoch): an RFC 3339 datetime (`2024-03-15T10:30:00Z`,
//! `2024-03-15T10:30:00+05:00`, with optional fractional seconds) or a date
//! alone (`2024-03-15`), which stands for its midnight UTC.

use vstd::prelude::*;
use chrono::{DateTime, NaiveDate, TimeZone, Utc};

verus! {

/// Error type for datetime parsing failures.
#[derive(Debug, Clone, PartialEq, Eq, Structural)]
pub enum ParseError {
    /// The input string is not a valid ISO-8601 date or datetime.
    InvalidFormat,
}

impl ParseError {
    /// The error's message.
    pub fn display_string(&self) -> (s: String)
        ensures
            s@ == "Invalid ISO-8601 format"@,
    {
        String::from_str("Invalid ISO-8601 format")
    }
}

/// The timestamp of an RFC 3339 datetime, if the text is one.
pub uninterp spec fn rfc3339_seconds(s: Seq<char>) -> Option<i64>;

/// For a `%Y-%m-%d` date, the timestamp of its midnight UTC if that time
/// exists; `None` if the text is not such a date.
pub uninterp spec fn date_midnight_seconds(s: Seq<char>) -> Option<Option<i64>>;

/// `chrono::DateTime::parse_from_rfc3339`, then `timestamp`. The contract names
/// the result `rfc3339_seconds` of the text: the same text gives the same
/// result.
#[verifier::external_body]
fn rfc3339_timestamp(s: &str) -> (r: Option<i64>)
    ensures
        r == rfc3339_seconds(s@),
{
    match DateTime::parse_from_rfc3339(s) {
        Ok(dt) => Some(dt.timestamp()),
        Err(_) => None,
    }
}

/// `chrono::NaiveDate::parse_from_str` with `%Y-%m-%d`, then `and_hms_opt(0, 0,
/// 0)` and the timestamp of that time in UTC. The contract names the result
/// `date_midnight_seconds` of the text: the same text gives the same result.
#[verifier::external_body]
fn date_midnight_timestamp(s: &str) -> (r: Option<Option<i64>>)
    ensures
        r == date_midnight_seconds(s@),
{
    match NaiveDate::parse_from_str(s, "%Y-%m-%d") {
        Ok(date) => match date.and_hms_opt(0, 0, 0) {
            Some(dt) => Some(Some(Utc.from_utc_datetime(&dt).timestamp())),
            None => Some(None),
        },
        Err(_) => None,
    }
}

/// The timestamp of a text, given what it reads as an RFC 3339 datetime and
/// as a date: the datetime is tried first, then the date's midnight UTC.
pub open spec fn iso8601_of(rfc3339: Option<i64>, date: Option<Option<i64>>) -> Result<i64, ParseError> {
    match rfc3339 {
        Some(t) => Ok(t),
        None => match date {
            Some(Some(t)) => Ok(t),
            _ => Err(ParseError::InvalidFormat),
        },
    }
}

/// Chooses the timestamp from what the text reads as an RFC 3339 datetime and
/// as a date.
pub fn timestamp_from_readings(rfc3339: Option<i64>, date: Option<Option<i64>>) -> (r: Result<i64, ParseError>)
    ensures
        r == iso8601_of(rfc3339, date),
{
    if let Some(t) = rfc3339 {
        return Ok(t);
    }
    match date {
        Some(Some(t)) => Ok(t),
        _ => Err(ParseError::InvalidFormat),
    }
}

/// Parse an ISO-8601 formatted string into a Unix timestamp (seconds since epoch).
pub fn parse_iso8601(s: &str) -> (r: Result<i64, ParseError>)
    ensures
        r == iso8601_of(rfc3339_seconds(s@), date_midnight_seconds(s@)),
{
    if let Some(t) = rfc3339_timestamp(s) {
        return Ok(t);
    }
    let date = date_midnight_timestamp(s);
    timestamp_from_readings(None, date)
}

} // verus!
