//! Timestamps of log entries.
//!
//! A log writes a date and a time of day without a zone. They are taken as
//! UTC.

use vstd::prelude::*;

verus! {

/// A point in time: whole seconds since the start of 1970 in UTC, and the
/// nanoseconds on top.
#[derive(Clone, Copy, Debug, PartialEq, Eq, Structural)]
pub struct Timestamp {
    pub secs: i64,
    pub nanos: u32,
}

/// Why a text is no timestamp.
#[derive(Clone, Copy, Debug, PartialEq, Eq, Structural)]
pub enum TimestampError {
    /// The text is in none of the formats that logs use.
    UnknownFormat,
}

/// Month first, twelve-hour clock: `2/25/2026 12:00:00 PM`.
pub const US_12H: &'static str = "%m/%d/%Y %I:%M:%S %p";

/// Year first, twelve-hour clock: `2026-02-25 12:00:00 PM`.
pub const ISO_12H: &'static str = "%Y-%m-%d %I:%M:%S %p";

/// Month first, 24-hour clock: `2/25/2026 14:30:00`.
pub const US_24H: &'static str = "%m/%d/%Y %H:%M:%S";

/// Year first, 24-hour clock: `2026-02-25 14:30:00`.
pub const ISO_24H: &'static str = "%Y-%m-%d %H:%M:%S";

/// What `chrono::NaiveDateTime::parse_from_str` makes of a text under a
/// format: seconds since the start of 1970 and nanoseconds, the date and time
/// taken as UTC, or nothing where it refuses the text.
pub uninterp spec fn date_time_in(text: Seq<char>, format: Seq<char>) -> Option<(i64, u32)>;

/// The timestamp that a text holds under a format.
pub open spec fn timestamp_in(text: Seq<char>, format: Seq<char>) -> Option<Timestamp> {
    match date_time_in(text, format) {
        Some(parts) => Some(Timestamp { secs: parts.0, nanos: parts.1 }),
        None => None,
    }
}

/// The first of two timestamps that is there.
pub open spec fn first_of(a: Option<Timestamp>, b: Option<Timestamp>) -> Option<Timestamp> {
    match a {
        Some(_) => a,
        None => b,
    }
}

/// The timestamp that a text holds: the formats are tried with the
/// twelve-hour clock first.
pub open spec fn log_timestamp(text: Seq<char>) -> Option<Timestamp> {
    first_of(
        timestamp_in(text, US_12H@),
        first_of(
            timestamp_in(text, ISO_12H@),
            first_of(timestamp_in(text, US_24H@), timestamp_in(text, ISO_24H@)),
        ),
    )
}

/// Calls `chrono::NaiveDateTime::parse_from_str` and hands the date and time
/// on as the seconds since the start of 1970 in UTC and the nanoseconds. The
/// result is the one that [`date_time_in`] names.
#[verifier::external_body]
fn parse_date_time(text: &str, format: &str) -> (parts: Option<(i64, u32)>)
    ensures
        parts == date_time_in(text@, format@),
{
    match chrono::NaiveDateTime::parse_from_str(text, format) {
        Ok(at) => Some((at.and_utc().timestamp(), at.and_utc().timestamp_subsec_nanos())),
        Err(_) => None,
    }
}

fn parse_with(text: &str, format: &str) -> (at: Option<Timestamp>)
    ensures
        at == timestamp_in(text@, format@),
{
    match parse_date_time(text, format) {
        Some((secs, nanos)) => Some(Timestamp { secs, nanos }),
        None => None,
    }
}

/// Reads a timestamp as logs write them.
///
/// Fails where the text is in none of the four formats.
pub fn parse_log_timestamp(text: &str) -> (at: Result<Timestamp, TimestampError>)
    ensures
        match at {
            Ok(t) => log_timestamp(text@) == Some(t),
            Err(e) => log_timestamp(text@) is None && e == TimestampError::UnknownFormat,
        },
{
    if let Some(t) = parse_with(text, US_12H) {
        return Ok(t);
    }
    if let Some(t) = parse_with(text, ISO_12H) {
        return Ok(t);
    }
    if let Some(t) = parse_with(text, US_24H) {
        return Ok(t);
    }
    if let Some(t) = parse_with(text, ISO_24H) {
        return Ok(t);
    }
    Err(TimestampError::UnknownFormat)
}

/// A text is read in the first of the four formats that it is in, and is no timestamp
/// where it is in none. The seconds and the nanoseconds are kept as they are read.
pub proof fn law_first_format_that_fits_is_read(text: Seq<char>)
    ensures
        ({
            let a = date_time_in(text, "%m/%d/%Y %I:%M:%S %p"@);
            let b = date_time_in(text, "%Y-%m-%d %I:%M:%S %p"@);
            let c = date_time_in(text, "%m/%d/%Y %H:%M:%S"@);
            let d = date_time_in(text, "%Y-%m-%d %H:%M:%S"@);
            let parts = if a is Some {
                a
            } else if b is Some {
                b
            } else if c is Some {
                c
            } else {
                d
            };
            match log_timestamp(text) {
                Some(at) => parts == Some((at.secs, at.nanos)),
                None => parts is None,
            }
        }),
{
}

} // verus!
