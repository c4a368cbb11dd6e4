//! The calls into `chrono`. Parsing and printing of dates is chrono's work;
//! nothing of it is proved here. Each call has a name for its result, a
//! function of the arguments alone, and hands plain values over: seconds
//! since 1970-01-01T00:00:00 UTC, nanoseconds within the second, and the
//! offset from UTC in seconds.

use vstd::prelude::*;

verus! {

/// What `chrono::DateTime::parse_from_rfc3339` makes of a text: the instant
/// and its offset, or the message of chrono's error.
pub uninterp spec fn rfc3339_reading(text: Seq<char>) -> Result<(i64, u32, i32), Seq<char>>;

/// What `chrono::DateTime::parse_from_rfc2822` makes of a text: the instant
/// and its offset, or the message of chrono's error.
pub uninterp spec fn rfc2822_reading(text: Seq<char>) -> Result<(i64, u32, i32), Seq<char>>;

/// What `chrono::NaiveDateTime::parse_from_str` makes of a text under a
/// `strftime` pattern, the date and time taken as UTC: the instant, or the
/// message of chrono's error.
pub uninterp spec fn naive_reading(text: Seq<char>, pattern: Seq<char>) -> Result<
    (i64, u32),
    Seq<char>,
>;

/// What `to_string` gives for the `chrono::DateTime<FixedOffset>` with these
/// parts, or `None` where chrono has no such value.
pub uninterp spec fn rendering(secs: i64, nanos: u32, offset: i32) -> Option<Seq<char>>;

/// A result that carries a `String` as error, with the error by its text.
pub open spec fn by_text<T>(r: Result<T, String>) -> Result<T, Seq<char>> {
    match r {
        Ok(v) => Ok(v),
        Err(e) => Err(e@),
    }
}

/// Calls `chrono::DateTime::parse_from_rfc3339`. On success the value is
/// handed over as `timestamp()`, `timestamp_subsec_nanos()` and the offset's
/// `local_minus_utc()`; on failure as the error's message. Only that the
/// call is a function of the text is claimed.
#[verifier::external_body]
pub(crate) fn read_rfc3339(text: &str) -> (r: Result<(i64, u32, i32), String>)
    ensures
        by_text(r) == rfc3339_reading(text@),
{
    match chrono::DateTime::parse_from_rfc3339(text) {
        Ok(t) => Ok((t.timestamp(), t.timestamp_subsec_nanos(), t.offset().local_minus_utc())),
        Err(e) => Err(e.to_string()),
    }
}

/// Calls `chrono::DateTime::parse_from_rfc2822`, and hands the result over
/// as `read_rfc3339` does. Only that the call is a function of the text is
/// claimed.
#[verifier::external_body]
pub(crate) fn read_rfc2822(text: &str) -> (r: Result<(i64, u32, i32), String>)
    ensures
        by_text(r) == rfc2822_reading(text@),
{
    match chrono::DateTime::parse_from_rfc2822(text) {
        Ok(t) => Ok((t.timestamp(), t.timestamp_subsec_nanos(), t.offset().local_minus_utc())),
        Err(e) => Err(e.to_string()),
    }
}

/// Calls `chrono::NaiveDateTime::parse_from_str` and reads the date and time
/// as UTC. On success the value is handed over as `timestamp()` and
/// `timestamp_subsec_nanos()`; on failure as the error's message. Only that
/// the call is a function of the text and the pattern is claimed.
#[verifier::external_body]
pub(crate) fn read_naive(text: &str, pattern: &str) -> (r: Result<(i64, u32), String>)
    ensures
        by_text(r) == naive_reading(text@, pattern@),
{
    match chrono::NaiveDateTime::parse_from_str(text, pattern) {
        Ok(t) => Ok((t.and_utc().timestamp(), t.and_utc().timestamp_subsec_nanos())),
        Err(e) => Err(e.to_string()),
    }
}

/// Builds the `chrono::DateTime<FixedOffset>` with these parts, through
/// `FixedOffset::east_opt`, `DateTime::from_timestamp` and `with_timezone`,
/// and calls `to_string` on it. `None` where chrono refuses the offset or the
/// instant. Only that the call is a function of the three parts is claimed.
#[verifier::external_body]
pub(crate) fn render(secs: i64, nanos: u32, offset: i32) -> (r: Option<String>)
    ensures
        crate::text::text_of(r) == rendering(secs, nanos, offset),
{
    let zone = chrono::FixedOffset::east_opt(offset)?;
    let instant = chrono::DateTime::from_timestamp(secs, nanos)?;
    Some(instant.with_timezone(&zone).to_string())
}

} // verus!
