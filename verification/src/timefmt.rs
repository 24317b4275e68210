//! Timestamp rendering and parsing for the log sinks, through the chrono
//! calendar arithmetic.  Each rendering is a pure function of the
//! millisecond value alone, named but not re-stated here.

use vstd::prelude::*;

verus! {

/// The detailed-log rendering of a timestamp: date, time and milliseconds.
pub uninterp spec fn ts_row_text(ms: u64) -> Seq<char>;

/// The summary-log rendering of a timestamp: hours, minutes and seconds.
pub uninterp spec fn ts_hms_text(ms: u64) -> Seq<char>;

/// The header rendering of a timestamp: date and time with a zone mark.
pub uninterp spec fn ts_started_text(ms: u64) -> Seq<char>;

/// What parsing a detailed-log timestamp field yields.
pub uninterp spec fn ts_parse_of(s: Seq<u8>) -> Option<u64>;

/// Relies on chrono's `DateTime::<Utc>::from_timestamp_millis` and
/// `format`: renders the detailed-log timestamp column, a function of the
/// millisecond value alone.
#[verifier::external_body]
pub(crate) fn format_ts_row(ms: u64) -> (r: String)
    ensures
        r@ == ts_row_text(ms),
{
    if ms > i64::MAX as u64 {
        return String::new();
    }
    match chrono::DateTime::<chrono::Utc>::from_timestamp_millis(ms as i64) {
        Some(dt) => dt.format("%Y-%m-%d %H:%M:%S%.3f").to_string(),
        None => String::new(),
    }
}

/// Relies on chrono's `DateTime::<Utc>::from_timestamp_millis` and
/// `format`: renders the summary-log time-of-day column, a function of the
/// millisecond value alone.
#[verifier::external_body]
pub(crate) fn format_ts_hms(ms: u64) -> (r: String)
    ensures
        r@ == ts_hms_text(ms),
{
    if ms > i64::MAX as u64 {
        return String::new();
    }
    match chrono::DateTime::<chrono::Utc>::from_timestamp_millis(ms as i64) {
        Some(dt) => dt.format("%H:%M:%S").to_string(),
        None => String::new(),
    }
}

/// Relies on chrono's `DateTime::<Utc>::from_timestamp_millis` and
/// `format`: renders the summary-log header timestamp, a function of the
/// millisecond value alone.
#[verifier::external_body]
pub(crate) fn format_ts_started(ms: u64) -> (r: String)
    ensures
        r@ == ts_started_text(ms),
{
    if ms > i64::MAX as u64 {
        return String::new();
    }
    match chrono::DateTime::<chrono::Utc>::from_timestamp_millis(ms as i64) {
        Some(dt) => dt.format("%Y-%m-%d %H:%M:%S UTC").to_string(),
        None => String::new(),
    }
}

/// Relies on chrono's `DateTime::parse_from_str`: reads a detailed-log
/// timestamp field back as milliseconds, a function of the field alone;
/// a field that does not parse, or parses to a time before 1970, yields
/// nothing.
#[verifier::external_body]
pub(crate) fn parse_ts_row(field: &[u8]) -> (r: Option<u64>)
    ensures
        r == ts_parse_of(field@),
{
    let text = std::str::from_utf8(field).ok()?;
    let with_zone = format!("{} +0000", text);
    let dt = chrono::DateTime::parse_from_str(&with_zone, "%Y-%m-%d %H:%M:%S%.3f %z").ok()?;
    u64::try_from(dt.timestamp_millis()).ok()
}

} // verus!
