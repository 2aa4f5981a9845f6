//! Instants as plain values, and the two calendar operations taken from `chrono`.
use vstd::prelude::*;

verus! {

/// An instant, as whole seconds since 1970-01-01T00:00:00Z. Holding the
/// instant alone, with no UTC offset, makes every instant normalized to UTC.
#[derive(Debug, Clone, Copy, PartialEq, Eq, Structural)]
pub struct Timestamp {
    pub utc_seconds: i64,
}

/// The instant that a tracker timestamp (`2019-09-03T10:12:32.000-0500`)
/// denotes, in seconds since the epoch; `None` when the text does not match.
pub uninterp spec fn tracker_time(s: Seq<char>) -> Option<int>;

/// The UTC calendar text `YYYY-MM-DD HH:MM` of the instant `secs`; `None`
/// when the instant lies outside the calendar's range.
pub uninterp spec fn utc_minute_text(secs: int) -> Option<Seq<char>>;

/// The date and time format of the tracker's timestamps.
pub const TRACKER_TIME_FORMAT: &'static str = "%Y-%m-%dT%H:%M:%S%.f%z";

/// The start of the minute that holds the instant `secs`.
pub open spec fn minute_start(secs: int) -> int {
    secs - secs % 60
}

/// The format of the "since" bound in a filter expression: minute precision.
pub const MINUTE_FORMAT: &'static str = "%Y-%m-%d %H:%M";

/// Relies on `chrono::DateTime::parse_from_str` with a fixed format, then
/// `DateTime::timestamp`: a deterministic parse of the text alone.
#[verifier::external_body]
pub(crate) fn parse_tracker_time(s: &str) -> (r: Option<Timestamp>)
    ensures
        match r {
            Some(t) => tracker_time(s@) == Some(t.utc_seconds as int),
            None => tracker_time(s@) is None,
        },
{
    chrono::DateTime::parse_from_str(s, TRACKER_TIME_FORMAT).ok().map(
        |d| Timestamp { utc_seconds: d.timestamp() },
    )
}

/// Relies on `chrono::DateTime::<Utc>::from_timestamp` and `format`: the
/// instant is rendered in UTC, whatever offset it was read with, and the
/// text depends on the instant alone. The format stops at the minute, and the
/// calendar's range begins and ends on minute boundaries, so the result is
/// that of the minute's first second.
#[verifier::external_body]
pub(crate) fn format_utc_minute(t: Timestamp) -> (r: Option<String>)
    ensures
        match r {
            Some(s) => utc_minute_text(t.utc_seconds as int) == Some(s@) && utc_minute_text(
                minute_start(t.utc_seconds as int),
            ) == Some(s@),
            None => utc_minute_text(t.utc_seconds as int) is None && utc_minute_text(
                minute_start(t.utc_seconds as int),
            ) is None,
        },
{
    chrono::DateTime::from_timestamp(t.utc_seconds, 0).map(
        |d| d.format(MINUTE_FORMAT).to_string(),
    )
}

} // verus!
