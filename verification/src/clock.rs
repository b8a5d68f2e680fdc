//! Time values as plain integers (nanoseconds since the Unix epoch, UTC) and
//! their RFC 3339 text form, through `chrono`.

use vstd::prelude::*;

verus! {

/// The time elapsed since the Unix epoch by the system clock, as whole
/// seconds and the nanoseconds past them (std `SystemTime::now`, then
/// `duration_since(UNIX_EPOCH)`, `as_secs` and `subsec_nanos`); `None` when
/// the clock reads before the epoch. Nothing is promised of the reading but
/// that the nanoseconds stay below one second, as `Duration` documents.
#[verifier::external_body]
fn since_epoch() -> (r: Option<(u64, u32)>)
    ensures
        r matches Some((_, n)) ==> n < 1_000_000_000,
{
    match std::time::SystemTime::now().duration_since(std::time::UNIX_EPOCH) {
        Ok(d) => Some((d.as_secs(), d.subsec_nanos())),
        Err(_) => None,
    }
}

/// The current time in nanoseconds since the Unix epoch, or `None` when the
/// clock reads before the epoch or past what an `i64` of nanoseconds holds
/// (the year 2262). Exactly the clock's reading, when there is one.
pub fn now_nanos() -> (r: Option<i64>)
    ensures
        r matches Some(t) ==> t >= 0,
{
    match since_epoch() {
        None => None,
        Some((secs, nanos)) => {
            if secs > 9_223_372_036 {
                None
            } else {
                let total: u64 = secs * 1_000_000_000 + nanos as u64;
                if total > 9_223_372_036_854_775_807u64 {
                    None
                } else {
                    Some(total as i64)
                }
            }
        },
    }
}

/// The RFC 3339 form that chrono gives an instant (`DateTime::<Utc>::to_rfc3339`).
pub uninterp spec fn rfc3339_of_nanos(ns: i64) -> Seq<char>;

/// Formats an instant as chrono's `DateTime::<Utc>::from_timestamp_nanos(ns).to_rfc3339()`,
/// e.g. `2026-05-31T00:00:00.123456789+00:00`. The contract names the text
/// and states that chrono's RFC 3339 parser reads it back as the same
/// instant (the fraction is written to the nanosecond, the offset as
/// `+00:00`).
#[verifier::external_body]
pub(crate) fn format_rfc3339(ns: i64) -> (r: String)
    ensures
        r@ == rfc3339_of_nanos(ns),
        rfc3339_nanos(r@) == Some(ns),
{
    chrono::DateTime::<chrono::Utc>::from_timestamp_nanos(ns).to_rfc3339()
}

/// The instant an RFC 3339 text denotes, in nanoseconds, as chrono parses it
/// (`DateTime::parse_from_rfc3339`, then `timestamp_nanos_opt`).
pub uninterp spec fn rfc3339_nanos(s: Seq<char>) -> Option<i64>;

/// Parses an RFC 3339 timestamp with chrono; `None` when chrono rejects the
/// text or the instant falls outside the nanosecond range.
#[verifier::external_body]
pub(crate) fn parse_rfc3339_nanos(s: &str) -> (r: Option<i64>)
    ensures
        r == rfc3339_nanos(s@),
{
    match chrono::DateTime::parse_from_rfc3339(s) {
        Ok(d) => d.timestamp_nanos_opt(),
        Err(_) => None,
    }
}

/// The instant an RFC 3339 text denotes, in milliseconds, as chrono parses it
/// (`DateTime::parse_from_rfc3339`, then `timestamp_millis`).
pub uninterp spec fn rfc3339_millis(s: Seq<char>) -> Option<i64>;

/// Parses an RFC 3339 timestamp with chrono into milliseconds since the epoch.
#[verifier::external_body]
pub(crate) fn parse_rfc3339_millis(s: &str) -> (r: Option<i64>)
    ensures
        r == rfc3339_millis(s@),
{
    match chrono::DateTime::parse_from_rfc3339(s) {
        Ok(d) => Some(d.timestamp_millis()),
        Err(_) => None,
    }
}

/// The timestamp text of a log entry for an instant: chrono's format
/// `%Y-%m-%dT%H:%M:%S%.3fZ` (UTC, milliseconds).
pub uninterp spec fn log_stamp_of(ns: i64) -> Seq<char>;

/// Formats an instant as a log entry timestamp, e.g.
/// `2026-06-01T10:32:00.123Z` (chrono `DateTime::format`).
#[verifier::external_body]
pub(crate) fn format_log_stamp(ns: i64) -> (r: String)
    ensures
        r@ == log_stamp_of(ns),
{
    chrono::DateTime::<chrono::Utc>::from_timestamp_nanos(ns).format("%Y-%m-%dT%H:%M:%S%.3fZ").to_string()
}

} // verus!
