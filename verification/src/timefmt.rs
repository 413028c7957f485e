//! Decoding of the fixed EVE timestamp format: an ISO-8601-like local
//! date-time with microsecond fraction and numeric UTC offset, turned
//! into microseconds since the epoch.
use vstd::prelude::*;

verus! {

/// The microseconds-since-epoch value that the fixed EVE timestamp format
/// assigns to `s`, or nothing when `s` does not match the format. The
/// value depends on the characters of `s` alone.
pub uninterp spec fn eve_timestamp_of(s: Seq<char>) -> Option<i64>;

/// Relies on chrono's `DateTime::parse_from_str` with the fixed format
/// `%Y-%m-%dT%H:%M:%S%.6f%z`, and on `DateTime::timestamp_micros`; both
/// compute from the characters of `s` alone. chrono caps the parsed year
/// at +/-262143, so the microsecond count never leaves the 64-bit range
/// and `timestamp_micros` cannot overflow.
#[verifier::external_body]
pub(crate) fn parse_eve_timestamp(s: &str) -> (r: Option<i64>)
    ensures
        r == eve_timestamp_of(s@),
{
    match chrono::DateTime::parse_from_str(s, "%Y-%m-%dT%H:%M:%S%.6f%z") {
        Ok(dt) => Some(dt.timestamp_micros()),
        Err(_) => None,
    }
}

} // verus!
