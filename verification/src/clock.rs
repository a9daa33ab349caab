//! The wall clock that stamps new blocks.

use vstd::prelude::*;

verus! {

/// Reads the system clock with `std::time::SystemTime::now`, turns the
/// reading into a `chrono::DateTime<Utc>` through chrono's `From<SystemTime>`
/// and returns its `timestamp`, the whole seconds since
/// 1970-01-01T00:00:00Z; the count is negative for a clock set before 1970.
///
/// Trusted, and nothing is claimed of the value: the system clock decides
/// it. The conversion handles readings on both sides of 1970 and gives up
/// only on a reading outside the years that chrono can hold, some 262,000
/// years either way.
#[verifier::external_body]
pub(crate) fn unix_seconds_now() -> i64 {
    chrono::DateTime::<chrono::Utc>::from(std::time::SystemTime::now()).timestamp()
}

/// The current time as a block timestamp. Whatever the clock says, the
/// result is what [`timestamp_from_unix_seconds`] returns for that reading:
/// a clock set before 1970 stamps zero.
pub(crate) fn current_timestamp() -> (timestamp: u64)
    ensures
        exists|seconds: i64| timestamp == timestamp_of(seconds),
{
    let seconds = unix_seconds_now();
    let timestamp = timestamp_from_unix_seconds(seconds);
    assert(timestamp == timestamp_of(seconds));
    timestamp
}

/// The block timestamp for a count of seconds since 1970: the count itself,
/// or zero for a time before 1970.
pub open spec fn timestamp_of(seconds: i64) -> u64 {
    if seconds < 0 {
        0
    } else {
        seconds as u64
    }
}

/// The block timestamp for a count of seconds since 1970. A time before
/// 1970 counts as zero.
pub fn timestamp_from_unix_seconds(seconds: i64) -> (timestamp: u64)
    ensures
        timestamp == timestamp_of(seconds),
{
    if seconds < 0 {
        0
    } else {
        seconds as u64
    }
}

} // verus!
