//! The wall clock.

use vstd::prelude::*;

verus! {

/// Calls `chrono::Utc::now` and gives its milliseconds since the Unix epoch.
/// Nothing is claimed of the time.
#[verifier::external_body]
pub(crate) fn utc_millis() -> (ms: i64) {
    chrono::Utc::now().timestamp_millis()
}

/// The time now, in milliseconds since the Unix epoch: what `epoch_millis`
/// makes of the clock, whatever the clock reads.
pub(crate) fn now_millis() -> (ms: u64)
    ensures
        ms <= i64::MAX,
        exists|reading: i64| ms == #[trigger] time_of(reading),
{
    let reading: i64 = utc_millis();
    epoch_millis(reading)
}

/// The time that a reading of the clock stands for: a clock set to before the
/// Unix epoch reads as the epoch.
pub open spec fn time_of(reading: i64) -> int {
    if reading < 0 {
        0
    } else {
        reading as int
    }
}

/// A reading of the clock as milliseconds since the Unix epoch.
pub fn epoch_millis(reading: i64) -> (ms: u64)
    ensures
        ms == time_of(reading),
{
    if reading < 0 {
        0
    } else {
        reading as u64
    }
}

} // verus!
