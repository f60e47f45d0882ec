//! The system clock, read in seconds since 1970-01-01T00:00:00 UTC.
use std::time::{Duration, SystemTime, SystemTimeError};
use vstd::prelude::*;

verus! {

/// `std::time::SystemTime`, a reading of the system clock. Nothing is known
/// of what a value holds.
#[verifier::external_type_specification]
#[verifier::external_body]
pub struct ExSystemTime(std::time::SystemTime);

/// `std::time::SystemTimeError`, what `SystemTime::duration_since` reports
/// when the second reading is the later one.
#[verifier::external_type_specification]
#[verifier::external_body]
pub struct ExSystemTimeError(std::time::SystemTimeError);

/// The whole seconds in a `Duration`, as `Duration::as_secs` returns them.
pub uninterp spec fn duration_secs(duration: Duration) -> u64;

/// `SystemTime::now` reads the system clock. The reading depends on the moment
/// of the call, so nothing is claimed of it.
pub assume_specification[ SystemTime::now ]() -> (reading: SystemTime)
;

/// `SystemTime::duration_since` measures the time from `earlier` to `this`, or
/// reports that `earlier` is the later of the two. Which of the two it does is
/// left open.
pub assume_specification[ SystemTime::duration_since ](
    this: &SystemTime,
    earlier: SystemTime,
) -> (elapsed: Result<Duration, SystemTimeError>)
;

/// `Duration::as_secs` returns the whole seconds that the duration holds, and
/// the same number for the same duration.
pub assume_specification[ Duration::as_secs ](duration: &Duration) -> (secs: u64)
    ensures
        secs == duration_secs(*duration),
;

/// `std::time::UNIX_EPOCH`, the clock reading that stands for
/// 1970-01-01T00:00:00 UTC.
#[verifier::external_body]
pub(crate) fn unix_epoch() -> (epoch: SystemTime) {
    std::time::UNIX_EPOCH
}

/// Seconds since 1970-01-01T00:00:00 UTC on the system clock; 0 where the
/// clock is set to a time before that.
pub(crate) fn epoch_seconds_now() -> (secs: u64)
    ensures
        exists|elapsed: Result<Duration, SystemTimeError>| secs == #[trigger] seconds_of(elapsed),
{
    let reading = SystemTime::now();
    let elapsed = reading.duration_since(unix_epoch());
    let secs = whole_seconds(&elapsed);
    assert(secs == seconds_of(elapsed));
    secs
}

/// The count of seconds that a measurement from 1970-01-01T00:00:00 UTC to a
/// clock reading stands for: the whole seconds measured, and 0 where the
/// reading turned out to be the earlier of the two.
pub open spec fn seconds_of(elapsed: Result<Duration, SystemTimeError>) -> u64 {
    match elapsed {
        Ok(measured) => duration_secs(measured),
        Err(_) => 0,
    }
}

/// The count of seconds that the measurement `elapsed` stands for.
pub(crate) fn whole_seconds(elapsed: &Result<Duration, SystemTimeError>) -> (secs: u64)
    ensures
        secs == seconds_of(*elapsed),
{
    match elapsed {
        Ok(measured) => measured.as_secs(),
        Err(_) => 0,
    }
}

} // verus!
