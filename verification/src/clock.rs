//! The wall clock, from which new transactions and blocks take their
//! timestamps.

use std::time::Duration;
use std::time::SystemTime;
use std::time::SystemTimeError;
use std::time::UNIX_EPOCH;
use vstd::prelude::*;

verus! {

/// `std::time::SystemTime`, a point in time that only the standard library
/// can read.
#[verifier::external_type_specification]
#[verifier::external_body]
pub struct ExSystemTime(SystemTime);

/// `std::time::SystemTimeError`, returned when a time lies before the one
/// it is measured from.
#[verifier::external_type_specification]
#[verifier::external_body]
pub struct ExSystemTimeError(SystemTimeError);

/// `SystemTime::now` returns the current time. Nothing is claimed of it.
pub assume_specification[ SystemTime::now ]() -> (now: SystemTime);

/// `SystemTime::duration_since` measures from `earlier` to `time`, or fails
/// when `earlier` is the later of the two. Nothing is claimed of the result.
pub assume_specification[ SystemTime::duration_since ](
    time: &SystemTime,
    earlier: SystemTime,
) -> (elapsed: Result<Duration, SystemTimeError>);

/// `Duration::as_secs` returns the whole seconds of a duration. Nothing is
/// claimed of the result.
pub assume_specification[ Duration::as_secs ](duration: &Duration) -> (seconds: u64);

/// Hands out the constant `std::time::UNIX_EPOCH`, the start of 1970 in
/// UTC. Nothing is claimed of it.
#[verifier::external_body]
fn unix_epoch() -> SystemTime {
    UNIX_EPOCH
}

/// Seconds since the Unix epoch by the system clock; zero if the clock
/// stands before the epoch.
pub(crate) fn unix_time() -> u64 {
    match SystemTime::now().duration_since(unix_epoch()) {
        Ok(elapsed) => elapsed.as_secs(),
        Err(_) => 0,
    }
}

} // verus!
