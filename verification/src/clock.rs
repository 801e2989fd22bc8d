//! The wall clock, read in whole seconds since the Unix epoch.

use vstd::prelude::*;
use std::time::{Duration, SystemTime};

verus! {

/// A point in time of the system clock. Nothing of its inside is known here.
#[verifier::external_type_specification]
#[verifier::external_body]
pub struct ExSystemTime(SystemTime);

/// `std::time::SystemTime::now`: the current reading of the system clock.
/// Nothing is claimed of the reading; two calls may differ in either
/// direction.
#[verifier::external_body]
fn system_now() -> (now: SystemTime) {
    SystemTime::now()
}

/// `std::time::SystemTime::duration_since`, measured from
/// `std::time::UNIX_EPOCH`: the time elapsed since the epoch, or `None` for
/// a clock that stands before the epoch. Nothing is claimed of the value.
#[verifier::external_body]
fn since_epoch(time: &SystemTime) -> (elapsed: Option<Duration>) {
    time.duration_since(std::time::UNIX_EPOCH).ok()
}

/// `std::time::Duration::as_secs`: the whole seconds of a duration. Nothing
/// is claimed of the value.
#[verifier::external_body]
fn whole_seconds(elapsed: &Duration) -> (seconds: u64) {
    elapsed.as_secs()
}

/// The seconds to report for what the clock returned: the whole seconds
/// since the epoch, capped at the largest `i64`, and 0 for a clock that
/// stands before the epoch.
pub open spec fn seconds_of(elapsed: Option<u64>) -> i64 {
    match elapsed {
        Some(seconds) => if seconds > i64::MAX as u64 {
            i64::MAX
        } else {
            seconds as i64
        },
        None => 0,
    }
}

/// Turns the seconds the clock returned into a timestamp.
pub fn timestamp_from(elapsed: Option<u64>) -> (seconds: i64)
    ensures
        seconds == seconds_of(elapsed),
        seconds >= 0,
{
    match elapsed {
        Some(seconds) => if seconds > i64::MAX as u64 {
            i64::MAX
        } else {
            seconds as i64
        },
        None => 0,
    }
}

/// The current time in whole seconds since the Unix epoch. Whatever the
/// clock says, the result is not negative.
pub fn unix_seconds_now() -> (seconds: i64)
    ensures
        seconds >= 0,
{
    let now = system_now();
    let elapsed = match since_epoch(&now) {
        Some(duration) => Some(whole_seconds(&duration)),
        None => None,
    };
    timestamp_from(elapsed)
}

} // verus!
