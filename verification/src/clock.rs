//! The system clock, read as milliseconds since the epoch.
use vstd::prelude::*;
use std::time::{Duration, SystemTime, SystemTimeError, UNIX_EPOCH};

verus! {

/// Declares `std::time::SystemTime`, an instant of the system clock, as a
/// type whose values are carried through and never looked into.
#[verifier::external_type_specification]
#[verifier::external_body]
pub struct ExSystemTime(SystemTime);

/// Declares `std::time::SystemTimeError`, the error of an instant that
/// lies before the one it is measured from, in the same way.
#[verifier::external_type_specification]
#[verifier::external_body]
pub struct ExSystemTimeError(SystemTimeError);

/// Calls `SystemTime::now`. Nothing is claimed of the instant that it
/// returns.
#[verifier::external_body]
fn system_now() -> (now: SystemTime) {
    SystemTime::now()
}

/// Calls `SystemTime::duration_since` with `UNIX_EPOCH`: the time elapsed
/// since the epoch, or an error where the instant lies before the epoch.
/// Nothing is claimed of which it is, nor of the duration.
#[verifier::external_body]
fn since_epoch(now: &SystemTime) -> (elapsed: Result<Duration, SystemTimeError>) {
    now.duration_since(UNIX_EPOCH)
}

/// Calls `Duration::as_millis`: the whole milliseconds of a duration.
/// Nothing is claimed of their number.
#[verifier::external_body]
fn whole_milliseconds(elapsed: &Duration) -> (millis: u128) {
    elapsed.as_millis()
}

/// A count of milliseconds as an instant takes it: itself, or the largest
/// `isize` where it is larger than that.
pub open spec fn bounded_millis(millis: int) -> int {
    if millis > isize::MAX {
        isize::MAX as int
    } else {
        millis
    }
}

/// Brings a count of milliseconds into the range of an instant.
pub fn instant_of(millis: u128) -> (instant: isize)
    ensures
        instant == bounded_millis(millis as int),
        instant >= 0,
{
    if millis > isize::MAX as u128 {
        isize::MAX
    } else {
        millis as isize
    }
}

/// The milliseconds between the epoch and the present instant, as the
/// system clock has it. A clock that stands before the epoch gives the
/// epoch itself.
pub fn epoch_milliseconds() -> (millis: isize)
    ensures
        millis >= 0,
{
    let now: SystemTime = system_now();
    let reading: Option<u128> = match since_epoch(&now) {
        Ok(elapsed) => Some(whole_milliseconds(&elapsed)),
        Err(_) => None,
    };
    instant_of_reading(reading)
}

/// The instant that a reading of the clock stands for. The reading is the
/// count of milliseconds since the epoch, or nothing where the clock
/// stands before the epoch: that counts as the epoch itself.
pub open spec fn instant_read(reading: Option<u128>) -> int {
    match reading {
        Some(millis) => bounded_millis(millis as int),
        None => 0,
    }
}

/// Turns a reading of the clock into an instant, for every reading that
/// the clock can give.
pub fn instant_of_reading(reading: Option<u128>) -> (instant: isize)
    ensures
        instant == instant_read(reading),
        instant >= 0,
{
    match reading {
        Some(millis) => instant_of(millis),
        None => 0,
    }
}

} // verus!
