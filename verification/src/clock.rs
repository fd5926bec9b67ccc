//! The wall clock, read as milliseconds since the Unix epoch.

use vstd::prelude::*;
use std::time::{Duration, SystemTime, SystemTimeError};

verus! {

/// `std::time::SystemTime`, a reading of the system clock; opaque here.
#[verifier::external_type_specification]
#[verifier::external_body]
pub struct ExSystemTime(SystemTime);

/// `std::time::SystemTimeError`, the error of a reading that lies before the
/// instant it is measured from; opaque here.
#[verifier::external_type_specification]
#[verifier::external_body]
pub struct ExSystemTimeError(SystemTimeError);

/// The number of whole milliseconds in a duration, as
/// `std::time::Duration::as_millis` counts them.
pub uninterp spec fn millis_of(elapsed: Duration) -> u128;

/// Calls `std::time::SystemTime::now`. Trusted: it returns; nothing is
/// claimed of the reading.
#[verifier::external_body]
fn system_now() -> SystemTime {
    SystemTime::now()
}

/// Calls `std::time::SystemTime::duration_since` with `std::time::UNIX_EPOCH`
/// as the earlier instant. Trusted: it returns; nothing is claimed of which
/// case comes back, nor of the duration.
#[verifier::external_body]
fn since_unix_epoch(reading: &SystemTime) -> Result<Duration, SystemTimeError> {
    reading.duration_since(std::time::UNIX_EPOCH)
}

/// Calls `std::time::Duration::as_millis`. Trusted: the result is the number
/// of whole milliseconds in `elapsed`, a function of the duration alone.
#[verifier::external_body]
fn whole_millis(elapsed: &Duration) -> (millis: u128)
    ensures
        millis == millis_of(*elapsed),
{
    elapsed.as_millis()
}

/// The system clock's reading in milliseconds since the Unix epoch, or `None`
/// where the clock stands before the epoch. Two readings may differ in any
/// way, so nothing is stated of the number.
pub fn now_millis() -> Option<u128> {
    let reading = system_now();
    let elapsed = since_unix_epoch(&reading);
    // Which of the two cases comes back is the clock's to decide; what is
    // made of each is stated by `elapsed_millis`.
    elapsed_millis(elapsed)
}

/// What a measurement from the Unix epoch gives as a timestamp: the whole
/// milliseconds of the elapsed time where there is one, and `None` where the
/// measured instant lay before the epoch.
pub fn elapsed_millis(elapsed: Result<Duration, SystemTimeError>) -> (millis: Option<u128>)
    ensures
        match elapsed {
            Ok(time) => millis == Some(millis_of(time)),
            Err(_) => millis is None,
        },
{
    match elapsed {
        Ok(elapsed) => Some(whole_millis(&elapsed)),
        Err(_) => None,
    }
}

} // verus!
