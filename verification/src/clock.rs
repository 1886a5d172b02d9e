//! The wall clock, in whole seconds since the Unix epoch.

use std::time::Duration;
use std::time::SystemTime;
use std::time::SystemTimeError;
use vstd::prelude::*;

verus! {

/// Trusted: the type `std::time::SystemTime`, an instant of the clock.
#[verifier::external_type_specification]
#[verifier::external_body]
pub struct ExSystemTime(SystemTime);

/// Trusted: the type `std::time::SystemTimeError`, which says that one
/// instant was not after another.
#[verifier::external_type_specification]
#[verifier::external_body]
pub struct ExSystemTimeError(SystemTimeError);

/// Trusted: `SystemTime::now`. Nothing is claimed of the instant it returns.
pub assume_specification[ SystemTime::now ]() -> SystemTime;

/// Trusted: `SystemTime::duration_since`. Nothing is claimed of the
/// result; it is an error where `earlier` is the later of the two.
pub assume_specification[ SystemTime::duration_since ](
    this: &SystemTime,
    earlier: SystemTime,
) -> Result<Duration, SystemTimeError>;

/// Trusted: `Duration::as_secs`. Nothing is claimed of the number it returns.
pub assume_specification[ Duration::as_secs ](this: &Duration) -> u64;

/// Trusted: the constant `SystemTime::UNIX_EPOCH`.
#[verifier::external_body]
fn unix_epoch() -> SystemTime {
    SystemTime::UNIX_EPOCH
}

/// Reads the clock; of the instant it shows nothing is promised, see [`reading`].
pub fn unix_now() -> u64 {
    let elapsed = match SystemTime::now().duration_since(unix_epoch()) {
        Ok(elapsed) => Some(elapsed.as_secs()),
        Err(_) => None,
    };
    reading(elapsed)
}

/// What the clock reads, given the whole seconds by which it stands
/// after the epoch, or nothing where it stands before: 0 then.
pub open spec fn reading_of(elapsed: Option<u64>) -> u64 {
    match elapsed {
        Some(seconds) => seconds,
        None => 0,
    }
}

/// Turns the time elapsed since the epoch into a reading of the clock.
pub fn reading(elapsed: Option<u64>) -> (seconds: u64)
    ensures
        seconds == reading_of(elapsed),
{
    match elapsed {
        Some(seconds) => seconds,
        None => 0,
    }
}

} // verus!
