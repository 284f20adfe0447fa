//! The wall clock, read through `std::time::SystemTime`.
use std::time::{Duration, SystemTime, SystemTimeError};
use vstd::prelude::*;

verus! {

#[verifier::external_type_specification]
#[verifier::external_body]
pub struct ExSystemTime(SystemTime);

#[verifier::external_type_specification]
#[verifier::external_body]
pub struct ExSystemTimeError(SystemTimeError);

/// Trusted: `SystemTime::now` reads the system clock. Nothing is stated of
/// the instant it returns, which depends on when it is called.
#[verifier::external_body]
fn system_time_now() -> SystemTime {
    SystemTime::now()
}

/// Trusted: `SystemTime::duration_since(UNIX_EPOCH)`, the time elapsed
/// since the Unix epoch, or an error when `t` lies before it. Nothing is
/// stated of the duration: the instant `t` is opaque here.
#[verifier::external_body]
fn duration_since_unix_epoch(t: &SystemTime) -> Result<Duration, SystemTimeError> {
    t.duration_since(std::time::UNIX_EPOCH)
}

/// Trusted: `Duration::as_millis`, the whole milliseconds of `d`. Nothing
/// is stated of the value: the duration is opaque here.
#[verifier::external_body]
fn duration_as_millis(d: &Duration) -> u128 {
    d.as_millis()
}

/// Milliseconds since the Unix epoch on the system clock; 0 when the clock
/// reads a time before the epoch, the largest `u64` if it reads one past
/// what a `u64` of milliseconds holds.
pub fn unix_time_millis() -> u64 {
    match duration_since_unix_epoch(&system_time_now()) {
        Ok(d) => {
            let ms = duration_as_millis(&d);
            if ms > u64::MAX as u128 {
                u64::MAX
            } else {
                ms as u64
            }
        },
        Err(_) => 0,
    }
}

} // verus!
