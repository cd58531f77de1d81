use vstd::prelude::*;
use std::time::{Duration, SystemTime, SystemTimeError, UNIX_EPOCH};

verus! {

#[verifier::external_type_specification]
#[verifier::external_body]
pub struct ExSystemTime(SystemTime);

#[verifier::external_type_specification]
#[verifier::external_body]
pub struct ExSystemTimeError(SystemTimeError);

/// The current time of the system clock, by `SystemTime::now`. It depends
/// on the clock alone, so nothing is stated of it.
#[verifier::external_body]
fn system_now() -> SystemTime {
    SystemTime::now()
}

/// The time since the Unix epoch, by `SystemTime::duration_since` with
/// `UNIX_EPOCH`; an error when the clock reads earlier than the epoch.
/// Both depend on the clock, so nothing is stated of them.
#[verifier::external_body]
fn since_unix_epoch(t: SystemTime) -> Result<Duration, SystemTimeError> {
    t.duration_since(UNIX_EPOCH)
}

/// The whole milliseconds of a duration, by `Duration::as_millis`. A
/// `Duration` is opaque here, so nothing is stated of the result.
#[verifier::external_body]
fn whole_millis(d: Duration) -> u128 {
    d.as_millis()
}

/// The whole nanoseconds of a duration, by `Duration::as_nanos`. A
/// `Duration` is opaque here, so nothing is stated of the result.
#[verifier::external_body]
fn whole_nanos(d: Duration) -> u128 {
    d.as_nanos()
}

/// Milliseconds since the Unix epoch by the system clock, truncated to 64
/// bits; zero when the clock reads earlier than the epoch.
pub fn now_ms() -> u64 {
    match since_unix_epoch(system_now()) {
        Ok(elapsed) => whole_millis(elapsed) as u64,
        Err(_) => 0,
    }
}

/// Nanoseconds since the Unix epoch by the system clock; zero when the
/// clock reads earlier than the epoch.
pub fn now_unix_nanos() -> u128 {
    match since_unix_epoch(system_now()) {
        Ok(elapsed) => whole_nanos(elapsed),
        Err(_) => 0,
    }
}

} // verus!
