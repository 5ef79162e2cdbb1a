//! Reading the system clock.
use std::time::Duration;
use std::time::SystemTime;
use std::time::SystemTimeError;
use std::time::UNIX_EPOCH;
use vstd::prelude::*;

verus! {

/// `std::time::SystemTime`, carried through without being looked into.
#[verifier::external_type_specification]
#[verifier::external_body]
pub struct ExSystemTime(SystemTime);

/// `std::time::SystemTimeError`, carried through without being looked into.
#[verifier::external_type_specification]
#[verifier::external_body]
pub struct ExSystemTimeError(SystemTimeError);

/// Trusted: `SystemTime::now`. Nothing is stated of the reading, which
/// depends on the machine's clock.
#[verifier::external_body]
fn system_time_now() -> SystemTime {
    SystemTime::now()
}

/// Trusted: `SystemTime::duration_since(UNIX_EPOCH)`. It fails when the
/// reading lies before the epoch; nothing is stated of which case comes, nor
/// of the duration, which depends on the reading.
#[verifier::external_body]
fn elapsed_since_epoch(t: &SystemTime) -> Result<Duration, SystemTimeError> {
    t.duration_since(UNIX_EPOCH)
}

/// Trusted: `Duration::as_secs`, the whole seconds of a duration. A duration
/// is opaque here, so nothing is stated of the number.
#[verifier::external_body]
fn whole_seconds(d: &Duration) -> u64 {
    d.as_secs()
}

/// Trusted: `Duration::as_nanos`, the whole nanoseconds of a duration. A
/// duration is opaque here, so nothing is stated of the number.
#[verifier::external_body]
fn whole_nanoseconds(d: &Duration) -> u128 {
    d.as_nanos()
}

/// Trusted: the `Display` text of a `SystemTimeError` (through `format!`).
/// Nothing is stated of the text.
#[verifier::external_body]
fn time_error_text(e: &SystemTimeError) -> String {
    format!("{}", e)
}

/// Whole seconds elapsed since the Unix epoch, or the clock's error text when
/// the clock reads a time before the epoch. The value depends on the clock:
/// no contract can state it.
pub fn seconds_since_epoch() -> Result<u64, String> {
    let now = system_time_now();
    match elapsed_since_epoch(&now) {
        Ok(d) => Ok(whole_seconds(&d)),
        Err(e) => Err(time_error_text(&e)),
    }
}

/// Whole nanoseconds elapsed since the Unix epoch, or the clock's error text
/// when the clock reads a time before the epoch.
pub fn nanoseconds_since_epoch() -> Result<u128, String> {
    let now = system_time_now();
    match elapsed_since_epoch(&now) {
        Ok(d) => Ok(whole_nanoseconds(&d)),
        Err(e) => Err(time_error_text(&e)),
    }
}

} // verus!
