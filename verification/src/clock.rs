//! The time stamps of conversations and messages: milliseconds since the
//! Unix epoch.

use vstd::prelude::*;

verus! {

/// `std::time::SystemTime`, carried through opaque.
#[verifier::external_type_specification]
#[verifier::external_body]
pub struct ExSystemTime(std::time::SystemTime);

/// `std::time::SystemTimeError`, carried through opaque.
#[verifier::external_type_specification]
#[verifier::external_body]
pub struct ExSystemTimeError(std::time::SystemTimeError);

/// Calls `SystemTime::now`. What the clock reads is not stated.
#[verifier::external_body]
fn system_now() -> std::time::SystemTime {
    std::time::SystemTime::now()
}

/// Calls `SystemTime::duration_since(UNIX_EPOCH)`: an error where the clock
/// reads earlier than the epoch. Nothing is stated of the result, which
/// depends on the clock's reading.
#[verifier::external_body]
fn since_unix_epoch(t: &std::time::SystemTime) -> std::result::Result<std::time::Duration, std::time::SystemTimeError> {
    t.duration_since(std::time::UNIX_EPOCH)
}

/// Calls `Duration::as_millis`. The duration is opaque here, so nothing is
/// stated of the result.
#[verifier::external_body]
fn duration_millis(d: &std::time::Duration) -> u128 {
    d.as_millis()
}

/// The time stamp for the milliseconds elapsed since the epoch: their count
/// cut to an `i64` (`as i64`), or 0 where the clock was before the epoch.
pub open spec fn millis_stamp(elapsed: Option<u128>) -> i64 {
    match elapsed {
        Some(m) => m as i64,
        None => 0,
    }
}

/// Turns the milliseconds elapsed since the epoch, if any, into a time stamp.
pub fn epoch_millis_to_i64(elapsed: Option<u128>) -> (r: i64)
    ensures
        r == millis_stamp(elapsed),
{
    match elapsed {
        Some(m) => m as i64,
        None => 0,
    }
}

/// The time stamp of now: [`epoch_millis_to_i64`] of the milliseconds the
/// clock reads since the epoch. Nothing is promised of the value, which is
/// the clock's.
pub fn now_ms() -> i64 {
    let now = system_now();
    let elapsed = match since_unix_epoch(&now) {
        Ok(d) => Some(duration_millis(&d)),
        Err(_) => None,
    };
    epoch_millis_to_i64(elapsed)
}

} // verus!
