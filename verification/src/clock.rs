//! The wall clock as whole seconds since the Unix epoch, which every time
//! field of a job record holds.
use std::time::{Duration, SystemTime, SystemTimeError};
use vstd::prelude::*;

verus! {

#[verifier::external_type_specification]
#[verifier::external_body]
pub struct ExSystemTime(SystemTime);

#[verifier::external_type_specification]
#[verifier::external_body]
pub struct ExSystemTimeError(SystemTimeError);

/// The current time.
///
/// Trusted: calls `SystemTime::now`. Its result depends on the machine's
/// clock, so nothing is claimed of it.
#[verifier::external_body]
fn clock_now() -> SystemTime {
    SystemTime::now()
}

/// How long after the Unix epoch `t` lies.
///
/// Trusted: calls `SystemTime::duration_since` with `UNIX_EPOCH`, which fails
/// for a time before the epoch. Nothing is claimed of the result: both the
/// time and the duration are opaque here.
#[verifier::external_body]
fn since_epoch(t: &SystemTime) -> Result<Duration, SystemTimeError> {
    t.duration_since(std::time::UNIX_EPOCH)
}

/// The whole seconds of a duration.
///
/// Trusted: calls `Duration::as_secs`. Nothing is claimed of the result, the
/// duration being opaque here.
#[verifier::external_body]
fn whole_seconds(d: &Duration) -> u64 {
    d.as_secs()
}

/// The time field for a clock reading: the whole seconds since the epoch, or
/// 0 for a clock set before the epoch (`None`).
pub fn seconds_or_zero(elapsed: Option<u64>) -> (secs: u64)
    ensures
        secs == match elapsed {
            Some(s) => s,
            None => 0,
        },
{
    match elapsed {
        Some(s) => s,
        None => 0,
    }
}

/// The current time in whole seconds since the Unix epoch; 0 when the clock
/// is set before the epoch. The reading itself is the machine's: no contract
/// fixes it.
pub fn now_secs() -> u64 {
    let elapsed = match since_epoch(&clock_now()) {
        Ok(d) => Some(whole_seconds(&d)),
        Err(_) => None,
    };
    seconds_or_zero(elapsed)
}

} // verus!
