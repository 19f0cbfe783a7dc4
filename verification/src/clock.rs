//! The time now.

use std::time::{Duration, SystemTime, SystemTimeError};

use vstd::prelude::*;

verus! {

#[verifier::external_type_specification]
#[verifier::external_body]
pub struct ExSystemTime(SystemTime);

#[verifier::external_type_specification]
#[verifier::external_body]
pub struct ExSystemTimeError(SystemTimeError);

/// `SystemTime::now`: what the machine's clock says. Nothing is claimed of it.
pub assume_specification[ SystemTime::now ]() -> (now: SystemTime)
;

/// `SystemTime::duration_since` from the beginning of 1970: how long ago that
/// was, or an error where the clock stands before it. Nothing is claimed of the
/// length, which rests on the clock.
#[verifier::external_body]
fn since_epoch(now: &SystemTime) -> (elapsed: Result<Duration, SystemTimeError>) {
    now.duration_since(std::time::UNIX_EPOCH)
}

/// `Duration::as_millis`: the whole milliseconds of a duration. Nothing is
/// claimed of their number, as durations are opaque here.
pub assume_specification[ Duration::as_millis ](duration: &Duration) -> (millis: u128)
;

/// Milliseconds since the beginning of 1970 from what the clock says; zero where
/// it stands before that.
pub open spec fn timestamp_of(elapsed: Option<u128>) -> i64 {
    match elapsed {
        Some(millis) => millis as i64,
        None => 0,
    }
}

/// Milliseconds since the beginning of 1970 from what the clock says.
pub fn timestamp(elapsed: Option<u128>) -> (at_ms: i64)
    ensures
        at_ms == timestamp_of(elapsed),
        elapsed matches Some(millis) ==> millis <= i64::MAX ==> at_ms == millis,
{
    match elapsed {
        Some(millis) => #[verifier::truncate]
        (millis as i64),
        None => 0,
    }
}

/// Whether `at_ms` is what a reading of the machine's clock comes to: the whole
/// milliseconds from the beginning of 1970 to a time that the clock can show, or
/// zero where that time lies before it.
pub closed spec fn is_reading(at_ms: i64) -> bool {
    exists|now: SystemTime, elapsed: Result<Duration, SystemTimeError>|
        {
            &&& #[trigger] call_ensures(SystemTime::now, (), now)
            &&& #[trigger] call_ensures(since_epoch, (&now,), elapsed)
            &&& match elapsed {
                Ok(elapsed) => exists|millis: u128| #[trigger]
                    call_ensures(Duration::as_millis, (&elapsed,), millis) && at_ms == timestamp_of(Some(millis)),
                Err(_) => at_ms == timestamp_of(None),
            }
        }
}

/// Milliseconds since the beginning of 1970, by the machine's clock: zero where
/// the clock stands before that. Which time it is rests on the clock.
pub fn now_ms() -> (at_ms: i64)
    ensures
        is_reading(at_ms),
{
    let now = SystemTime::now();
    let elapsed = since_epoch(&now);
    match elapsed {
        Ok(elapsed) => timestamp(Some(elapsed.as_millis())),
        Err(_) => timestamp(None),
    }
}

} // verus!
