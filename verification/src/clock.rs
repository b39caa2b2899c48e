//! The wall clock, which the standard library reads. Nothing can be said of what it shows.

use crate::codec::signed64;
use vstd::prelude::*;

verus! {

/// `std::time::SystemTime`: a reading of the wall clock.
#[verifier::external_type_specification]
#[verifier::external_body]
pub struct ExSystemTime(std::time::SystemTime);

/// Calls `SystemTime::now`. Nothing is claimed of the time it returns.
#[verifier::external_body]
pub(crate) fn system_time() -> std::time::SystemTime {
    std::time::SystemTime::now()
}

/// Calls `SystemTime::duration_since` with the Unix epoch, which fails for a time before it.
/// Nothing is claimed of the duration.
#[verifier::external_body]
pub(crate) fn since_epoch(time: &std::time::SystemTime) -> Option<core::time::Duration> {
    time.duration_since(std::time::UNIX_EPOCH).ok()
}

/// Calls `Duration::as_millis`. Nothing is claimed of the number.
#[verifier::external_body]
pub(crate) fn whole_millis(duration: &core::time::Duration) -> u128 {
    duration.as_millis()
}

/// A count of milliseconds cut to its low 64 bits and read with a sign: itself, where it
/// is less than 2^63.
pub fn millis_as_i64(millis: u128) -> (n: i64)
    ensures
        n == signed64((millis % 0x1_0000_0000_0000_0000) as nat),
        millis < 0x8000_0000_0000_0000 ==> n == millis,
{
    let low: u128 = millis % 0x1_0000_0000_0000_0000u128;
    if low < 0x8000_0000_0000_0000u128 {
        low as i64
    } else {
        ((low - 0x8000_0000_0000_0000u128) as i64) + i64::MIN
    }
}

/// The time in milliseconds since the Unix epoch, cut to 64 bits; none where the clock
/// stands before the epoch. What the clock shows is not known before it is read, so nothing
/// is promised of the time.
pub(crate) fn now_ms() -> (now: Option<i64>) {
    let time = system_time();
    match since_epoch(&time) {
        Some(d) => Some(millis_as_i64(whole_millis(&d))),
        None => None,
    }
}

} // verus!
