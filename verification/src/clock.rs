use vstd::prelude::*;
use std::time::{Duration, SystemTime, UNIX_EPOCH};

verus! {

#[verifier::external_type_specification]
#[verifier::external_body]
pub struct ExSystemTime(SystemTime);

/// The duration of a whole number of seconds.
pub uninterp spec fn duration_of_secs(secs: u64) -> Duration;

/// The duration of a whole number of milliseconds.
pub uninterp spec fn duration_of_millis(millis: u64) -> Duration;

/// `Duration::from_secs`.
#[verifier::external_body]
pub fn duration_from_secs(secs: u64) -> (d: Duration)
    ensures
        d == duration_of_secs(secs),
{
    Duration::from_secs(secs)
}

/// `Duration::from_millis`.
#[verifier::external_body]
pub fn duration_from_millis(millis: u64) -> (d: Duration)
    ensures
        d == duration_of_millis(millis),
{
    Duration::from_millis(millis)
}

/// `SystemTime::now`: the current time of the system clock; nothing is known of it.
#[verifier::external_body]
pub fn system_now() -> SystemTime {
    SystemTime::now()
}

/// The seconds from the Unix epoch to now by the system clock, or `None` where the clock stands
/// before the epoch (`SystemTime::duration_since` fails there); nothing else is known of it.
#[verifier::external_body]
pub fn unix_now_secs() -> Option<u64> {
    match SystemTime::now().duration_since(UNIX_EPOCH) {
        Ok(d) => Some(d.as_secs()),
        Err(_) => None,
    }
}

/// The milliseconds from the Unix epoch to now by the system clock, or `None` where the clock
/// stands before the epoch; nothing else is known of it.
#[verifier::external_body]
pub fn unix_now_millis() -> Option<u128> {
    match SystemTime::now().duration_since(UNIX_EPOCH) {
        Ok(d) => Some(d.as_millis()),
        Err(_) => None,
    }
}

/// The nanoseconds from the Unix epoch to now by the system clock, or `None` where the clock
/// stands before the epoch; nothing else is known of it.
#[verifier::external_body]
pub fn unix_now_nanos() -> Option<u128> {
    match SystemTime::now().duration_since(UNIX_EPOCH) {
        Ok(d) => Some(d.as_nanos()),
        Err(_) => None,
    }
}

/// Nanoseconds since the Unix epoch by the system clock, as a signed timestamp: `i64::MAX`
/// where the reading does not fit or the clock stands before the epoch.
pub(crate) fn now_nanos_i64() -> (r: i64) {
    match unix_now_nanos() {
        Some(n) => if n <= 0x7fff_ffff_ffff_ffffu128 {
            n as i64
        } else {
            i64::MAX
        },
        None => i64::MAX,
    }
}

/// Whole seconds since the Unix epoch by the system clock, as a signed timestamp: `i64::MAX`
/// where the reading does not fit, 0 where the clock stands before the epoch.
pub(crate) fn now_secs_i64() -> (r: i64) {
    match unix_now_secs() {
        Some(s) => if s <= 0x7fff_ffff_ffff_ffffu64 {
            s as i64
        } else {
            i64::MAX
        },
        None => 0,
    }
}

/// The time `d` after `t`, or `None` where the platform cannot represent it.
pub uninterp spec fn time_sum(t: SystemTime, d: Duration) -> Option<SystemTime>;

/// `SystemTime::checked_add`: the time `d` after `t`, or `None` where that cannot be
/// represented. Its result is a function of `t` and `d` alone, named `time_sum`; what that
/// sum is on given values is not stated.
#[verifier::external_body]
pub fn time_checked_add(t: SystemTime, d: Duration) -> (r: Option<SystemTime>)
    ensures
        r == time_sum(t, d),
{
    t.checked_add(d)
}

} // verus!
