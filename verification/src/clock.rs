//! The wall clock, read in milliseconds since the Unix epoch.
use std::time::{Duration, SystemTime, UNIX_EPOCH};
use vstd::prelude::*;

verus! {

/// A point in time of the system clock.
#[verifier::external_type_specification]
#[verifier::external_body]
pub struct ExSystemTime(SystemTime);

/// `SystemTime::now`. Nothing is promised of the reading: it is whatever the
/// system clock says.
#[verifier::external_body]
fn system_now() -> SystemTime {
    SystemTime::now()
}

/// The time from the Unix epoch to `t`, as `SystemTime::duration_since`
/// gives it, or `None` where `t` lies before the epoch.
pub uninterp spec fn elapsed_since_epoch(t: SystemTime) -> Option<Duration>;

/// `SystemTime::duration_since(UNIX_EPOCH)`: the time elapsed since the Unix
/// epoch, or `None` where `t` lies before it. It depends on `t` alone; the
/// contract names it and says no more.
#[verifier::external_body]
fn since_unix_epoch(t: &SystemTime) -> (r: Option<Duration>)
    ensures
        r == elapsed_since_epoch(*t),
{
    t.duration_since(UNIX_EPOCH).ok()
}

/// The whole milliseconds of `d`, as `Duration::as_millis` counts them.
pub uninterp spec fn millis_of(d: Duration) -> u128;

/// `Duration::as_millis`: the whole milliseconds of `d`. It depends on `d`
/// alone; the contract names it and says no more.
#[verifier::external_body]
fn whole_millis(d: &Duration) -> (ms: u128)
    ensures
        ms == millis_of(*d),
{
    d.as_millis()
}

/// The stamp of the clock reading `t`: its whole milliseconds since the Unix
/// epoch, cut to 64 bits as `as u64` cuts them, or `None` for a reading before
/// the epoch, which has no such stamp.
pub open spec fn epoch_millis(t: SystemTime) -> Option<u64> {
    match elapsed_since_epoch(t) {
        Some(d) => Some(millis_of(d) as u64),
        None => None,
    }
}

/// The stamp of the clock reading `t`, or `None` where `t` lies before the
/// Unix epoch.
pub fn millis_at(t: &SystemTime) -> (ms: Option<u64>)
    ensures
        ms == epoch_millis(*t),
{
    match since_unix_epoch(t) {
        Some(d) => {
            let ms: u128 = whole_millis(&d);
            Some(ms as u64)
        },
        None => None,
    }
}

/// The current time in milliseconds since the Unix epoch, cut to 64 bits as
/// `as u64` cuts it: the stamp of a reading of the system clock. A clock that
/// reads before the epoch has no stamp, and gives `None`.
pub fn now_millis() -> (ms: Option<u64>)
    ensures
        exists|t: SystemTime| #[trigger] epoch_millis(t) == ms,
{
    let now = system_now();
    let ms = millis_at(&now);
    assert(epoch_millis(now) == ms);
    ms
}

} // verus!
