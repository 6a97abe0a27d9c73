//! The time of day.

use vstd::prelude::*;

verus! {

/// `std::time::SystemTime`, a time of the system clock.
#[verifier::external_type_specification]
#[verifier::external_body]
pub struct ExSystemTime(std::time::SystemTime);

/// The whole seconds from the epoch to `t`, or nothing where `t` is before the epoch.
pub uninterp spec fn epoch_seconds(t: std::time::SystemTime) -> Option<u64>;

/// `SystemTime::now` returns the time of the system clock. Nothing is claimed of it: it is
/// another one at each call.
#[verifier::external_body]
fn system_now() -> (t: std::time::SystemTime) {
    std::time::SystemTime::now()
}

/// `SystemTime::duration_since` returns the time since the epoch, here in whole seconds, or
/// nothing where `t` is before it. It is claimed to depend on `t` alone.
#[verifier::external_body]
fn since_epoch(t: std::time::SystemTime) -> (r: Option<u64>)
    ensures
        r == epoch_seconds(t),
{
    t.duration_since(std::time::UNIX_EPOCH).ok().map(|d| d.as_secs())
}

/// What is shown for the seconds since the epoch: 0 for a time before it.
pub open spec fn shown(since_epoch: Option<u64>) -> u64 {
    match since_epoch {
        Some(s) => s,
        None => 0,
    }
}

/// A time after the epoch is shown as it is, and every time before it as the epoch: what is shown
/// never runs backwards.
pub proof fn shown_time_is_the_time(secs: u64, later: u64)
    requires
        secs <= later,
    ensures
        shown(Some(secs)) == secs,
        shown(None) <= shown(Some(secs)) <= shown(Some(later)),
        shown(None) == shown(Some(0)),
{
}

/// The seconds that a clock shows: 0 where it is set to a time before the epoch.
pub fn shown_seconds(since_epoch: Option<u64>) -> (r: u64)
    ensures
        r == shown(since_epoch),
{
    match since_epoch {
        Some(s) => s,
        None => 0,
    }
}

/// The seconds since the epoch, by the system clock: what a time of that clock shows. Which
/// time it is, is up to the clock.
pub fn now_unix() -> (r: u64)
    ensures
        exists|t: std::time::SystemTime| r == shown(#[trigger] epoch_seconds(t)),
{
    shown_seconds(since_epoch(system_now()))
}

} // verus!
