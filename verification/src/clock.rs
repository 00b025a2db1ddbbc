//! Readings of the monotonic and the wall clock.
use std::time::{Duration, Instant, SystemTime};
use vstd::prelude::*;

verus! {

/// `std::time::Instant`, a reading of the monotonic clock; opaque here.
#[verifier::external_type_specification]
#[verifier::external_body]
pub struct ExInstant(Instant);

/// `std::time::SystemTime`, a reading of the wall clock; opaque here.
#[verifier::external_type_specification]
#[verifier::external_body]
pub struct ExSystemTime(SystemTime);

/// The current reading of the monotonic clock (`Instant::now`). Nothing is
/// claimed of it: it depends on when the call is made.
#[verifier::external_body]
pub(crate) fn now() -> (r: Instant) {
    Instant::now()
}

/// The time from `earlier` to `later` (`Instant::duration_since`; std
/// documents that it is zero when `earlier` is the later one). The
/// readings are opaque here, so nothing is claimed of it.
#[verifier::external_body]
pub(crate) fn duration_since(later: &Instant, earlier: &Instant) -> (r: Duration) {
    later.duration_since(*earlier)
}

/// The time since `since` (`Instant::elapsed`). It depends on when the call
/// is made, so nothing is claimed of it.
#[verifier::external_body]
pub(crate) fn elapsed(since: &Instant) -> (r: Duration) {
    since.elapsed()
}

/// The whole nanoseconds of `d` (`Duration::as_nanos`). A `Duration` is
/// opaque here, so nothing is claimed of the number.
#[verifier::external_body]
pub(crate) fn as_nanos(d: &Duration) -> (r: u128) {
    d.as_nanos()
}

/// The whole seconds of `d` (`Duration::as_secs`). A `Duration` is opaque
/// here, so nothing is claimed of the number.
#[verifier::external_body]
pub(crate) fn as_secs(d: &Duration) -> (r: u64) {
    d.as_secs()
}

/// Whether `a` is at least `b` (`>=` on `Duration`). Both are opaque here,
/// so nothing is claimed of the answer.
#[verifier::external_body]
pub(crate) fn at_least(a: &Duration, b: &Duration) -> (r: bool) {
    *a >= *b
}

/// The current reading of the wall clock (`SystemTime::now`). Nothing is
/// claimed of it: it depends on when the call is made.
#[verifier::external_body]
pub(crate) fn wall_now() -> (r: SystemTime) {
    SystemTime::now()
}

/// The time from the Unix epoch to `t` (`SystemTime::duration_since` with
/// `UNIX_EPOCH`), nothing when `t` is before the epoch. `t` is opaque here,
/// so nothing is claimed of it.
#[verifier::external_body]
pub(crate) fn since_epoch(t: &SystemTime) -> (r: Option<Duration>) {
    match t.duration_since(std::time::UNIX_EPOCH) {
        Ok(d) => Some(d),
        Err(_) => None,
    }
}

/// Seconds since the Unix epoch by the wall clock, zero when the clock is
/// before the epoch.
pub(crate) fn unix_secs() -> (r: u64) {
    match since_epoch(&wall_now()) {
        Some(d) => as_secs(&d),
        None => 0,
    }
}

/// The nanoseconds from `earlier` to `later` (zero when `earlier` is the
/// later one).
pub(crate) fn nanos_between(earlier: &Instant, later: &Instant) -> (r: u128) {
    as_nanos(&duration_since(later, earlier))
}

/// Whether at least `interval` has passed since `since`.
pub(crate) fn has_elapsed(since: &Instant, interval: &Duration) -> (r: bool) {
    at_least(&elapsed(since), interval)
}

} // verus!
