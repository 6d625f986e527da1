//! Monotonic time, as the registries read it.
use std::time::{Duration, Instant};
use vstd::prelude::*;

verus! {

#[verifier::external_type_specification]
#[verifier::external_body]
pub struct ExInstant(Instant);

/// `Instant::now`. What it returns depends on the clock alone, so nothing is stated of it.
#[verifier::external_body]
pub(crate) fn instant_now() -> Instant {
    Instant::now()
}

/// `Instant::elapsed`: the time since `at`, which depends on the clock.
#[verifier::external_body]
pub(crate) fn elapsed_since(at: &Instant) -> Duration {
    at.elapsed()
}

/// `Duration::as_millis`: the whole milliseconds of `d`. `Duration` is opaque here, so the
/// number is left unstated.
#[verifier::external_body]
pub(crate) fn duration_millis(d: &Duration) -> u128 {
    d.as_millis()
}

/// `d` is a reading of the time elapsed since `at`: what [`elapsed_since`] gave for `at`.
/// Which readings there are depends on the clock; nothing more is stated of them.
pub closed spec fn elapsed_reading(at: Instant, d: Duration) -> bool {
    call_ensures(elapsed_since, (&at,), d)
}

/// Reads the time elapsed since `at`.
pub(crate) fn read_elapsed_since(at: &Instant) -> (d: Duration)
    ensures
        elapsed_reading(*at, d),
{
    let d = elapsed_since(at);
    assert(call_ensures(elapsed_since, (at,), d));
    d
}

/// `ms` is a reading, in whole milliseconds, of the time elapsed since `at`: what
/// [`duration_millis`] gave for a `Duration` that [`elapsed_since`] gave for `at`.
pub closed spec fn millis_since(at: Instant, ms: u128) -> bool {
    exists|d: Duration| elapsed_reading(at, d) && #[trigger] call_ensures(duration_millis, (&d,), ms)
}

/// Reads, in whole milliseconds, the time elapsed since `at`.
pub(crate) fn read_millis_since(at: &Instant) -> (ms: u128)
    ensures
        millis_since(*at, ms),
{
    let d = read_elapsed_since(at);
    let ms = duration_millis(&d);
    assert(call_ensures(duration_millis, (&d,), ms));
    ms
}

/// `chrono::Utc::now().to_rfc3339()`: the current time, which depends on the clock alone.
#[verifier::external_body]
pub(crate) fn utc_now_rfc3339() -> String {
    chrono::Utc::now().to_rfc3339()
}

} // verus!
