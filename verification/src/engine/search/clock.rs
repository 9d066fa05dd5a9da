//! The time elapsed since a search started.

use vstd::prelude::*;
use std::time::{Duration, Instant};

verus! {

/// A point in time, from the system's monotonic clock.
#[verifier::external_type_specification]
#[verifier::external_body]
pub struct ExInstant(Instant);

/// The present moment.
///
/// Trusted: calls `Instant::now`; nothing is stated of the result.
#[verifier::external_body]
pub(crate) fn now() -> Instant {
    Instant::now()
}

/// The time elapsed since `start`.
///
/// Trusted: calls `Instant::elapsed`; the result depends on the clock, and
/// nothing is stated of it.
#[verifier::external_body]
fn elapsed_since(start: &Instant) -> Duration {
    start.elapsed()
}

/// The whole milliseconds of a duration.
///
/// Trusted: calls `Duration::as_millis`; the duration is opaque here, so
/// nothing is stated of the result.
#[verifier::external_body]
fn whole_millis(d: &Duration) -> u128 {
    d.as_millis()
}

/// The whole milliseconds elapsed since `start`, up to the largest `u64`.
pub(crate) fn millis_since(start: &Instant) -> u64 {
    let ms = whole_millis(&elapsed_since(start));
    if ms > u64::MAX as u128 { u64::MAX } else { ms as u64 }
}

} // verus!
