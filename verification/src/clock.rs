//! Monotonic clock readings, used to bound regex evaluation time and to age
//! vacation-reply records.
use std::time::{Duration, Instant};

use vstd::prelude::*;

verus! {

#[verifier::external_type_specification]
#[verifier::external_body]
pub struct ExInstant(std::time::Instant);

/// `std::time::Instant::now`: the current instant. Nothing is promised of
/// the reading.
#[verifier::external_body]
pub(crate) fn instant_now() -> (r: Instant) {
    Instant::now()
}

/// `std::time::Instant::elapsed`: the time since `at` (zero when `at` lies
/// in the future). Nothing is promised of the reading.
#[verifier::external_body]
pub(crate) fn instant_elapsed(at: &Instant) -> (r: Duration) {
    at.elapsed()
}

/// `std::time::Duration::as_millis`: the whole milliseconds of `d`.
/// Durations are opaque here, so nothing is promised of the number.
#[verifier::external_body]
pub(crate) fn duration_as_millis(d: &Duration) -> (r: u128) {
    d.as_millis()
}

/// `std::time::Duration::as_secs`: the whole seconds of `d`. Durations are
/// opaque here, so nothing is promised of the number.
#[verifier::external_body]
pub(crate) fn duration_as_secs(d: &Duration) -> (r: u64) {
    d.as_secs()
}

} // verus!
