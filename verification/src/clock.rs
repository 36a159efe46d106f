//! The clock boundary: the only outside-world inputs the cache consumes.
//!
//! Every reading is a plain `u64` count of milliseconds. Nothing is, or
//! could be, promised about the values — they depend on when the call
//! happens — so the state machine in [`crate::state`] takes each reading as
//! an explicit argument and is verified for every possible value.

use vstd::prelude::*;

verus! {

#[verifier::external_type_specification]
#[verifier::external_body]
pub struct ExInstant(std::time::Instant);

/// Relies on std::time::Instant::now: a reading of the monotonic clock,
/// used as the fixed origin all of a cache's timestamps are measured from.
#[verifier::external_body]
pub(crate) fn instant_now() -> std::time::Instant {
    std::time::Instant::now()
}

/// Relies on std::time::Instant::elapsed and Duration::as_millis: the whole
/// milliseconds that have passed since `start`, saturating at u64::MAX.
#[verifier::external_body]
pub(crate) fn millis_since(start: &std::time::Instant) -> u64 {
    let m = start.elapsed().as_millis();
    if m > u64::MAX as u128 {
        u64::MAX
    } else {
        m as u64
    }
}

/// Relies on std::time::Duration::as_millis: the duration in whole
/// milliseconds, saturating at u64::MAX.
#[verifier::external_body]
pub(crate) fn duration_saturating_millis(d: &std::time::Duration) -> u64 {
    let m = d.as_millis();
    if m > u64::MAX as u128 {
        u64::MAX
    } else {
        m as u64
    }
}

} // verus!
