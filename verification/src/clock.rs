//! The monotonic clock, read as whole nanoseconds since a fixed origin.
use std::time::Instant;
use vstd::prelude::*;

verus! {

#[verifier::external_type_specification]
#[verifier::external_body]
pub struct ExInstant(Instant);

/// Whole seconds between two readings of the monotonic clock, as
/// `later.duration_since(earlier).as_secs()` counts them: zero when `later`
/// is not after `earlier`.
pub open spec fn elapsed_secs(later: u128, earlier: u128) -> int {
    if later >= earlier {
        (later - earlier) / 1_000_000_000
    } else {
        0
    }
}

/// `Instant::now()`: a fixed point on the monotonic clock. Nothing is
/// promised of the value.
#[verifier::external_body]
pub(crate) fn instant_now() -> Instant {
    Instant::now()
}

/// `origin.elapsed().as_nanos()`: nanoseconds elapsed on the monotonic clock
/// since `origin`. The reading depends on the moment of the call; nothing is
/// promised of it.
#[verifier::external_body]
pub(crate) fn nanos_since(origin: &Instant) -> u128 {
    origin.elapsed().as_nanos()
}

/// Whole seconds between two clock readings.
pub fn secs_between(later: u128, earlier: u128) -> (r: u128)
    ensures
        r == elapsed_secs(later, earlier),
{
    if later >= earlier {
        (later - earlier) / 1_000_000_000
    } else {
        0
    }
}

} // verus!
