//! Wall-clock reading for the timeout of the legacy superoptimizer.
//!
//! Time depends on the machine, so nothing is assumed about the values that
//! come back; every caller is verified for every possible reading.

use vstd::prelude::*;

verus! {

#[verifier::external_type_specification]
#[verifier::external_body]
pub struct ExInstant(std::time::Instant);

/// Relies on `std::time::Instant::now`: an opaque monotonic timestamp.
#[verifier::external_body]
pub fn monotonic_now() -> std::time::Instant {
    std::time::Instant::now()
}

/// Relies on `std::time::Instant::elapsed`: the time since `start`,
/// converted to its whole-second count.
#[verifier::external_body]
pub fn elapsed_secs(start: &std::time::Instant) -> u64 {
    start.elapsed().as_secs()
}

} // verus!
