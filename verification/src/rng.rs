//! Randomness for the search strategies, behind uniform-range draws.
//!
//! Every worker draws through these functions; nothing is ever assumed about
//! which value comes back beyond its range, so all search logic is verified
//! for every possible outcome.

use vstd::prelude::*;

verus! {

/// Relies on `fastrand::usize`: a value in the inclusive range.  The call
/// panics only on an empty range, which the precondition excludes.
#[verifier::external_body]
pub fn rand_usize_inclusive(lo: usize, hi: usize) -> (r: usize)
    requires
        lo <= hi,
    ensures
        lo <= r <= hi,
{
    fastrand::usize(lo..=hi)
}

/// Relies on `fastrand::u8`: a value in the inclusive range.  The call
/// panics only on an empty range, which the precondition excludes.
#[verifier::external_body]
pub fn rand_u8_inclusive(lo: u8, hi: u8) -> (r: u8)
    requires
        lo <= hi,
    ensures
        lo <= r <= hi,
{
    fastrand::u8(lo..=hi)
}

/// Relies on `rand::Rng::gen_range` on the thread-local generator: a value
/// in the inclusive range.  The call panics only on an empty range, which
/// the precondition excludes.
#[verifier::external_body]
pub fn rng_usize_inclusive(lo: usize, hi: usize) -> (r: usize)
    requires
        lo <= hi,
    ensures
        lo <= r <= hi,
{
    rand::Rng::gen_range(&mut rand::thread_rng(), lo..=hi)
}

} // verus!
