//! The injected pseudo-random source.
//!
//! Randomness enters the core in exactly two places: drawing the initial
//! parameters and sampling an action from the policy's output probability.
//! Both go through a seedable generator held by the caller, so runs are
//! reproducible.

use vstd::prelude::*;

verus! {

#[verifier::external_type_specification]
#[verifier::external_body]
pub struct ExStdRng(rand::rngs::StdRng);

/// Relies on rand's `SeedableRng::seed_from_u64` for `StdRng`: builds a
/// deterministic generator from the seed.  Nothing is promised of the values
/// it will produce.
#[verifier::external_body]
pub fn seed_rng(seed: u64) -> rand::rngs::StdRng {
    <rand::rngs::StdRng as rand::SeedableRng>::seed_from_u64(seed)
}

/// Relies on rand's `RngExt::random_range` over `lo..hi`: it returns a value
/// of the half-open range, and panics only when the range is empty, which the
/// precondition rules out.  Which value comes back is promised of no two
/// calls alike.
#[verifier::external_body]
pub fn rng_range_i64(rng: &mut rand::rngs::StdRng, lo: i64, hi: i64) -> (r: i64)
    requires
        lo < hi,
    ensures
        lo <= r < hi,
{
    rand::RngExt::random_range(rng, lo..hi)
}

} // verus!
