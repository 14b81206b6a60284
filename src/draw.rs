//! Random draws, from the thread's generator or from a seeded one.
use vstd::prelude::*;

verus! {

#[verifier::external_type_specification]
#[verifier::external_body]
pub struct ExSmallRng(rand::rngs::SmallRng);

/// Relies on rand's SeedableRng::seed_from_u64 for SmallRng: a generator
/// whose whole output is fixed by the seed within one build.
#[verifier::external_body]
pub(crate) fn seeded(seed: u64) -> rand::rngs::SmallRng {
    rand::SeedableRng::seed_from_u64(seed)
}

/// Relies on rand's Rng::random_range over `0..n`: a value below `n`. It
/// panics on an empty range, so `n` is positive.
#[verifier::external_body]
pub(crate) fn next_below(rng: &mut rand::rngs::SmallRng, n: usize) -> (r: usize)
    requires
        n > 0,
    ensures
        r < n,
{
    rand::Rng::random_range(rng, 0..n)
}

/// Relies on rand::random_range over `0..n`, with the thread's generator: a
/// value below `n`. It panics on an empty range, so `n` is positive.
#[verifier::external_body]
pub(crate) fn any_below(n: usize) -> (r: usize)
    requires
        n > 0,
    ensures
        r < n,
{
    rand::random_range(0..n)
}

} // verus!
