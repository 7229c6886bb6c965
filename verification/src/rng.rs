//! Uniform random choices drawn from the game's global random generator.
use vstd::prelude::*;

verus! {

/// Draws an index uniformly from `0..n` with batbox's `global_rng().gen_range(0..n)`.
/// Trusted: batbox hands out `rand::thread_rng()`, whose `gen_range` panics on an
/// empty range and otherwise returns a value inside it; which value comes out is
/// left open, since it is chance.
#[verifier::external_body]
pub(crate) fn random_index(n: usize) -> (r: usize)
    requires
        n > 0,
    ensures
        r < n,
{
    batbox::rng::Rng::gen_range(&mut batbox::rng::global_rng(), 0..n)
}

} // verus!
