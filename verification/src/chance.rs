//! The random draws the game makes, each a call into `rand`.

use vstd::prelude::*;

verus! {

/// Draws an index below `bound` with `rand`'s `Rng::gen_range` on the thread's
/// generator. `gen_range(0..bound)` panics on an empty range, hence the
/// `requires`; what is drawn below `bound` is left to chance.
#[verifier::external_body]
pub fn random_index(bound: usize) -> (drawn: usize)
    requires
        bound > 0,
    ensures
        drawn < bound,
{
    rand::Rng::gen_range(&mut rand::thread_rng(), 0..bound)
}

/// Shuffles a vector in place with `rand`'s `SliceRandom::shuffle` on the
/// thread's generator. The source performs a Fisher-Yates shuffle made of
/// swaps, so the result is a permutation of the input: the same items with
/// the same multiplicities. Which permutation comes out is left to chance.
#[verifier::external_body]
pub fn shuffle<T>(items: &mut Vec<T>)
    ensures
        final(items)@.len() == old(items)@.len(),
        final(items)@.to_multiset() == old(items)@.to_multiset(),
{
    rand::seq::SliceRandom::shuffle(items.as_mut_slice(), &mut rand::thread_rng())
}

} // verus!
