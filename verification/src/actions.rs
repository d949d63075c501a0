//! Whole-scene actions on the in-memory record sequence.

use vstd::prelude::*;

use crate::uber_splat::UberSplat;
use rand::seq::SliceRandom;

verus! {

/// Relies on rand's `SliceRandom::shuffle`, seeded from `rand::thread_rng`:
/// it reorders the slice in place by swapping elements, so the contents
/// afterwards are a permutation of the contents before and the length is
/// unchanged. Which permutation comes out is up to the generator, so nothing
/// more is stated.
#[verifier::external_body]
fn shuffle_in_place(splats: &mut Vec<UberSplat>)
    ensures
        final(splats)@.to_multiset() == old(splats)@.to_multiset(),
        final(splats)@.len() == old(splats)@.len(),
{
    splats.shuffle(&mut rand::thread_rng());
}

/// Reorders the records randomly: the records afterwards are exactly the
/// records before, as a multiset.
pub fn shuffle_splats(splats: &mut Vec<UberSplat>)
    ensures
        final(splats)@.to_multiset() == old(splats)@.to_multiset(),
        final(splats)@.len() == old(splats)@.len(),
{
    shuffle_in_place(splats);
}

} // verus!
