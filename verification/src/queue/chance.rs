//! What the queue draws its shuffles from.

use super::model::reordered;
use super::ItemId;
use rand::rngs::StdRng;
use rand::seq::SliceRandom;
use rand::SeedableRng;
use vstd::prelude::*;

verus! {

/// The random number generator of rand that shuffles draw from.
#[verifier::external_type_specification]
#[verifier::external_body]
pub struct ExStdRng(rand::rngs::StdRng);

/// The generator that `seed_from_u64` of rand makes from a seed.
pub uninterp spec fn generator_of(seed: u64) -> StdRng;

/// What `shuffle` of rand makes of a row of ids, drawing from a generator: the row afterwards, and
/// the generator afterwards.
pub uninterp spec fn shuffle_of(ids: Seq<ItemId>, rng: StdRng) -> (Seq<ItemId>, StdRng);

/// Trusts `SeedableRng::seed_from_u64` of rand: the generator it makes depends on the seed alone.
#[verifier::external_body]
pub(super) fn seeded(seed: u64) -> (r: StdRng)
    ensures
        r == generator_of(seed),
{
    StdRng::seed_from_u64(seed)
}

/// Trusts `SliceRandom::shuffle` of rand: the order it leaves, and what is left of the generator,
/// depend on the row and the generator alone; and it leaves the same elements, each as often as
/// before.
#[verifier::external_body]
pub(super) fn shuffle_ids(ids: &mut Vec<ItemId>, rng: &mut StdRng)
    ensures
        (final(ids)@, *final(rng)) == shuffle_of(old(ids)@, *old(rng)),
        reordered(final(ids)@, old(ids)@),
{
    ids.shuffle(rng);
}

/// Trusts `rand::random` of rand to return a number. Which one is a matter of chance.
#[verifier::external_body]
pub(super) fn random_seed() -> (r: u64) {
    rand::random()
}

} // verus!
