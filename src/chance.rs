//! The table's only sources of chance: shuffling a pile and rolling a die.
use rand::seq::SliceRandom;
use rand::Rng;
use vstd::prelude::*;

verus! {

/// The seedable generator that every random outcome is drawn from.
#[verifier::external_type_specification]
#[verifier::external_body]
pub struct ExStdRng(rand::rngs::StdRng);

/// Relies on rand's `SliceRandom::shuffle` for slices, which only swaps elements
/// in place: the result holds the same cards, in some order.
#[verifier::external_body]
pub(crate) fn shuffle_pile(pile: &mut Vec<usize>, rng: &mut rand::rngs::StdRng)
    ensures
        final(pile)@.to_multiset() == old(pile)@.to_multiset(),
{
    pile.shuffle(rng);
}

/// Relies on rand's `Rng::gen_range` over the non-empty range `1..=6`: a value in that range.
#[verifier::external_body]
pub(crate) fn roll_die(rng: &mut rand::rngs::StdRng) -> (r: u8)
    ensures
        1 <= r <= 6,
{
    rng.gen_range(1..=6u8)
}

} // verus!
