use vstd::prelude::*;
use rand::seq::SliceRandom;
use rand::Rng;
use crate::card::Card;

verus! {

/// Relies on rand's `SliceRandom::shuffle`: a Fisher-Yates in-place
/// permutation of the slice, built from swaps only.
#[verifier::external_body]
pub(crate) fn shuffle_cards(cards: &mut Vec<Card>)
    ensures
        final(cards)@.len() == old(cards)@.len(),
        final(cards)@.to_multiset() == old(cards)@.to_multiset(),
        forall|i: int|
            0 <= i < final(cards)@.len() ==> exists|j: int|
                0 <= j < old(cards)@.len() && #[trigger] final(cards)@[i] == old(cards)@[j],
{
    cards.shuffle(&mut rand::thread_rng());
}

/// Relies on rand's `Rng::gen_range` over `0..n`: a draw strictly below
/// `n`; the range must not be empty.
#[verifier::external_body]
pub(crate) fn random_below(n: u32) -> (r: u32)
    requires
        n > 0,
    ensures
        r < n,
{
    rand::thread_rng().gen_range(0..n)
}

} // verus!
