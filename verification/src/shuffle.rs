//! Random ordering of cards.

use crate::enums::Items;
use rand::seq::SliceRandom;
use vstd::prelude::*;

verus! {

/// `rand::rngs::ThreadRng`, the random number generator of a thread. Nothing is known of
/// what a value of it holds; it is only handed on.
#[verifier::external_type_specification]
#[verifier::external_body]
pub struct ExThreadRng(rand::rngs::ThreadRng);

/// `rand::rng`: a handle to the random number generator of the calling thread. Nothing is
/// claimed of the numbers that it will produce.
#[verifier::external_body]
pub(crate) fn thread_rng() -> (rng: rand::rngs::ThreadRng) {
    rand::rng()
}

/// `rand::seq::SliceRandom::shuffle` on a slice of cards: the cards are reordered in
/// place by swaps, so afterwards the slice holds the same cards as before, each as often
/// as before. Nothing is claimed of the order that results.
#[verifier::external_body]
pub(crate) fn shuffle_cards(cards: &mut Vec<Items>, rng: &mut rand::rngs::ThreadRng)
    ensures
        final(cards)@.to_multiset() == old(cards)@.to_multiset(),
{
    cards.shuffle(rng);
}

} // verus!
