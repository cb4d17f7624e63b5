//! Fixed-size hands of pairwise-distinct cards, sampled without replacement.

use vstd::prelude::*;

verus! {

use crate::card::{gen_index, Card, NUM_CARDS};

/// A hand holds exactly `N` cards pairwise distinct by identity. Every card of
/// a well-formed hand belongs to the 52-card universe; distinctness is
/// established by the sampler and checked by [`cards_are_unique`].
#[derive(PartialEq, Debug, Hash)]
pub struct Hand<const N: usize> {
    pub cards: [Card; N],
}

/// No two cards of the sequence share an identity.
pub open spec fn distinct_cards(cards: Seq<Card>) -> bool {
    forall|i: int, j: int| 0 <= i < j < cards.len() ==> cards[i].id != cards[j].id
}

impl<const N: usize> Hand<N> {
    /// Every card of the hand lies in the 52-card universe.
    pub open spec fn wf(self) -> bool {
        forall|i: int| 0 <= i < N ==> (#[trigger] self.cards@[i]).id < NUM_CARDS
    }

    /// Draws `N` pairwise-distinct cards uniformly at random, by a partial
    /// Fisher-Yates shuffle of the full deck: position `i` receives a card
    /// chosen uniformly among the cards not yet drawn, so the draw terminates
    /// after exactly `N` steps and never repeats an identity.
    pub fn draw(rng: &mut rand::rngs::StdRng) -> (hand: Hand<N>)
        requires
            N <= NUM_CARDS,
        ensures
            hand.wf(),
            distinct_cards(hand.cards@),
    {
        let mut deck: Vec<usize> = Vec::new();
        for k in 0..NUM_CARDS
            invariant
                deck@.len() == k,
                forall|p: int| 0 <= p < k ==> deck@[p] == p,
        {
            deck.push(k);
        }
        let mut cards: [Card; N] = [Card { id: 0 }; N];
        for i in 0..N
            invariant
                N <= NUM_CARDS,
                deck@.len() == NUM_CARDS,
                forall|p: int| 0 <= p < NUM_CARDS ==> (#[trigger] deck@[p]) < NUM_CARDS,
                forall|p: int, q: int| 0 <= p < q < NUM_CARDS ==> deck@[p] != deck@[q],
                forall|p: int| 0 <= p < i ==> (#[trigger] cards@[p]).id == deck@[p],
        {
            let j = gen_index(rng, i, NUM_CARDS);
            let drawn = deck[j];
            let kept = deck[i];
            deck[i] = drawn;
            deck[j] = kept;
            cards[i] = Card { id: drawn };
        }
        Hand { cards }
    }
}

/// True exactly when the cards of the hand are pairwise distinct.
pub fn cards_are_unique<const N: usize>(hand: &Hand<N>) -> (unique: bool)
    ensures
        unique == distinct_cards(hand.cards@),
{
    for i in 0..N
        invariant
            forall|p: int, q: int| 0 <= q < p < i ==> hand.cards@[p].id != hand.cards@[q].id,
    {
        for j in 0..i
            invariant
                i < N,
                forall|p: int, q: int| 0 <= q < p < i ==> hand.cards@[p].id != hand.cards@[q].id,
                forall|q: int| 0 <= q < j ==> hand.cards@[q].id != hand.cards@[i as int].id,
        {
            if hand.cards[j].id == hand.cards[i].id {
                return false;
            }
        }
    }
    true
}

} // verus!
