//! Rank and suit frequency histograms of a hand.

use vstd::prelude::*;

verus! {

use crate::card::{Card, NUM_CARDS, NUM_RANKS, NUM_SUITS};
use crate::hand::Hand;

/// The rank bin that a card falls into.
pub open spec fn rank_of(card: Card) -> int {
    card.id as int / 4
}

/// The suit bin that a card falls into.
pub open spec fn suit_of(card: Card) -> int {
    card.id as int % 4
}

/// How many cards of the sequence have rank `r`.
pub open spec fn count_rank(cards: Seq<Card>, r: int) -> int
    decreases cards.len(),
{
    if cards.len() == 0 {
        0
    } else {
        count_rank(cards.drop_last(), r) + if rank_of(cards.last()) == r {
            1int
        } else {
            0int
        }
    }
}

/// How many cards of the sequence have suit `s`.
pub open spec fn count_suit(cards: Seq<Card>, s: int) -> int
    decreases cards.len(),
{
    if cards.len() == 0 {
        0
    } else {
        count_suit(cards.drop_last(), s) + if suit_of(cards.last()) == s {
            1int
        } else {
            0int
        }
    }
}

/// A rank bin never undercounts nor outgrows the hand.
pub proof fn lemma_count_rank_bounds(cards: Seq<Card>, r: int)
    ensures
        0 <= count_rank(cards, r) <= cards.len(),
    decreases cards.len(),
{
    if cards.len() > 0 {
        lemma_count_rank_bounds(cards.drop_last(), r);
    }
}

/// A suit bin never undercounts nor outgrows the hand.
pub proof fn lemma_count_suit_bounds(cards: Seq<Card>, s: int)
    ensures
        0 <= count_suit(cards, s) <= cards.len(),
    decreases cards.len(),
{
    if cards.len() > 0 {
        lemma_count_suit_bounds(cards.drop_last(), s);
    }
}

/// The full rank histogram of a sequence of cards, bin by bin.
pub open spec fn rank_histogram(cards: Seq<Card>) -> Seq<usize> {
    Seq::new(NUM_RANKS as nat, |r: int| count_rank(cards, r) as usize)
}

/// The full suit histogram of a sequence of cards, bin by bin.
pub open spec fn suit_histogram(cards: Seq<Card>) -> Seq<usize> {
    Seq::new(NUM_SUITS as nat, |s: int| count_suit(cards, s) as usize)
}

/// The total of all bins of a histogram.
pub open spec fn sum_counts(counts: Seq<usize>) -> int
    decreases counts.len(),
{
    if counts.len() == 0 {
        0
    } else {
        sum_counts(counts.drop_last()) + counts.last()
    }
}

/// Replacing one bin changes the total by the difference at that bin.
proof fn lemma_sum_update(counts: Seq<usize>, i: int, v: usize)
    requires
        0 <= i < counts.len(),
    ensures
        sum_counts(counts.update(i, v)) == sum_counts(counts) - counts[i] + v,
    decreases counts.len(),
{
    if i == counts.len() - 1 {
        assert(counts.update(i, v).drop_last() =~= counts.drop_last());
    } else {
        assert(counts.update(i, v).drop_last() =~= counts.drop_last().update(i, v));
        lemma_sum_update(counts.drop_last(), i, v);
    }
}

/// Every bin is bounded by the total, since bins are non-negative.
proof fn lemma_elem_le_sum(counts: Seq<usize>, i: int)
    requires
        0 <= i < counts.len(),
    ensures
        counts[i] <= sum_counts(counts),
    decreases counts.len(),
{
    lemma_sum_nonneg(counts.drop_last());
    if i < counts.len() - 1 {
        lemma_elem_le_sum(counts.drop_last(), i);
    }
}

/// A histogram total is never negative.
proof fn lemma_sum_nonneg(counts: Seq<usize>)
    ensures
        sum_counts(counts) >= 0,
    decreases counts.len(),
{
    if counts.len() > 0 {
        lemma_sum_nonneg(counts.drop_last());
    }
}

/// A partial total never exceeds the full total.
proof fn lemma_sum_take_le(counts: Seq<usize>, i: int)
    requires
        0 <= i <= counts.len(),
    ensures
        sum_counts(counts.take(i)) <= sum_counts(counts),
    decreases counts.len() - i,
{
    if i == counts.len() {
        assert(counts.take(i) =~= counts);
    } else {
        assert(counts.take(i + 1).drop_last() =~= counts.take(i));
        lemma_sum_take_le(counts, i + 1);
    }
}

/// Fixed-size count arrays summed from a hand: `rank_count[r]` cards of rank
/// `r` and `suit_count[s]` cards of suit `s`.
#[derive(PartialEq, Debug)]
pub struct HandStats {
    pub rank_count: [usize; NUM_RANKS],
    pub suit_count: [usize; NUM_SUITS],
}

impl Default for HandStats {
    /// The empty histogram: every bin is zero.
    fn default() -> (stats: HandStats)
        ensures
            forall|r: int| 0 <= r < NUM_RANKS ==> stats.rank_count@[r] == 0,
            forall|s: int| 0 <= s < NUM_SUITS ==> stats.suit_count@[s] == 0,
            sum_counts(stats.rank_count@) == 0,
            sum_counts(stats.suit_count@) == 0,
    {
        let stats = HandStats { rank_count: [0; NUM_RANKS], suit_count: [0; NUM_SUITS] };
        proof {
            lemma_sum_of_zeros(stats.rank_count@);
            lemma_sum_of_zeros(stats.suit_count@);
        }
        stats
    }
}

/// A histogram of all-zero bins has total zero.
proof fn lemma_sum_of_zeros(counts: Seq<usize>)
    requires
        forall|i: int| 0 <= i < counts.len() ==> counts[i] == 0,
    ensures
        sum_counts(counts) == 0,
    decreases counts.len(),
{
    if counts.len() > 0 {
        lemma_sum_of_zeros(counts.drop_last());
    }
}

impl HandStats {
    /// The histograms of a fresh statistics record summed from one hand: each
    /// bin counts the matching cards, and each histogram totals `N`, the hand
    /// size.
    pub fn new<const N: usize>(hand: &Hand<N>) -> (stats: HandStats)
        requires
            hand.wf(),
        ensures
            forall|r: int| 0 <= r < NUM_RANKS ==> stats.rank_count@[r] == count_rank(
                hand.cards@,
                r,
            ),
            forall|s: int| 0 <= s < NUM_SUITS ==> stats.suit_count@[s] == count_suit(
                hand.cards@,
                s,
            ),
            sum_counts(stats.rank_count@) == N,
            sum_counts(stats.suit_count@) == N,
    {
        let mut stats: HandStats = Default::default();
        stats.insert_hand(hand);
        stats
    }

    /// Adds one card to the histograms, incrementing its rank and suit bins.
    pub fn insert(&mut self, card: Card)
        requires
            card.id < NUM_CARDS,
            old(self).rank_count@[rank_of(card)] < usize::MAX,
            old(self).suit_count@[suit_of(card)] < usize::MAX,
        ensures
            final(self).rank_count@ == old(self).rank_count@.update(
                rank_of(card),
                (old(self).rank_count@[rank_of(card)] + 1) as usize,
            ),
            final(self).suit_count@ == old(self).suit_count@.update(
                suit_of(card),
                (old(self).suit_count@[suit_of(card)] + 1) as usize,
            ),
            sum_counts(final(self).rank_count@) == sum_counts(old(self).rank_count@) + 1,
            sum_counts(final(self).suit_count@) == sum_counts(old(self).suit_count@) + 1,
    {
        proof {
            lemma_sum_update(
                self.rank_count@,
                rank_of(card),
                (self.rank_count@[rank_of(card)] + 1) as usize,
            );
            lemma_sum_update(
                self.suit_count@,
                suit_of(card),
                (self.suit_count@[suit_of(card)] + 1) as usize,
            );
        }
        let r = card.rank().id;
        let s = card.suit().id;
        self.rank_count[r] = self.rank_count[r] + 1;
        self.suit_count[s] = self.suit_count[s] + 1;
    }

    /// Adds every card of the hand to the histograms.
    pub fn insert_hand<const N: usize>(&mut self, hand: &Hand<N>)
        requires
            hand.wf(),
            sum_counts(old(self).rank_count@) + N <= usize::MAX,
            sum_counts(old(self).suit_count@) + N <= usize::MAX,
        ensures
            forall|r: int| 0 <= r < NUM_RANKS ==> final(self).rank_count@[r] == old(
                self,
            ).rank_count@[r] + count_rank(hand.cards@, r),
            forall|s: int| 0 <= s < NUM_SUITS ==> final(self).suit_count@[s] == old(
                self,
            ).suit_count@[s] + count_suit(hand.cards@, s),
            sum_counts(final(self).rank_count@) == sum_counts(old(self).rank_count@) + N,
            sum_counts(final(self).suit_count@) == sum_counts(old(self).suit_count@) + N,
    {
        for i in 0..N
            invariant
                hand.wf(),
                sum_counts(old(self).rank_count@) + N <= usize::MAX,
                sum_counts(old(self).suit_count@) + N <= usize::MAX,
                sum_counts(self.rank_count@) == sum_counts(old(self).rank_count@) + i,
                sum_counts(self.suit_count@) == sum_counts(old(self).suit_count@) + i,
                forall|r: int| 0 <= r < NUM_RANKS ==> self.rank_count@[r] == old(
                    self,
                ).rank_count@[r] + count_rank(hand.cards@.take(i as int), r),
                forall|s: int| 0 <= s < NUM_SUITS ==> self.suit_count@[s] == old(
                    self,
                ).suit_count@[s] + count_suit(hand.cards@.take(i as int), s),
        {
            let card = hand.cards[i];
            proof {
                lemma_elem_le_sum(self.rank_count@, rank_of(card));
                lemma_elem_le_sum(self.suit_count@, suit_of(card));
                assert(hand.cards@.take(i + 1).drop_last() =~= hand.cards@.take(i as int));
            }
            self.insert(card);
        }
        proof {
            assert(hand.cards@.take(N as int) =~= hand.cards@);
        }
    }

    /// The number of cards summed into the histograms: the total of the suit
    /// bins.
    pub fn count_cards(&self) -> (count: usize)
        requires
            sum_counts(self.suit_count@) <= usize::MAX,
        ensures
            count == sum_counts(self.suit_count@),
    {
        let mut count: usize = 0;
        for i in 0..NUM_SUITS
            invariant
                sum_counts(self.suit_count@) <= usize::MAX,
                count == sum_counts(self.suit_count@.take(i as int)),
        {
            proof {
                lemma_sum_nonneg(self.suit_count@.take(i as int));
                lemma_sum_take_le(self.suit_count@, i + 1);
                assert(self.suit_count@.take(i + 1).drop_last() =~= self.suit_count@.take(i as int));
            }
            count = count + self.suit_count[i];
        }
        proof {
            assert(self.suit_count@.take(NUM_SUITS as int) =~= self.suit_count@);
        }
        count
    }
}

/// True exactly when the cards of the hand are pairwise distinct.
pub fn cards_are_unique<const N: usize>(hand: &Hand<N>) -> (unique: bool)
    ensures
        unique == crate::hand::distinct_cards(hand.cards@),
{
    crate::hand::cards_are_unique(hand)
}

} // verus!
