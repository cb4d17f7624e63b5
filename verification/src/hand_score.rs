//! The hand classifier: turns rank/suit histograms into boolean category
//! flags, one per poker-hand category.

use vstd::prelude::*;

verus! {

use crate::card::{NUM_RANKS, NUM_SUITS};
use crate::deck::{cards_of_names, name_to_id, Deck};
use crate::hand::Hand;
use crate::hand_stats::HandStats;
use crate::hand_stats::{lemma_count_rank_bounds, lemma_count_suit_bounds};
use crate::hand_stats::{rank_histogram, suit_histogram};

/// A flat record with one flag (0 or 1) per poker-hand category.
/// `high_card` is always 1: every hand has a high card.
#[derive(PartialEq, Eq, Structural, Debug, Clone, Copy)]
pub struct HandData {
    pub high_card: u32,
    pub pair: u32,
    pub two_pair: u32,
    pub three_of_a_kind: u32,
    pub straight: u32,
    pub flush: u32,
    pub full_house: u32,
    pub four_of_a_kind: u32,
    pub straight_flush: u32,
}

pub type HandScore = HandData;

impl Default for HandData {
    /// The all-zero record: no category detected yet.
    fn default() -> (score: HandData)
        ensures
            score == (HandData {
                high_card: 0u32,
                pair: 0u32,
                two_pair: 0u32,
                three_of_a_kind: 0u32,
                straight: 0u32,
                flush: 0u32,
                full_house: 0u32,
                four_of_a_kind: 0u32,
                straight_flush: 0u32,
            }),
    {
        HandData {
            high_card: 0,
            pair: 0,
            two_pair: 0,
            three_of_a_kind: 0,
            straight: 0,
            flush: 0,
            full_house: 0,
            four_of_a_kind: 0,
            straight_flush: 0,
        }
    }
}

/// 1 for a detected category, 0 otherwise.
pub open spec fn flag(b: bool) -> u32 {
    if b {
        1u32
    } else {
        0u32
    }
}

/// Some suit holds five or more cards.
pub open spec fn flush_spec(suits: Seq<usize>) -> bool {
    exists|s: int| 0 <= s < suits.len() && suits[s] >= 5
}

/// Every rank bin below `f` is empty.
pub open spec fn zeros_before(ranks: Seq<usize>, f: int) -> bool {
    forall|i: int| 0 <= i < f ==> ranks[i] == 0
}

/// The five rank bins starting at `f` are all occupied.
pub open spec fn run_of_five_at(ranks: Seq<usize>, f: int) -> bool {
    forall|i: int| f <= i < f + 5 ==> ranks[i] > 0
}

/// The first occupied rank bin starts a run of at least five occupied bins:
/// the rank-order scan of the histogram reaches a run of five before it meets
/// a gap.
pub open spec fn straight_spec(ranks: Seq<usize>) -> bool {
    exists|f: int|
        0 <= f && f + 5 <= ranks.len() && #[trigger] zeros_before(ranks, f) && run_of_five_at(
            ranks,
            f,
        )
}

/// How many bins of the histogram hold exactly `v` cards.
pub open spec fn count_bins_eq(counts: Seq<usize>, v: int) -> int
    decreases counts.len(),
{
    if counts.len() == 0 {
        0
    } else {
        count_bins_eq(counts.drop_last(), v) + if counts.last() == v {
            1int
        } else {
            0int
        }
    }
}

/// The classification of a pair of histograms, all categories at once.
///
/// The simple multiples come from bins of exactly 2, 3 and 4 cards; the
/// derived corrections then force `four of a kind` down to `three of a kind`
/// and `three of a kind` down to `pair`, while `full house` pairs a 3-bin
/// with a separate 2-bin and `straight flush` is the conjunction of straight
/// and flush.
pub open spec fn classify_spec(ranks: Seq<usize>, suits: Seq<usize>) -> HandData {
    let pair = count_bins_eq(ranks, 2) >= 1;
    let two_pair = count_bins_eq(ranks, 2) >= 2;
    let three = count_bins_eq(ranks, 3) >= 1;
    let four = count_bins_eq(ranks, 4) >= 1;
    let straight = straight_spec(ranks);
    let flush = flush_spec(suits);
    HandData {
        high_card: 1u32,
        pair: flag(pair || three || four),
        two_pair: flag(two_pair),
        three_of_a_kind: flag(three || four),
        straight: flag(straight),
        flush: flag(flush),
        full_house: flag(pair && three),
        four_of_a_kind: flag(four),
        straight_flush: flag(straight && flush),
    }
}

/// A bin count is never negative.
proof fn lemma_count_bins_eq_nonneg(counts: Seq<usize>, v: int)
    ensures
        count_bins_eq(counts, v) >= 0,
    decreases counts.len(),
{
    if counts.len() > 0 {
        lemma_count_bins_eq_nonneg(counts.drop_last(), v);
    }
}

/// True exactly when some suit holds at least five cards.
pub fn is_flush(hand_stats: &HandStats) -> (b: bool)
    ensures
        b == flush_spec(hand_stats.suit_count@),
{
    for idx in 0..NUM_SUITS
        invariant
            forall|s: int| 0 <= s < idx ==> hand_stats.suit_count@[s] < 5,
    {
        if hand_stats.suit_count[idx] >= 5 {
            proof {
                assert(hand_stats.suit_count@[idx as int] >= 5);
            }
            return true;
        }
    }
    false
}

/// True exactly when the rank histogram holds a straight: scanning the bins
/// in rank order (ace low), the run of occupied bins that starts at the first
/// occupied bin reaches length five before any gap. A bin with several cards
/// of one rank still counts as a single step of the run.
pub fn is_straight(hand_stats: &HandStats) -> (b: bool)
    ensures
        b == straight_spec(hand_stats.rank_count@),
{
    let ghost ranks = hand_stats.rank_count@;
    let mut cards_in_straight: usize = 0;
    for idx in 0..NUM_RANKS
        invariant
            ranks == hand_stats.rank_count@,
            cards_in_straight <= idx,
            cards_in_straight < 5,
            cards_in_straight == 0 ==> zeros_before(ranks, idx as int),
            cards_in_straight > 0 ==> zeros_before(ranks, idx - cards_in_straight) && (forall|
                i: int,
            |
                idx - cards_in_straight <= i < idx ==> ranks[i] > 0),
    {
        if hand_stats.rank_count[idx] > 0 {
            cards_in_straight = cards_in_straight + 1;
        } else {
            if cards_in_straight > 0 {
                // A gap right after a run shorter than five: no straight.
                proof {
                    let f0: int = idx - cards_in_straight;
                    if straight_spec(ranks) {
                        let f = choose|f: int|
                            0 <= f && f + 5 <= ranks.len() && #[trigger] zeros_before(ranks, f)
                                && run_of_five_at(ranks, f);
                        assert(ranks[f0] > 0);
                        if f > f0 {
                            assert(ranks[f0] == 0);
                        }
                        if f < f0 {
                            assert(ranks[f] == 0);
                            assert(ranks[f] > 0);
                        }
                        assert(f == f0);
                        assert(ranks[idx as int] > 0);
                    }
                }
                return false;
            }
        }
        if cards_in_straight >= 5 {
            proof {
                let f0 = idx + 1 - 5;
                assert(zeros_before(ranks, f0));
                assert(run_of_five_at(ranks, f0));
            }
            return true;
        }
    }
    proof {
        if straight_spec(ranks) {
            let f = choose|f: int|
                0 <= f && f + 5 <= ranks.len() && #[trigger] zeros_before(ranks, f)
                    && run_of_five_at(ranks, f);
            if cards_in_straight > 0 {
                let f0: int = NUM_RANKS - cards_in_straight;
                assert(ranks[f0] > 0);
                if f > f0 {
                    assert(ranks[f0] == 0);
                }
                if f < f0 {
                    assert(ranks[f] == 0);
                    assert(ranks[f] > 0);
                }
                assert(f == f0);
            } else {
                assert(ranks[f] > 0);
            }
        }
    }
    cards_in_straight >= 5
}

impl HandScore {
    /// Sets the flags that single rank bins witness: a bin of two cards is a
    /// pair (a second one upgrades to two pair), a bin of three is a three of
    /// a kind, a bin of four is a four of a kind.
    fn populate_simple_multiples(&mut self, hand_stats: &HandStats)
        ensures
            final(self).pair == if old(self).pair == 0 && count_bins_eq(
                hand_stats.rank_count@,
                2,
            ) >= 1 {
                1u32
            } else {
                old(self).pair
            },
            final(self).two_pair == if count_bins_eq(hand_stats.rank_count@, 2) + (if old(
                self,
            ).pair != 0 {
                1int
            } else {
                0int
            }) >= 2 {
                1u32
            } else {
                old(self).two_pair
            },
            final(self).three_of_a_kind == if count_bins_eq(hand_stats.rank_count@, 3) >= 1 {
                1u32
            } else {
                old(self).three_of_a_kind
            },
            final(self).four_of_a_kind == if count_bins_eq(hand_stats.rank_count@, 4) >= 1 {
                1u32
            } else {
                old(self).four_of_a_kind
            },
            final(self).high_card == old(self).high_card,
            final(self).straight == old(self).straight,
            final(self).flush == old(self).flush,
            final(self).full_house == old(self).full_house,
            final(self).straight_flush == old(self).straight_flush,
    {
        let ghost orig = *self;
        let ghost ranks = hand_stats.rank_count@;
        for idx in 0..NUM_RANKS
            invariant
                ranks == hand_stats.rank_count@,
                self.pair == if orig.pair == 0 && count_bins_eq(ranks.take(idx as int), 2) >= 1 {
                    1u32
                } else {
                    orig.pair
                },
                self.two_pair == if count_bins_eq(ranks.take(idx as int), 2) + (if orig.pair != 0 {
                    1int
                } else {
                    0int
                }) >= 2 {
                    1u32
                } else {
                    orig.two_pair
                },
                self.three_of_a_kind == if count_bins_eq(ranks.take(idx as int), 3) >= 1 {
                    1u32
                } else {
                    orig.three_of_a_kind
                },
                self.four_of_a_kind == if count_bins_eq(ranks.take(idx as int), 4) >= 1 {
                    1u32
                } else {
                    orig.four_of_a_kind
                },
                self.high_card == orig.high_card,
                self.straight == orig.straight,
                self.flush == orig.flush,
                self.full_house == orig.full_house,
                self.straight_flush == orig.straight_flush,
        {
            proof {
                assert(ranks.take(idx + 1).drop_last() =~= ranks.take(idx as int));
                assert(ranks.take(idx + 1).last() == ranks[idx as int]);
                assert(forall|v: int|
                    #[trigger] count_bins_eq(ranks.take(idx + 1), v) == count_bins_eq(
                        ranks.take(idx as int),
                        v,
                    ) + if ranks[idx as int] == v {
                        1int
                    } else {
                        0int
                    });
                lemma_count_bins_eq_nonneg(ranks.take(idx as int), 2);
                lemma_count_bins_eq_nonneg(ranks.take(idx as int), 3);
                lemma_count_bins_eq_nonneg(ranks.take(idx as int), 4);
            }
            let count = hand_stats.rank_count[idx];
            match count {
                2 => {
                    if self.pair != 0 {
                        self.two_pair = 1;
                    } else {
                        self.pair = 1;
                    }
                },
                3 => self.three_of_a_kind = 1,
                4 => self.four_of_a_kind = 1,
                _ => (),
            }
        }
        proof {
            assert(ranks.take(NUM_RANKS as int) =~= ranks);
        }
    }

    /// Applies the derived corrections: a full house is a pair beside a three
    /// of a kind, a four of a kind implies a three of a kind, a three of a
    /// kind implies a pair, and a straight flush is a straight beside a
    /// flush.
    fn populate_derived_scores(&mut self)
        ensures
            final(self).full_house == flag(old(self).pair != 0 && old(self).three_of_a_kind != 0),
            final(self).three_of_a_kind == if old(self).four_of_a_kind != 0 {
                1u32
            } else {
                old(self).three_of_a_kind
            },
            final(self).pair == if old(self).three_of_a_kind != 0 || old(self).four_of_a_kind
                != 0 {
                1u32
            } else {
                old(self).pair
            },
            final(self).straight_flush == flag(old(self).straight != 0 && old(self).flush != 0),
            final(self).high_card == old(self).high_card,
            final(self).two_pair == old(self).two_pair,
            final(self).straight == old(self).straight,
            final(self).flush == old(self).flush,
            final(self).four_of_a_kind == old(self).four_of_a_kind,
    {
        self.full_house = if self.pair != 0 && self.three_of_a_kind != 0 {
            1
        } else {
            0
        };
        if self.four_of_a_kind != 0 {
            self.three_of_a_kind = 1;
        }
        if self.three_of_a_kind != 0 {
            self.pair = 1;
        }
        self.straight_flush = if self.straight != 0 && self.flush != 0 {
            1
        } else {
            0
        };
    }
}

/// Derives the category flags of a hand from its histograms. The result is a
/// function of the histograms alone, so classification is deterministic; the
/// category implications (four of a kind implies three of a kind implies
/// pair; a straight flush is exactly a straight beside a flush) hold of every
/// result.
pub fn classify(hand_stats: &HandStats) -> (score: HandScore)
    ensures
        score == classify_spec(hand_stats.rank_count@, hand_stats.suit_count@),
        score.high_card == 1,
        score.four_of_a_kind != 0 ==> score.three_of_a_kind != 0,
        score.three_of_a_kind != 0 ==> score.pair != 0,
        score.full_house != 0 ==> score.pair != 0 && score.three_of_a_kind != 0,
        score.straight_flush != 0 <==> score.straight != 0 && score.flush != 0,
{
    let mut hand_scores: HandScore = Default::default();
    hand_scores.high_card = 1;
    hand_scores.flush = if is_flush(hand_stats) {
        1
    } else {
        0
    };
    hand_scores.populate_simple_multiples(hand_stats);
    hand_scores.straight = if is_straight(hand_stats) {
        1
    } else {
        0
    };
    hand_scores.populate_derived_scores();
    hand_scores
}

/// Derives the category flags of a hand directly: sums its histograms and
/// classifies them.
pub fn classify_hand<const N: usize>(hand: &Hand<N>) -> (score: HandScore)
    requires
        hand.wf(),
    ensures
        score == classify_spec(rank_histogram(hand.cards@), suit_histogram(hand.cards@)),
        score.high_card == 1,
{
    let hand_stats = HandStats::new(hand);
    proof {
        assert forall|r: int| 0 <= r < NUM_RANKS implies hand_stats.rank_count@[r]
            == rank_histogram(hand.cards@)[r] by {
            lemma_count_rank_bounds(hand.cards@, r);
        }
        assert(hand_stats.rank_count@ =~= rank_histogram(hand.cards@));
        assert forall|s: int| 0 <= s < NUM_SUITS implies hand_stats.suit_count@[s]
            == suit_histogram(hand.cards@)[s] by {
            lemma_count_suit_bounds(hand.cards@, s);
        }
        assert(hand_stats.suit_count@ =~= suit_histogram(hand.cards@));
    }
    classify(&hand_stats)
}

/// Looks a whole hand up by display names and classifies it: the helper that
/// the scenario tests drive. The names must all denote cards, pairwise
/// distinct ones, as a hand never repeats a card.
pub fn card_names_to_hand_score<const N: usize>(deck: &Deck, cards: &[&str; N]) -> (score:
    HandScore)
    requires
        deck.wf(),
        forall|i: int| 0 <= i < N ==> 0 <= name_to_id((#[trigger] cards@[i])@),
        forall|i: int, j: int| 0 <= i < j < N ==> name_to_id(cards@[i]@) != name_to_id(
            cards@[j]@,
        ),
    ensures
        score == classify_spec(
            rank_histogram(cards_of_names(cards@)),
            suit_histogram(cards_of_names(cards@)),
        ),
{
    let hand_opt = deck.draw_hand(cards);
    proof {
        if hand_opt is None {
            let i = choose|i: int| 0 <= i < N && name_to_id((#[trigger] cards@[i])@) == -1;
            assert(0 <= name_to_id(cards@[i]@));
        }
    }
    let hand = hand_opt.unwrap();
    proof {
        assert(hand.cards@ =~= cards_of_names(cards@));
    }
    classify_hand(&hand)
}

/// Classification is deterministic: one pair of histograms has one
/// classification, so equal statistics always receive equal scores.
pub proof fn lemma_classify_deterministic(
    ranks: Seq<usize>,
    suits: Seq<usize>,
    first: HandData,
    second: HandData,
)
    requires
        first == classify_spec(ranks, suits),
        second == classify_spec(ranks, suits),
    ensures
        first == second,
{
}

} // verus!
