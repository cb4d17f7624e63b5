//! Running per-category counters over many sampled hands, and the
//! partition/merge arithmetic of the multi-worker sampling driver.

use vstd::prelude::*;

verus! {

use crate::card::NUM_CARDS;
use crate::hand::Hand;
use crate::hand_score::{classify, HandData, HandScore};
use crate::hand_stats::HandStats;

/// Per-category counters summed over many classified hands. `high_card` is
/// incremented by every insertion, so it doubles as the number of samples
/// seen; every other counter can never exceed it.
#[derive(PartialEq, Eq, Structural, Debug, Clone, Copy)]
pub struct AggregateScore {
    pub high_card: u32,
    pub pair: u32,
    pub two_pair: u32,
    pub three_of_a_kind: u32,
    pub straight: u32,
    pub flush: u32,
    pub full_house: u32,
    pub four_of_a_kind: u32,
    pub straight_flush: u32,
}

/// The mathematical shadow of an [`AggregateScore`]: one unbounded integer
/// total per category.
pub struct ScoreCounts {
    pub high_card: int,
    pub pair: int,
    pub two_pair: int,
    pub three_of_a_kind: int,
    pub straight: int,
    pub flush: int,
    pub full_house: int,
    pub four_of_a_kind: int,
    pub straight_flush: int,
}

impl View for AggregateScore {
    type V = ScoreCounts;

    open spec fn view(&self) -> ScoreCounts {
        ScoreCounts {
            high_card: self.high_card as int,
            pair: self.pair as int,
            two_pair: self.two_pair as int,
            three_of_a_kind: self.three_of_a_kind as int,
            straight: self.straight as int,
            flush: self.flush as int,
            full_house: self.full_house as int,
            four_of_a_kind: self.four_of_a_kind as int,
            straight_flush: self.straight_flush as int,
        }
    }
}

/// The tally of a single flag record.
pub open spec fn score_counts(score: HandData) -> ScoreCounts {
    ScoreCounts {
        high_card: score.high_card as int,
        pair: score.pair as int,
        two_pair: score.two_pair as int,
        three_of_a_kind: score.three_of_a_kind as int,
        straight: score.straight as int,
        flush: score.flush as int,
        full_house: score.full_house as int,
        four_of_a_kind: score.four_of_a_kind as int,
        straight_flush: score.straight_flush as int,
    }
}

/// The empty tally.
pub open spec fn zero_counts() -> ScoreCounts {
    ScoreCounts {
        high_card: 0,
        pair: 0,
        two_pair: 0,
        three_of_a_kind: 0,
        straight: 0,
        flush: 0,
        full_house: 0,
        four_of_a_kind: 0,
        straight_flush: 0,
    }
}

/// Field-wise addition of tallies.
pub open spec fn counts_add(a: ScoreCounts, b: ScoreCounts) -> ScoreCounts {
    ScoreCounts {
        high_card: a.high_card + b.high_card,
        pair: a.pair + b.pair,
        two_pair: a.two_pair + b.two_pair,
        three_of_a_kind: a.three_of_a_kind + b.three_of_a_kind,
        straight: a.straight + b.straight,
        flush: a.flush + b.flush,
        full_house: a.full_house + b.full_house,
        four_of_a_kind: a.four_of_a_kind + b.four_of_a_kind,
        straight_flush: a.straight_flush + b.straight_flush,
    }
}

/// Every total of the tally fits in a 32-bit counter.
pub open spec fn fits_u32(c: ScoreCounts) -> bool {
    &&& c.high_card <= u32::MAX
    &&& c.pair <= u32::MAX
    &&& c.two_pair <= u32::MAX
    &&& c.three_of_a_kind <= u32::MAX
    &&& c.straight <= u32::MAX
    &&& c.flush <= u32::MAX
    &&& c.full_house <= u32::MAX
    &&& c.four_of_a_kind <= u32::MAX
    &&& c.straight_flush <= u32::MAX
}

/// The tally of a sequence of flag records, folded in order.
pub open spec fn accumulate(scores: Seq<HandData>) -> ScoreCounts
    decreases scores.len(),
{
    if scores.len() == 0 {
        zero_counts()
    } else {
        counts_add(accumulate(scores.drop_last()), score_counts(scores.last()))
    }
}

impl Default for AggregateScore {
    /// The fresh accumulator: every counter is zero.
    fn default() -> (scores: AggregateScore)
        ensures
            scores@ == zero_counts(),
    {
        AggregateScore {
            high_card: 0,
            pair: 0,
            two_pair: 0,
            three_of_a_kind: 0,
            straight: 0,
            flush: 0,
            full_house: 0,
            four_of_a_kind: 0,
            straight_flush: 0,
        }
    }
}

impl AggregateScore {
    /// Adds one classified hand into the counters: `high_card` grows by the
    /// record's `high_card` entry (1 for every classifier result) and every
    /// other counter by the corresponding flag.
    pub fn insert(&mut self, score: &HandScore)
        requires
            fits_u32(counts_add(old(self)@, score_counts(*score))),
        ensures
            final(self)@ == counts_add(old(self)@, score_counts(*score)),
    {
        self.high_card = self.high_card + score.high_card;
        self.pair = self.pair + score.pair;
        self.two_pair = self.two_pair + score.two_pair;
        self.three_of_a_kind = self.three_of_a_kind + score.three_of_a_kind;
        self.straight = self.straight + score.straight;
        self.flush = self.flush + score.flush;
        self.full_house = self.full_house + score.full_house;
        self.four_of_a_kind = self.four_of_a_kind + score.four_of_a_kind;
        self.straight_flush = self.straight_flush + score.straight_flush;
    }

    /// Merges another accumulator into this one by field-wise addition.
    pub fn merge(&mut self, other: &AggregateScore)
        requires
            fits_u32(counts_add(old(self)@, other@)),
        ensures
            final(self)@ == counts_add(old(self)@, other@),
    {
        self.high_card = self.high_card + other.high_card;
        self.pair = self.pair + other.pair;
        self.two_pair = self.two_pair + other.two_pair;
        self.three_of_a_kind = self.three_of_a_kind + other.three_of_a_kind;
        self.straight = self.straight + other.straight;
        self.flush = self.flush + other.flush;
        self.full_house = self.full_house + other.full_house;
        self.four_of_a_kind = self.four_of_a_kind + other.four_of_a_kind;
        self.straight_flush = self.straight_flush + other.straight_flush;
    }
}

/// Field-wise addition of tallies is commutative, so the order in which two
/// workers' results are merged does not matter.
pub proof fn lemma_counts_add_commutative(a: ScoreCounts, b: ScoreCounts)
    ensures
        counts_add(a, b) == counts_add(b, a),
{
}

/// Field-wise addition of tallies is associative, so any grouping of worker
/// merges yields the same total.
pub proof fn lemma_counts_add_associative(a: ScoreCounts, b: ScoreCounts, c: ScoreCounts)
    ensures
        counts_add(counts_add(a, b), c) == counts_add(a, counts_add(b, c)),
{
}

/// Folding records into a fresh accumulator counts every record exactly once:
/// after `M` insertions of classifier results, `high_card` equals `M`.
pub proof fn lemma_accumulate_high_card(scores: Seq<HandData>)
    requires
        forall|i: int| 0 <= i < scores.len() ==> scores[i].high_card == 1,
    ensures
        accumulate(scores).high_card == scores.len(),
    decreases scores.len(),
{
    if scores.len() > 0 {
        lemma_accumulate_high_card(scores.drop_last());
    }
}

/// No category can outgrow the sample count: folding records whose flags are
/// at most 1 keeps every counter at most the length of the fold.
pub proof fn lemma_accumulate_bounded(scores: Seq<HandData>)
    requires
        forall|i: int| 0 <= i < scores.len() ==> {
            &&& (#[trigger] scores[i]).high_card <= 1
            &&& scores[i].pair <= 1
            &&& scores[i].two_pair <= 1
            &&& scores[i].three_of_a_kind <= 1
            &&& scores[i].straight <= 1
            &&& scores[i].flush <= 1
            &&& scores[i].full_house <= 1
            &&& scores[i].four_of_a_kind <= 1
            &&& scores[i].straight_flush <= 1
        },
    ensures
        accumulate(scores).high_card <= scores.len(),
        accumulate(scores).pair <= scores.len(),
        accumulate(scores).two_pair <= scores.len(),
        accumulate(scores).three_of_a_kind <= scores.len(),
        accumulate(scores).straight <= scores.len(),
        accumulate(scores).flush <= scores.len(),
        accumulate(scores).full_house <= scores.len(),
        accumulate(scores).four_of_a_kind <= scores.len(),
        accumulate(scores).straight_flush <= scores.len(),
    decreases scores.len(),
{
    if scores.len() > 0 {
        lemma_accumulate_bounded(scores.drop_last());
    }
}

/// Samples `num_samples` hands of `N_HAND` cards with the given random
/// source, classifies each, and folds the scores into one accumulator. Every
/// sample bumps `high_card`, so the result reports exactly `num_samples`
/// samples, and no category counter can exceed that total.
pub fn sample_aggregate_scores<const N_HAND: usize>(
    rng: &mut rand::rngs::StdRng,
    num_samples: u32,
) -> (scores: AggregateScore)
    requires
        N_HAND <= NUM_CARDS,
    ensures
        scores.high_card == num_samples,
        scores.pair <= num_samples,
        scores.two_pair <= num_samples,
        scores.three_of_a_kind <= num_samples,
        scores.straight <= num_samples,
        scores.flush <= num_samples,
        scores.full_house <= num_samples,
        scores.four_of_a_kind <= num_samples,
        scores.straight_flush <= num_samples,
{
    let mut scores: AggregateScore = Default::default();
    for i in 0..num_samples
        invariant
            N_HAND <= NUM_CARDS,
            scores.high_card == i,
            scores.pair <= i,
            scores.two_pair <= i,
            scores.three_of_a_kind <= i,
            scores.straight <= i,
            scores.flush <= i,
            scores.full_house <= i,
            scores.four_of_a_kind <= i,
            scores.straight_flush <= i,
    {
        let hand = Hand::<N_HAND>::draw(rng);
        let hand_stats = HandStats::new(&hand);
        let score = classify(&hand_stats);
        scores.insert(&score);
    }
    scores
}

/// The total of a sequence of per-worker shares.
pub open spec fn sum_shares(shares: Seq<u32>) -> int
    decreases shares.len(),
{
    if shares.len() == 0 {
        0
    } else {
        sum_shares(shares.drop_last()) + shares.last()
    }
}

/// Partitions a total sample count into per-worker shares: every worker
/// receives `num_samples / num_threads` samples and, when the division leaves
/// a remainder, one extra share at the end carries it. No sample is dropped
/// or double-counted: the shares always sum to `num_samples`.
pub fn partition_samples(num_samples: u32, num_threads: u32) -> (shares: Vec<u32>)
    requires
        num_threads >= 1,
    ensures
        sum_shares(shares@) == num_samples,
        forall|i: int| 0 <= i < shares@.len() ==> shares@[i] <= num_samples,
        shares@.len() == num_threads as int + if num_samples % num_threads == 0 {
            0int
        } else {
            1int
        },
        forall|i: int| 0 <= i < num_threads ==> shares@[i] == num_samples as int / num_threads
            as int,
        num_samples % num_threads != 0 ==> shares@[shares@.len() - 1] == num_samples as int
            % num_threads as int,
{
    let num_samples_per_thread = num_samples / num_threads;
    let num_samples_remainder = num_samples % num_threads;
    proof {
        vstd::arithmetic::div_mod::lemma_fundamental_div_mod(
            num_samples as int,
            num_threads as int,
        );
        assert(num_threads as int * (num_samples_per_thread as int) >= num_samples_per_thread
            as int) by (nonlinear_arith)
            requires
                num_threads >= 1,
                num_samples_per_thread >= 0,
        ;
        assert(num_threads as int * (num_samples_per_thread as int) >= 0) by (nonlinear_arith)
            requires
                num_threads >= 0,
                num_samples_per_thread >= 0,
        ;
    }
    let mut shares: Vec<u32> = Vec::new();
    for i in 0..num_threads
        invariant
            num_samples_per_thread == num_samples as int / num_threads as int,
            num_samples_per_thread <= num_samples,
            shares@.len() == i,
            forall|k: int| 0 <= k < i ==> shares@[k] == num_samples_per_thread,
            sum_shares(shares@) == i * num_samples_per_thread,
    {
        let ghost prefix = shares@;
        shares.push(num_samples_per_thread);
        proof {
            assert(shares@.drop_last() =~= prefix);
            assert((i + 1) * num_samples_per_thread == i * num_samples_per_thread
                + num_samples_per_thread) by (nonlinear_arith);
        }
    }
    proof {
        vstd::arithmetic::div_mod::lemma_fundamental_div_mod(
            num_samples as int,
            num_threads as int,
        );
        assert(num_threads as int * (num_samples_per_thread as int) == num_samples_per_thread
            as int * num_threads as int) by (nonlinear_arith);
    }
    if num_samples_remainder > 0 {
        let ghost prefix = shares@;
        shares.push(num_samples_remainder);
        proof {
            assert(shares@.drop_last() =~= prefix);
        }
    }
    shares
}

/// The grand tally of a sequence of per-worker accumulators.
pub open spec fn total_counts(aggs: Seq<AggregateScore>) -> ScoreCounts
    decreases aggs.len(),
{
    if aggs.len() == 0 {
        zero_counts()
    } else {
        counts_add(total_counts(aggs.drop_last()), aggs.last()@)
    }
}

/// No total of a tally of accumulators is negative.
proof fn lemma_total_counts_nonneg(aggs: Seq<AggregateScore>)
    ensures
        total_counts(aggs).high_card >= 0,
        total_counts(aggs).pair >= 0,
        total_counts(aggs).two_pair >= 0,
        total_counts(aggs).three_of_a_kind >= 0,
        total_counts(aggs).straight >= 0,
        total_counts(aggs).flush >= 0,
        total_counts(aggs).full_house >= 0,
        total_counts(aggs).four_of_a_kind >= 0,
        total_counts(aggs).straight_flush >= 0,
    decreases aggs.len(),
{
    if aggs.len() > 0 {
        lemma_total_counts_nonneg(aggs.drop_last());
    }
}

/// Extending a prefix tally by one accumulator adds that accumulator's
/// counters.
proof fn lemma_total_counts_take_step(aggs: Seq<AggregateScore>, i: int)
    requires
        0 <= i < aggs.len(),
    ensures
        total_counts(aggs.take(i + 1)) == counts_add(total_counts(aggs.take(i)), aggs[i]@),
{
    assert(aggs.take(i + 1).drop_last() =~= aggs.take(i));
    assert(aggs.take(i + 1).last() == aggs[i]);
}

/// A prefix tally never exceeds the grand tally in any category.
proof fn lemma_total_counts_take_le(aggs: Seq<AggregateScore>, i: int)
    requires
        0 <= i <= aggs.len(),
    ensures
        total_counts(aggs.take(i)).high_card <= total_counts(aggs).high_card,
        total_counts(aggs.take(i)).pair <= total_counts(aggs).pair,
        total_counts(aggs.take(i)).two_pair <= total_counts(aggs).two_pair,
        total_counts(aggs.take(i)).three_of_a_kind <= total_counts(aggs).three_of_a_kind,
        total_counts(aggs.take(i)).straight <= total_counts(aggs).straight,
        total_counts(aggs.take(i)).flush <= total_counts(aggs).flush,
        total_counts(aggs.take(i)).full_house <= total_counts(aggs).full_house,
        total_counts(aggs.take(i)).four_of_a_kind <= total_counts(aggs).four_of_a_kind,
        total_counts(aggs.take(i)).straight_flush <= total_counts(aggs).straight_flush,
    decreases aggs.len() - i,
{
    if i == aggs.len() {
        assert(aggs.take(i) =~= aggs);
    } else {
        lemma_total_counts_take_step(aggs, i);
        lemma_total_counts_take_le(aggs, i + 1);
    }
}

/// Merges the local accumulators of all workers, field-wise, into one final
/// accumulator: the merge phase of a parallel sampling run.
pub fn merge_aggregate_scores(locals: &Vec<AggregateScore>) -> (total: AggregateScore)
    requires
        fits_u32(total_counts(locals@)),
    ensures
        total@ == total_counts(locals@),
{
    let mut total: AggregateScore = Default::default();
    for i in 0..locals.len()
        invariant
            fits_u32(total_counts(locals@)),
            total@ == total_counts(locals@.take(i as int)),
    {
        proof {
            lemma_total_counts_take_step(locals@, i as int);
            lemma_total_counts_take_le(locals@, i + 1);
            lemma_total_counts_nonneg(locals@.take(i as int));
        }
        let local = locals[i];
        total.merge(&local);
    }
    proof {
        assert(locals@.take(locals@.len() as int) =~= locals@);
    }
    total
}

/// Splitting the samples over two workers loses nothing: the fold of two
/// partitions merged together equals the fold of the whole sequence, so a
/// partitioned run and a single-pass run over the same hands agree field by
/// field.
pub proof fn lemma_accumulate_append(first: Seq<HandData>, second: Seq<HandData>)
    ensures
        accumulate(first + second) == counts_add(accumulate(first), accumulate(second)),
    decreases second.len(),
{
    if second.len() == 0 {
        assert(first + second =~= first);
    } else {
        assert((first + second).drop_last() =~= first + second.drop_last());
        lemma_accumulate_append(first, second.drop_last());
        assert((first + second).last() == second.last());
    }
}

} // verus!
