use poker_stats::aggregate_score::{
    merge_aggregate_scores, partition_samples, sample_aggregate_scores, AggregateScore,
};
use poker_stats::hand::Hand;
use poker_stats::hand_score::{classify_hand, HandScore};
use rand::rngs::StdRng;
use rand::SeedableRng;
use rayon::iter::{IntoParallelIterator, ParallelIterator};

#[test]
fn basic_operation() {
    let mut scores = AggregateScore::default();

    scores.insert(&HandScore {
        high_card: true as u32,
        pair: true as u32,
        two_pair: true as u32,
        ..Default::default()
    });

    scores.insert(&HandScore {
        high_card: true as u32,
        pair: true as u32,
        three_of_a_kind: true as u32,
        full_house: true as u32,
        ..Default::default()
    });

    assert_eq!(
        scores,
        AggregateScore {
            high_card: 2,
            pair: 2,
            two_pair: 1,
            three_of_a_kind: 1,
            full_house: 1,
            ..Default::default()
        }
    );

    println!("{scores:?}")
}

#[test]
fn inserting_m_scores_counts_m_samples() {
    let mut rng = StdRng::seed_from_u64(99);
    let mut scores = AggregateScore::default();
    let m = 137;
    for _ in 0..m {
        let hand = Hand::<5>::draw(&mut rng);
        scores.insert(&classify_hand(&hand));
    }
    assert_eq!(scores.high_card, m);
    assert!(scores.pair <= m);
    assert!(scores.two_pair <= m);
    assert!(scores.three_of_a_kind <= m);
    assert!(scores.straight <= m);
    assert!(scores.flush <= m);
    assert!(scores.full_house <= m);
    assert!(scores.four_of_a_kind <= m);
    assert!(scores.straight_flush <= m);
}

#[test]
fn merging_partitions_matches_a_single_pass() {
    // The same 200 hands, accumulated once in a single pass and once as two
    // disjoint partitions merged afterwards: the results agree field by
    // field.
    let mut rng = StdRng::seed_from_u64(2024);
    let hand_scores: Vec<HandScore> = (0..200)
        .map(|_| classify_hand(&Hand::<5>::draw(&mut rng)))
        .collect();

    let mut single_pass = AggregateScore::default();
    for score in hand_scores.iter() {
        single_pass.insert(score);
    }

    let mut first_half = AggregateScore::default();
    for score in hand_scores[..100].iter() {
        first_half.insert(score);
    }
    let mut second_half = AggregateScore::default();
    for score in hand_scores[100..].iter() {
        second_half.insert(score);
    }
    let mut merged = first_half;
    merged.merge(&second_half);

    assert_eq!(merged, single_pass);

    // Merging in the other order agrees as well: the merge is commutative.
    let mut merged_swapped = second_half;
    merged_swapped.merge(&first_half);
    assert_eq!(merged_swapped, single_pass);
}

#[test]
fn partitions_always_sum_to_the_sample_count() {
    assert_eq!(partition_samples(12, 4), vec![3, 3, 3, 3]);
    assert_eq!(partition_samples(10, 4), vec![2, 2, 2, 2, 2]);
    assert_eq!(partition_samples(7, 1), vec![7]);
    assert_eq!(partition_samples(3, 8), vec![0, 0, 0, 0, 0, 0, 0, 0, 3]);
    assert_eq!(partition_samples(0, 2), vec![0, 0]);
}

#[test]
fn parallel_sampling_counts_every_sample() {
    // 20000 hands of size 5 spread over 4 workers: the merged accumulator
    // reports exactly 20000 samples and no category outgrows that.
    let total_samples = 20000;
    let shares = partition_samples(total_samples, 4);
    let locals: Vec<AggregateScore> = shares
        .into_par_iter()
        .map(|share| {
            let mut rng = StdRng::from_entropy();
            sample_aggregate_scores::<5>(&mut rng, share)
        })
        .collect();
    let total = merge_aggregate_scores(&locals);
    assert_eq!(total.high_card, total_samples);
    assert!(total.pair <= total_samples);
    assert!(total.two_pair <= total_samples);
    assert!(total.three_of_a_kind <= total_samples);
    assert!(total.straight <= total_samples);
    assert!(total.flush <= total_samples);
    assert!(total.full_house <= total_samples);
    assert!(total.four_of_a_kind <= total_samples);
    assert!(total.straight_flush <= total_samples);
}

#[test]
fn sequential_sampling_counts_every_sample() {
    let mut rng = StdRng::seed_from_u64(5);
    let scores = sample_aggregate_scores::<7>(&mut rng, 500);
    assert_eq!(scores.high_card, 500);
    assert!(scores.pair <= 500);
    assert!(scores.flush <= 500);
}

#[test]
fn merging_no_workers_reports_no_samples() {
    let locals: Vec<AggregateScore> = Vec::new();
    let total = merge_aggregate_scores(&locals);
    assert_eq!(total, AggregateScore::default());
}
