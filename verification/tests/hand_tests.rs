use poker_stats::hand::{cards_are_unique, Hand};
use rand::rngs::StdRng;
use rand::SeedableRng;

/// Ensure that cards within a single hand are unique.
#[test]
fn unique_cards_in_randomly_drawn_hand_test() {
    let mut rng = StdRng::seed_from_u64(15234202);

    for _ in 0..800 {
        let hand = Hand::<7>::draw(&mut rng);
        assert!(cards_are_unique(&hand));
        let hand = Hand::<5>::draw(&mut rng);
        assert!(cards_are_unique(&hand));
    }
}

#[test]
fn consecutive_draws_consume_the_random_source() {
    let mut rng = StdRng::seed_from_u64(1);
    let first = Hand::<5>::draw(&mut rng);
    let second = Hand::<5>::draw(&mut rng);
    assert_ne!(first, second);
}

#[test]
fn full_deck_draw_uses_every_card() {
    let mut rng = StdRng::seed_from_u64(3);
    let hand = Hand::<52>::draw(&mut rng);
    assert!(cards_are_unique(&hand));
    let mut seen = [false; 52];
    for card in hand.cards.iter() {
        seen[card.id] = true;
    }
    assert!(seen.iter().all(|flag| *flag));
}
