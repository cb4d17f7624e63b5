use poker_stats::card::{Card, Rank, Suit, NUM_CARDS, NUM_RANKS, NUM_SUITS};
use rand::rngs::StdRng;
use rand::SeedableRng;

#[test]
fn card_constructor_from_rank_and_suit_test() {
    for rank_id in 0..NUM_RANKS {
        for suit_id in 0..NUM_SUITS {
            let rank = Rank { id: rank_id };
            let suit = Suit { id: suit_id };
            let card = Card::new(&rank, &suit);
            assert_eq!(card.suit(), suit);
            assert_eq!(card.rank(), rank);
        }
    }
}

#[test]
fn random_cards_stay_in_the_deck() {
    let mut rng = StdRng::seed_from_u64(7);
    for _ in 0..1000 {
        let card = Card::draw_random_card(&mut rng);
        assert!(card.id < NUM_CARDS);
    }
}

#[test]
fn card_names_cover_ranks_and_suits() {
    let expected = [
        "A♣", "A♦", "A♥", "A♠", "2♣", "2♦", "2♥", "2♠", "3♣", "3♦", "3♥", "3♠", "4♣", "4♦", "4♥",
        "4♠", "5♣", "5♦", "5♥", "5♠", "6♣", "6♦", "6♥", "6♠", "7♣", "7♦", "7♥", "7♠", "8♣", "8♦",
        "8♥", "8♠", "9♣", "9♦", "9♥", "9♠", "T♣", "T♦", "T♥", "T♠", "J♣", "J♦", "J♥", "J♠", "Q♣",
        "Q♦", "Q♥", "Q♠", "K♣", "K♦", "K♥", "K♠",
    ];
    for id in 0..NUM_CARDS {
        let card = Card { id };
        assert_eq!(card.name(), expected[id]);
    }
}

#[test]
fn suit_name_falls_back_to_placeholder() {
    let suit = Suit { id: 9 };
    assert_eq!(suit.name(), "?");
}
