use poker_stats::deck::Deck;

#[test]
fn draw_card_by_name_test() {
    let deck = Deck::new();
    for card_name in vec!["A♦", "5♥", "Q♠", "2♣"]
        .into_iter()
        .map(|name_slice| String::from(name_slice))
    {
        assert_eq!(deck.draw_card(&card_name).unwrap().name(), card_name);
    }
}

#[test]
fn draw_card_rejects_other_strings() {
    let deck = Deck::new();
    assert!(deck.draw_card("").is_none());
    assert!(deck.draw_card("A").is_none());
    assert!(deck.draw_card("A♦x").is_none());
    assert!(deck.draw_card("Z♦").is_none());
    assert!(deck.draw_card("AX").is_none());
    assert!(deck.draw_card("♦A").is_none());
}

#[test]
fn draw_hand_requires_every_name_to_parse() {
    let deck = Deck::new();
    let hand = deck.draw_hand(&["A♦", "5♥", "Q♠", "2♣", "T♥"]).unwrap();
    let ids: Vec<usize> = hand.cards.iter().map(|card| card.id).collect();
    assert_eq!(ids, vec![1, 18, 47, 4, 38]);
    assert!(deck.draw_hand(&["A♦", "5♥", "Q♠", "2♣", "T"]).is_none());
}
