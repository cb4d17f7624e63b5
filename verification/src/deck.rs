//! The standard 52-card deck, with lookup of cards by display name.

use vstd::prelude::*;
use vstd::string::StrSliceExecFns;

verus! {

use crate::card::{card_name, Card, Rank, Suit};
use crate::card::{NUM_CARDS, NUM_RANKS, NUM_SUITS};
use crate::hand::Hand;

/// The rank encoded by a display character, or -1 when no rank uses it.
pub open spec fn rank_index_of_char(c: char) -> int {
    if c == 'A' {
        0
    } else if c == '2' {
        1
    } else if c == '3' {
        2
    } else if c == '4' {
        3
    } else if c == '5' {
        4
    } else if c == '6' {
        5
    } else if c == '7' {
        6
    } else if c == '8' {
        7
    } else if c == '9' {
        8
    } else if c == 'T' {
        9
    } else if c == 'J' {
        10
    } else if c == 'Q' {
        11
    } else if c == 'K' {
        12
    } else {
        -1
    }
}

/// The suit encoded by a display glyph, or -1 when no suit uses it.
pub open spec fn suit_index_of_char(c: char) -> int {
    if c == '♣' {
        0
    } else if c == '♦' {
        1
    } else if c == '♥' {
        2
    } else if c == '♠' {
        3
    } else {
        -1
    }
}

/// The card identity that a display name denotes, or -1 when the name is not
/// a rank character followed by a suit glyph.
pub open spec fn name_to_id(name: Seq<char>) -> int {
    if name.len() == 2 && rank_index_of_char(name[0]) >= 0 && suit_index_of_char(name[1]) >= 0 {
        rank_index_of_char(name[0]) * 4 + suit_index_of_char(name[1])
    } else {
        -1
    }
}

/// Display names identify cards faithfully: the name of any card of the deck
/// denotes exactly that card, so formatting and lookup are inverses.
pub proof fn lemma_card_name_round_trip(id: int)
    requires
        0 <= id < NUM_CARDS,
    ensures
        name_to_id(card_name(id)) == id,
{
}

/// The cards that a sequence of display names denotes, position by position.
pub open spec fn cards_of_names(names: Seq<&str>) -> Seq<Card> {
    Seq::new(names.len(), |i: int| Card { id: name_to_id(names[i]@) as usize })
}

/// The rank that a display character denotes, if any.
fn char_to_rank(c: char) -> (rank: Option<usize>)
    ensures
        match rank {
            Some(r) => r == rank_index_of_char(c) && r < NUM_RANKS,
            None => rank_index_of_char(c) == -1,
        },
{
    if c == 'A' {
        Some(0)
    } else if c == '2' {
        Some(1)
    } else if c == '3' {
        Some(2)
    } else if c == '4' {
        Some(3)
    } else if c == '5' {
        Some(4)
    } else if c == '6' {
        Some(5)
    } else if c == '7' {
        Some(6)
    } else if c == '8' {
        Some(7)
    } else if c == '9' {
        Some(8)
    } else if c == 'T' {
        Some(9)
    } else if c == 'J' {
        Some(10)
    } else if c == 'Q' {
        Some(11)
    } else if c == 'K' {
        Some(12)
    } else {
        None
    }
}

/// The suit that a display glyph denotes, if any.
fn char_to_suit(c: char) -> (suit: Option<usize>)
    ensures
        match suit {
            Some(s) => s == suit_index_of_char(c) && s < NUM_SUITS,
            None => suit_index_of_char(c) == -1,
        },
{
    if c == '♣' {
        Some(0)
    } else if c == '♦' {
        Some(1)
    } else if c == '♥' {
        Some(2)
    } else if c == '♠' {
        Some(3)
    } else {
        None
    }
}

/// A standard deck with every suit and rank present exactly once, ordered by
/// card identity. Its primary use is looking cards up by display name.
pub struct Deck {
    cards: Vec<Card>,
}

impl Deck {
    /// The deck holds the 52 cards in identity order.
    pub closed spec fn wf(self) -> bool {
        self.cards@.len() == NUM_CARDS && forall|i: int|
            0 <= i < NUM_CARDS ==> (#[trigger] self.cards@[i]).id == i
    }

    /// Builds the standard deck, one card for every rank and suit.
    pub fn new() -> (deck: Deck)
        ensures
            deck.wf(),
    {
        let mut cards: Vec<Card> = Vec::new();
        for rank_id in 0..NUM_RANKS
            invariant
                cards@.len() == rank_id * 4,
                forall|i: int| 0 <= i < cards@.len() ==> (#[trigger] cards@[i]).id == i,
        {
            for suit_id in 0..NUM_SUITS
                invariant
                    rank_id < NUM_RANKS,
                    cards@.len() == rank_id * 4 + suit_id,
                    forall|i: int| 0 <= i < cards@.len() ==> (#[trigger] cards@[i]).id == i,
            {
                let rank = Rank { id: rank_id };
                let suit = Suit { id: suit_id };
                let card = Card::new(&rank, &suit);
                cards.push(card);
            }
        }
        Deck { cards }
    }

    /// Looks a card up by its display name: a rank character followed by a
    /// suit glyph. Returns the denoted card, or nothing for any other
    /// string.
    pub fn draw_card(&self, card_name: &str) -> (card: Option<&Card>)
        requires
            self.wf(),
        ensures
            match card {
                Some(c) => c.id == name_to_id(card_name@) && 0 <= name_to_id(card_name@)
                    < NUM_CARDS,
                None => name_to_id(card_name@) == -1,
            },
    {
        if card_name.unicode_len() != 2 {
            return None;
        }
        let rank_c = card_name.get_char(0);
        let suit_c = card_name.get_char(1);
        match (char_to_rank(rank_c), char_to_suit(suit_c)) {
            (Some(r), Some(s)) => {
                let id = r * 4 + s;
                Some(&self.cards[id])
            },
            _ => None,
        }
    }

    /// Looks up every name of a hand-sized list: returns the hand made of the
    /// denoted cards, in order, or nothing as soon as any name denotes no
    /// card.
    pub fn draw_hand<const N: usize>(&self, card_names: &[&str; N]) -> (hand: Option<Hand<N>>)
        requires
            self.wf(),
        ensures
            match hand {
                Some(h) => h.wf() && forall|i: int|
                    0 <= i < N ==> 0 <= name_to_id((#[trigger] card_names@[i])@)
                        && h.cards@[i].id == name_to_id(card_names@[i]@),
                None => exists|i: int|
                    0 <= i < N && name_to_id((#[trigger] card_names@[i])@) == -1,
            },
    {
        let mut cards: [Card; N] = [Card { id: 0 }; N];
        for i in 0..N
            invariant
                self.wf(),
                forall|k: int|
                    0 <= k < i ==> 0 <= name_to_id((#[trigger] card_names@[k])@) < NUM_CARDS
                        && cards@[k].id == name_to_id(card_names@[k]@),
        {
            match self.draw_card(card_names[i]) {
                Some(card) => {
                    cards[i] = *card;
                },
                None => {
                    return None;
                },
            }
        }
        proof {
            assert forall|i: int| 0 <= i < N implies (#[trigger] cards@[i]).id < NUM_CARDS by {
                assert(0 <= name_to_id(card_names@[i]@) < NUM_CARDS);
            }
        }
        Some(Hand { cards })
    }
}


} // verus!
