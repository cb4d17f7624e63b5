//! Integer-encoded card identities and their rank/suit decomposition.
//!
//! A card is a single integer `id` in `[0, 52)`; `rank = id / 4` lies in
//! `[0, 13)` and `suit = id % 4` lies in `[0, 4)`.

use rand::Rng;
use vstd::prelude::*;
use vstd::string::StringExecFns;

verus! {

/// The display character of a rank: ace, the digits two to nine, then ten,
/// jack, queen and king.
pub open spec fn rank_char(r: int) -> char {
    if r == 0 {
        'A'
    } else if r == 1 {
        '2'
    } else if r == 2 {
        '3'
    } else if r == 3 {
        '4'
    } else if r == 4 {
        '5'
    } else if r == 5 {
        '6'
    } else if r == 6 {
        '7'
    } else if r == 7 {
        '8'
    } else if r == 8 {
        '9'
    } else if r == 9 {
        'T'
    } else if r == 10 {
        'J'
    } else if r == 11 {
        'Q'
    } else {
        'K'
    }
}

/// The display glyph of a suit: clubs, diamonds, hearts, spades.
pub open spec fn suit_char(s: int) -> char {
    if s == 0 {
        '♣'
    } else if s == 1 {
        '♦'
    } else if s == 2 {
        '♥'
    } else {
        '♠'
    }
}

/// The two-character display name of a card: its rank character followed by
/// its suit glyph.
pub open spec fn card_name(id: int) -> Seq<char> {
    seq![rank_char(id / 4), suit_char(id % 4)]
}

/// Declares rand's `StdRng` so a random source can flow through verified
/// signatures; the library never looks inside it.
#[verifier::external_type_specification]
#[verifier::external_body]
pub struct ExStdRng(rand::rngs::StdRng);

/// Relies on rand's `Rng::gen_range` over the half-open range `lo..hi`:
/// it returns a value of the range, and panics only when the range is empty,
/// which the precondition rules out.
#[verifier::external_body]
pub(crate) fn gen_index(rng: &mut rand::rngs::StdRng, lo: usize, hi: usize) -> (r: usize)
    requires
        lo < hi,
    ensures
        lo <= r < hi,
{
    rng.gen_range(lo..hi)
}

/// One of the four suits, represented as an integer in `[0, 4)`.
#[derive(PartialEq, Eq, Structural, PartialOrd, Debug, Copy, Clone, Hash)]
pub struct Suit {
    pub id: usize,
}

/// One of the thirteen ranks (ace low), represented as an integer in `[0, 13)`.
#[derive(PartialEq, Eq, Structural, PartialOrd, Debug, Copy, Clone, Hash)]
pub struct Rank {
    pub id: usize,
}

/// A card of the standard deck, identified by an integer in `[0, 52)`.
#[derive(PartialEq, Eq, Structural, PartialOrd, Debug, Copy, Clone, Hash)]
pub struct Card {
    pub id: usize,
}

impl Suit {
    /// The glyph of this suit, one of clubs, diamonds, hearts and spades; an
    /// out-of-range identity (impossible for the suit of a well-formed card)
    /// falls back to a placeholder.
    pub fn name(&self) -> (s: String)
        ensures
            s@.len() == 1,
            self.id < NUM_SUITS ==> s@[0] == suit_char(self.id as int),
            self.id >= NUM_SUITS ==> s@[0] == '?',
    {
        proof {
            reveal_strlit("♣");
            reveal_strlit("♦");
            reveal_strlit("♥");
            reveal_strlit("♠");
            reveal_strlit("?");
        }
        let glyph: &str = if self.id == 0 {
            "♣"
        } else if self.id == 1 {
            "♦"
        } else if self.id == 2 {
            "♥"
        } else if self.id == 3 {
            "♠"
        } else {
            "?"
        };
        String::from_str(glyph)
    }
}

impl Rank {
    /// The character of this rank: `A` for the ace, the digit characters for
    /// two to nine, and `T`, `J`, `Q`, `K` for ten, jack, queen and king.
    pub fn name(&self) -> (s: String)
        requires
            self.id < NUM_RANKS,
        ensures
            s@.len() == 1,
            s@[0] == rank_char(self.id as int),
    {
        proof {
            reveal_strlit("A");
            reveal_strlit("2");
            reveal_strlit("3");
            reveal_strlit("4");
            reveal_strlit("5");
            reveal_strlit("6");
            reveal_strlit("7");
            reveal_strlit("8");
            reveal_strlit("9");
            reveal_strlit("T");
            reveal_strlit("J");
            reveal_strlit("Q");
            reveal_strlit("K");
        }
        let label: &str = if self.id == 0 {
            "A"
        } else if self.id == 1 {
            "2"
        } else if self.id == 2 {
            "3"
        } else if self.id == 3 {
            "4"
        } else if self.id == 4 {
            "5"
        } else if self.id == 5 {
            "6"
        } else if self.id == 6 {
            "7"
        } else if self.id == 7 {
            "8"
        } else if self.id == 8 {
            "9"
        } else if self.id == 9 {
            "T"
        } else if self.id == 10 {
            "J"
        } else if self.id == 11 {
            "Q"
        } else {
            "K"
        };
        String::from_str(label)
    }
}

pub const NUM_SUITS: usize = 4;

pub const NUM_RANKS: usize = 13;

pub const NUM_CARDS: usize = 52;

impl Card {
    /// Composes a card identity from its rank and suit; the inverse of
    /// [`Card::rank`] and [`Card::suit`].
    pub fn new(rank: &Rank, suit: &Suit) -> (card: Card)
        requires
            rank.id < NUM_RANKS,
            suit.id < NUM_SUITS,
        ensures
            card.id == rank.id * 4 + suit.id,
            card.id < NUM_CARDS,
            card.id / 4 == rank.id,
            card.id % 4 == suit.id,
    {
        Card { id: rank.id * 4 + suit.id }
    }

    /// The suit facet of this card's identity.
    pub fn suit(&self) -> (suit: Suit)
        ensures
            suit.id == self.id % 4,
    {
        Suit { id: self.id % 4 }
    }

    /// The rank facet of this card's identity.
    pub fn rank(&self) -> (rank: Rank)
        ensures
            rank.id == self.id / 4,
    {
        Rank { id: self.id / 4 }
    }

    /// The two-character display name of this card: rank then suit.
    pub fn name(&self) -> (s: String)
        requires
            self.id < NUM_CARDS,
        ensures
            s@ == card_name(self.id as int),
    {
        let mut s = self.rank().name();
        let suit_glyph = self.suit().name();
        s.append(suit_glyph.as_str());
        proof {
            assert(s@ =~= card_name(self.id as int));
        }
        s
    }

    /// Draws a card identity uniformly at random from the 52-card universe.
    pub fn draw_random_card(rng: &mut rand::rngs::StdRng) -> (card: Card)
        ensures
            card.id < NUM_CARDS,
    {
        Card { id: gen_index(rng, 0, NUM_CARDS) }
    }
}

} // verus!
