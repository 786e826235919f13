//! Playing cards: rank, suit and the modifiers a card can carry.
use vstd::prelude::*;

verus! {

/// The four suits, in the order used when cards are arranged by suit.
#[derive(Clone, Copy, Debug, PartialEq, Eq, Hash, Structural)]
pub enum Suit {
    Spades,
    Hearts,
    Clubs,
    Diamonds,
}

impl Suit {
    /// Place of the suit in the suit order, from 0 for spades to 3 for diamonds.
    pub open spec fn position(self) -> int {
        match self {
            Suit::Spades => 0,
            Suit::Hearts => 1,
            Suit::Clubs => 2,
            Suit::Diamonds => 3,
        }
    }

    pub fn ordinal(self) -> (r: u8)
        ensures
            r == self.position(),
    {
        match self {
            Suit::Spades => 0,
            Suit::Hearts => 1,
            Suit::Clubs => 2,
            Suit::Diamonds => 3,
        }
    }
}

/// The thirteen ranks, lowest first. The ace is the highest rank.
#[derive(Clone, Copy, Debug, PartialEq, Eq, Hash, Structural)]
pub enum Rank {
    Two,
    Three,
    Four,
    Five,
    Six,
    Seven,
    Eight,
    Nine,
    Ten,
    Jack,
    Queen,
    King,
    Ace,
}

impl Rank {
    /// Place of the rank in the rank order, from 0 for the two to 12 for the ace.
    pub open spec fn position(self) -> int {
        match self {
            Rank::Two => 0,
            Rank::Three => 1,
            Rank::Four => 2,
            Rank::Five => 3,
            Rank::Six => 4,
            Rank::Seven => 5,
            Rank::Eight => 6,
            Rank::Nine => 7,
            Rank::Ten => 8,
            Rank::Jack => 9,
            Rank::Queen => 10,
            Rank::King => 11,
            Rank::Ace => 12,
        }
    }

    /// The rank at a place of the rank order; the inverse of [`Rank::position`].
    pub open spec fn at(place: int) -> Rank {
        if place == 0 {
            Rank::Two
        } else if place == 1 {
            Rank::Three
        } else if place == 2 {
            Rank::Four
        } else if place == 3 {
            Rank::Five
        } else if place == 4 {
            Rank::Six
        } else if place == 5 {
            Rank::Seven
        } else if place == 6 {
            Rank::Eight
        } else if place == 7 {
            Rank::Nine
        } else if place == 8 {
            Rank::Ten
        } else if place == 9 {
            Rank::Jack
        } else if place == 10 {
            Rank::Queen
        } else if place == 11 {
            Rank::King
        } else {
            Rank::Ace
        }
    }

    /// The rank one step up. The order is a cycle: after the king comes the
    /// ace, and after the ace the two.
    pub open spec fn successor(self) -> Rank {
        Rank::at((self.position() + 1) % 13)
    }

    /// Chips a scored card of this rank is worth: its number for two to ten,
    /// 10 for a face card, 11 for the ace.
    pub open spec fn chips(self) -> int {
        if self.position() <= 8 {
            self.position() + 2
        } else if self == Rank::Ace {
            11
        } else {
            10
        }
    }

    /// Jack, queen or king.
    pub open spec fn is_face(self) -> bool {
        9 <= self.position() <= 11
    }

    pub fn ordinal(self) -> (r: u8)
        ensures
            r == self.position(),
    {
        match self {
            Rank::Two => 0,
            Rank::Three => 1,
            Rank::Four => 2,
            Rank::Five => 3,
            Rank::Six => 4,
            Rank::Seven => 5,
            Rank::Eight => 6,
            Rank::Nine => 7,
            Rank::Ten => 8,
            Rank::Jack => 9,
            Rank::Queen => 10,
            Rank::King => 11,
            Rank::Ace => 12,
        }
    }

    #[verifier::when_used_as_spec(successor)]
    pub fn next(self) -> (r: Rank)
        ensures
            r == self.successor(),
    {
        match self {
            Rank::Ace => Rank::Two,
            Rank::Two => Rank::Three,
            Rank::Three => Rank::Four,
            Rank::Four => Rank::Five,
            Rank::Five => Rank::Six,
            Rank::Six => Rank::Seven,
            Rank::Seven => Rank::Eight,
            Rank::Eight => Rank::Nine,
            Rank::Nine => Rank::Ten,
            Rank::Ten => Rank::Jack,
            Rank::Jack => Rank::Queen,
            Rank::Queen => Rank::King,
            Rank::King => Rank::Ace,
        }
    }

    pub fn face(self) -> (r: bool)
        ensures
            r == self.is_face(),
    {
        match self {
            Rank::Jack | Rank::Queen | Rank::King => true,
            _ => false,
        }
    }
}

/// Chips a scored card of the given rank adds.
pub fn get_chips_from_rank(rank: Rank) -> (r: u64)
    ensures
        r == rank.chips(),
        2 <= r <= 11,
{
    match rank {
        Rank::Ace => 11,
        Rank::Two => 2,
        Rank::Three => 3,
        Rank::Four => 4,
        Rank::Five => 5,
        Rank::Six => 6,
        Rank::Seven => 7,
        Rank::Eight => 8,
        Rank::Nine => 9,
        Rank::Ten | Rank::Jack | Rank::Queen | Rank::King => 10,
    }
}

/// What a card was enhanced into, if anything.
#[derive(Clone, Copy, Debug, PartialEq, Eq, Hash, Structural)]
pub enum Enhancement {
    Wild,
    Glass,
    Bonus,
    Mult,
    Lucky,
    Steel,
    Stone,
    Gold,
}

/// The seal stamped on a card.
#[derive(Clone, Copy, Debug, PartialEq, Eq, Hash, Structural)]
pub enum Seal {
    Blue,
    Red,
    Purple,
    Gold,
}

/// The edition of a card. A card has at most one.
#[derive(Clone, Copy, Debug, PartialEq, Eq, Hash, Structural)]
pub enum CardEdition {
    Foil,
    Holographic,
    Polychrome,
}

/// One playing card. Nothing here changes while a hand is scored.
#[derive(Clone, Copy, Debug, PartialEq, Eq, Hash, Structural)]
pub struct PlayingCard {
    pub rank: Rank,
    pub suit: Suit,
    pub enhancement: Option<Enhancement>,
    pub edition: Option<CardEdition>,
    pub seal: Option<Seal>,
}

impl PlayingCard {
    /// A card of the given rank and suit without any modifier.
    pub fn plain(rank: Rank, suit: Suit) -> (card: PlayingCard)
        ensures
            card == (PlayingCard { rank, suit, enhancement: None, edition: None, seal: None }),
    {
        PlayingCard { rank, suit, enhancement: None, edition: None, seal: None }
    }

    pub open spec fn is_stone(self) -> bool {
        self.enhancement == Some(Enhancement::Stone)
    }

    pub open spec fn is_steel(self) -> bool {
        self.enhancement == Some(Enhancement::Steel)
    }

    pub open spec fn has_red_seal(self) -> bool {
        self.seal == Some(Seal::Red)
    }
}

/// A card in the player's hand, and whether it is selected for this play.
#[derive(Clone, Copy, Debug, PartialEq, Eq, Hash, Structural)]
pub struct HeldCard {
    pub card: PlayingCard,
    pub selected: bool,
}

} // verus!
