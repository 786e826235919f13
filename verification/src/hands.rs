//! Poker hands: the kinds, their base values and how often each was played.
use vstd::prelude::*;

verus! {

/// The kinds of poker hand a selection can be classified as.
#[derive(Clone, Copy, Debug, PartialEq, Eq, Hash, Structural)]
pub enum PokerHandKind {
    HighCard,
    Pair,
    TwoPair,
    ThreeOfAKind,
    Straight,
    Flush,
    FullHouse,
    FourOfAKind,
    StraightFlush,
    FiveOfAKind,
    FlushHouse,
    FlushFive,
}

impl PokerHandKind {
    /// The kinds in which every selected card counts.
    pub open spec fn takes_all(self) -> bool {
        self == PokerHandKind::FiveOfAKind || self == PokerHandKind::FlushFive
            || self == PokerHandKind::FlushHouse || self == PokerHandKind::FullHouse
    }

    pub fn scores_whole_selection(self) -> (r: bool)
        ensures
            r == self.takes_all(),
    {
        match self {
            PokerHandKind::FiveOfAKind
            | PokerHandKind::FlushFive
            | PokerHandKind::FlushHouse
            | PokerHandKind::FullHouse => true,
            _ => false,
        }
    }
}

/// A poker hand at its current level: the chips and the multiplier that a play
/// of this kind starts from.
#[derive(Clone, Copy, Debug, PartialEq, Eq, Hash, Structural)]
pub struct PokerHand {
    pub kind: PokerHandKind,
    pub level: u64,
    pub chips: u64,
    pub mult: u64,
}

/// How many times a poker hand has been played in this run.
#[derive(Clone, Copy, Debug, PartialEq, Eq, Hash, Structural)]
pub struct HandRecord {
    pub hand: PokerHand,
    pub played: u64,
}

} // verus!
