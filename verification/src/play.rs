//! The snapshot of one play: the hand, the jokers, the classified poker hand
//! and the state of the run.
use vstd::prelude::*;
use crate::cards::{HeldCard, PlayingCard, Seal};
use crate::hands::{HandRecord, PokerHand};
use crate::jokers::Joker;

verus! {

/// The deck a run is played with. Only the plasma deck changes how a play is
/// scored.
#[derive(Clone, Copy, Debug, PartialEq, Eq, Hash, Structural)]
pub enum Deck {
    Red,
    Blue,
    Yellow,
    Green,
    Black,
    Magic,
    Nebula,
    GhostDeck,
    Abandoned,
    Checkered,
    Zodiac,
    Painted,
    Anaglyph,
    Plasma,
    Erratic,
}

/// What scoring reads of the run.
#[derive(Clone, Debug)]
pub struct RunInfo {
    pub deck: Deck,
    /// Discards the player has left.
    pub discards: u32,
    /// Hands the player has left, the one being played included.
    pub hands: u32,
    pub money: u32,
    /// One record for each poker hand the run knows of.
    pub poker_hands: Vec<HandRecord>,
}

/// One play, as it stands before the cards are played.
#[derive(Clone, Debug)]
pub struct Play {
    /// The cards in hand, selected or not, from left to right.
    pub hand: Vec<HeldCard>,
    /// The jokers, from left to right.
    pub jokers: Vec<Joker>,
    /// What the selection was classified as, if it was.
    pub poker_hand: Option<PokerHand>,
    pub run_info: RunInfo,
}

/// [`RunInfo`] with a sequence for its vector.
pub struct RunInfoView {
    pub deck: Deck,
    pub discards: u32,
    pub hands: u32,
    pub money: u32,
    pub poker_hands: Seq<HandRecord>,
}

/// [`Play`] with sequences for its vectors.
pub struct PlayView {
    pub hand: Seq<HeldCard>,
    pub jokers: Seq<Joker>,
    pub poker_hand: Option<PokerHand>,
    pub run_info: RunInfoView,
}

impl View for RunInfo {
    type V = RunInfoView;

    open spec fn view(&self) -> RunInfoView {
        RunInfoView {
            deck: self.deck,
            discards: self.discards,
            hands: self.hands,
            money: self.money,
            poker_hands: self.poker_hands@,
        }
    }
}

impl View for Play {
    type V = PlayView;

    open spec fn view(&self) -> PlayView {
        PlayView {
            hand: self.hand@,
            jokers: self.jokers@,
            poker_hand: self.poker_hand,
            run_info: self.run_info@,
        }
    }
}

/// The selected cards of a hand, in hand order.
pub open spec fn selected_cards(hand: Seq<HeldCard>) -> Seq<PlayingCard>
    decreases hand.len(),
{
    if hand.len() == 0 {
        seq![]
    } else if hand.last().selected {
        selected_cards(hand.drop_last()).push(hand.last().card)
    } else {
        selected_cards(hand.drop_last())
    }
}

/// The cards of a hand that stay behind, in hand order. A card with a red
/// seal stands twice, one after the other: what it does in hand it does twice.
pub open spec fn held_cards(hand: Seq<HeldCard>) -> Seq<PlayingCard>
    decreases hand.len(),
{
    if hand.len() == 0 {
        seq![]
    } else if hand.last().selected {
        held_cards(hand.drop_last())
    } else if hand.last().card.has_red_seal() {
        held_cards(hand.drop_last()).push(hand.last().card).push(hand.last().card)
    } else {
        held_cards(hand.drop_last()).push(hand.last().card)
    }
}

impl Play {
    /// The selected cards, in hand order.
    pub fn selected(&self) -> (cards: Vec<PlayingCard>)
        ensures
            cards@ == selected_cards(self.hand@),
    {
        let mut cards: Vec<PlayingCard> = Vec::new();
        let mut i: usize = 0;
        assert(self.hand@.take(0) =~= Seq::<HeldCard>::empty());
        while i < self.hand.len()
            invariant
                i <= self.hand.len(),
                cards@ == selected_cards(self.hand@.take(i as int)),
            decreases self.hand.len() - i,
        {
            assert(self.hand@.take(i + 1).drop_last() =~= self.hand@.take(i as int));
            if self.hand[i].selected {
                cards.push(self.hand[i].card);
            }
            i += 1;
        }
        assert(self.hand@.take(self.hand@.len() as int) =~= self.hand@);
        cards
    }

    /// The cards that stay in hand, in hand order, those with a red seal twice.
    pub fn held(&self) -> (cards: Vec<PlayingCard>)
        ensures
            cards@ == held_cards(self.hand@),
    {
        let mut cards: Vec<PlayingCard> = Vec::new();
        let mut i: usize = 0;
        assert(self.hand@.take(0) =~= Seq::<HeldCard>::empty());
        while i < self.hand.len()
            invariant
                i <= self.hand.len(),
                cards@ == held_cards(self.hand@.take(i as int)),
            decreases self.hand.len() - i,
        {
            assert(self.hand@.take(i + 1).drop_last() =~= self.hand@.take(i as int));
            let entry = self.hand[i];
            if !entry.selected {
                match entry.card.seal {
                    Some(Seal::Red) => {
                        cards.push(entry.card);
                    },
                    _ => {},
                }
                cards.push(entry.card);
            }
            i += 1;
        }
        assert(self.hand@.take(self.hand@.len() as int) =~= self.hand@);
        cards
    }
}

} // verus!
