//! Scoring a play: the order in which cards and jokers act, and the exact
//! result.
//!
//! A play is scored in four rounds. Each scored card, in the order of the
//! selection: its enhancement, its edition, every joker's rule for a scored
//! card, the chips of its rank. Each card that stays in hand: steel, then
//! every joker's rule for a held card. Each joker: its own rule, then its
//! edition. Last, with the plasma deck, chips and multiplier are levelled.
//! The score is chips times multiplier.
use vstd::prelude::*;
use crate::cards::{get_chips_from_rank, Enhancement, PlayingCard, Suit};
use crate::effects::{
    agrees, edition_effect, edition_steps, enhancement_effect, enhancement_steps, held_joker_effect,
    joker_effect, joker_on_held, joker_on_scored, joker_steps, scored_joker_effect, Setting,
};
use crate::error::ScoreError;
use crate::hands::{HandRecord, PokerHand};
use crate::jokers::{Joker, JokerKind};
use crate::play::{held_cards, selected_cards, Deck, Play, PlayView};
use crate::resolver::{get_scored_cards, scored_cards};
use crate::tally::{lemma_run_wf, run_steps, Ratio, Step, Tally, Totals};

verus! {

/// Two lists of steps one after the other, or the first reason why one of
/// them is missing.
pub open spec fn join(a: Result<Seq<Step>, ScoreError>, b: Result<Seq<Step>, ScoreError>) -> Result<
    Seq<Step>,
    ScoreError,
> {
    match a {
        Err(e) => Err(e),
        Ok(s) => match b {
            Err(e) => Err(e),
            Ok(t) => Ok(s + t),
        },
    }
}

/// All the lists of steps one after the other, or the first reason why one
/// of them is missing.
pub open spec fn chain(parts: Seq<Result<Seq<Step>, ScoreError>>) -> Result<Seq<Step>, ScoreError>
    decreases parts.len(),
{
    if parts.len() == 0 {
        Ok(seq![])
    } else {
        join(chain(parts.drop_last()), parts.last())
    }
}

/// A splash joker is among the jokers: every selected card counts.
pub open spec fn has_splash(jokers: Seq<Joker>) -> bool {
    exists|i: int| 0 <= i < jokers.len() && (#[trigger] jokers[i]).kind == JokerKind::Splash
}

/// A four-fingers joker is among the jokers: straights may skip a rank.
pub open spec fn has_four_fingers(jokers: Seq<Joker>) -> bool {
    exists|i: int| 0 <= i < jokers.len() && (#[trigger] jokers[i]).kind == JokerKind::FourFingers
}

/// A vampire is among the jokers: scored cards give their enhancement up.
pub open spec fn has_vampire(jokers: Seq<Joker>) -> bool {
    exists|i: int| 0 <= i < jokers.len() && (#[trigger] jokers[i]).kind is Vampire
}

/// A card of the suit is among the cards.
pub open spec fn has_suit(cards: Seq<PlayingCard>, suit: Suit) -> bool {
    exists|i: int| 0 <= i < cards.len() && (#[trigger] cards[i]).suit == suit
}

/// Every card is a spade or a club.
pub open spec fn all_dark(cards: Seq<PlayingCard>) -> bool {
    forall|i: int|
        0 <= i < cards.len() ==> (#[trigger] cards[i]).suit == Suit::Spades || cards[i].suit
            == Suit::Clubs
}

/// How many of the cards have an enhancement.
pub open spec fn enhanced_count(cards: Seq<PlayingCard>) -> nat
    decreases cards.len(),
{
    if cards.len() == 0 {
        0
    } else if cards.last().enhancement is Some {
        enhanced_count(cards.drop_last()) + 1
    } else {
        enhanced_count(cards.drop_last())
    }
}

/// The place in the rank order of the lowest of the cards; 13, which is no
/// rank's place, where there is no card.
pub open spec fn lowest_position(cards: Seq<PlayingCard>) -> int
    decreases cards.len(),
{
    if cards.len() == 0 {
        13
    } else if cards.last().rank.position() < lowest_position(cards.drop_last()) {
        cards.last().rank.position()
    } else {
        lowest_position(cards.drop_last())
    }
}

/// How often the hand was played: the count in the first record of exactly
/// this hand, if there is one.
pub open spec fn times_played(records: Seq<HandRecord>, hand: PokerHand) -> Option<u64>
    decreases records.len(),
{
    if records.len() == 0 {
        None
    } else if records[0].hand == hand {
        Some(records[0].played)
    } else {
        times_played(records.drop_first(), hand)
    }
}

/// The cards of a play that count towards the score, the hand being
/// classified as `hand`: with a splash joker every selected card, else what
/// the search picks.
pub open spec fn scored_of(play: PlayView, hand: PokerHand) -> Seq<PlayingCard> {
    if has_splash(play.jokers) {
        selected_cards(play.hand)
    } else {
        scored_cards(selected_cards(play.hand), hand.kind, has_four_fingers(play.jokers))
    }
}

/// What the jokers' own rules read of a play in which `scored` are the cards
/// that count.
pub open spec fn setting_of(play: PlayView, hand: PokerHand, scored: Seq<PlayingCard>) -> Setting {
    Setting {
        kind: hand.kind,
        hands: play.run_info.hands,
        discards: play.run_info.discards,
        money: play.run_info.money,
        selected: selected_cards(play.hand).len() as usize,
        held_all_dark: all_dark(held_cards(play.hand)),
        spades: has_suit(selected_cards(play.hand), Suit::Spades),
        hearts: has_suit(selected_cards(play.hand), Suit::Hearts),
        clubs: has_suit(selected_cards(play.hand), Suit::Clubs),
        diamonds: has_suit(selected_cards(play.hand), Suit::Diamonds),
        played: times_played(play.run_info.poker_hands, hand),
        drained: enhanced_count(scored) as usize,
    }
}

/// The parts of a scored card's steps: what the card carries, then one part
/// for each joker, then the chips of its rank.
pub open spec fn scored_card_parts(
    card: PlayingCard,
    jokers: Seq<Joker>,
    drained: bool,
    hands: u32,
) -> Seq<Result<Seq<Step>, ScoreError>> {
    seq![Ok(enhancement_steps(card, drained) + edition_steps(card))] + Seq::new(
        jokers.len(),
        |i: int| joker_on_scored(jokers[i].kind, card, hands),
    ) + seq![Ok(seq![Step::AddChips(card.rank.chips() as u64)])]
}

/// The steps of one scored card.
pub open spec fn scored_card_steps(
    card: PlayingCard,
    jokers: Seq<Joker>,
    drained: bool,
    hands: u32,
) -> Result<Seq<Step>, ScoreError> {
    chain(scored_card_parts(card, jokers, drained, hands))
}

/// The steps of the scored cards, card by card.
pub open spec fn scored_phase(
    scored: Seq<PlayingCard>,
    jokers: Seq<Joker>,
    drained: bool,
    hands: u32,
) -> Result<Seq<Step>, ScoreError> {
    chain(Seq::new(scored.len(), |k: int| scored_card_steps(scored[k], jokers, drained, hands)))
}

/// The parts of a held card's steps: steel, then one part for each joker.
pub open spec fn held_card_parts(card: PlayingCard, jokers: Seq<Joker>, lowest: int) -> Seq<
    Result<Seq<Step>, ScoreError>,
> {
    seq![
        Ok(
            if card.is_steel() {
                seq![Step::TimesThreeHalves]
            } else {
                seq![]
            },
        ),
    ] + Seq::new(jokers.len(), |i: int| joker_on_held(jokers[i].kind, card, lowest))
}

/// The steps of one card that stays in hand.
pub open spec fn held_card_steps(card: PlayingCard, jokers: Seq<Joker>, lowest: int) -> Result<
    Seq<Step>,
    ScoreError,
> {
    chain(held_card_parts(card, jokers, lowest))
}

/// The steps of the cards that stay in hand, card by card.
pub open spec fn held_phase(held: Seq<PlayingCard>, jokers: Seq<Joker>) -> Result<
    Seq<Step>,
    ScoreError,
> {
    chain(Seq::new(held.len(), |k: int| held_card_steps(held[k], jokers, lowest_position(held))))
}

/// The steps of the jokers' own rules and editions, joker by joker.
pub open spec fn joker_phase(jokers: Seq<Joker>, setting: Setting) -> Result<
    Seq<Step>,
    ScoreError,
> {
    chain(Seq::new(jokers.len(), |i: int| joker_steps(jokers[i], setting)))
}

/// Every step of a play in order, `scored` being the cards that count: or
/// the first reason, in that order, why the play has no score.
pub open spec fn play_steps(play: PlayView, hand: PokerHand, scored: Seq<PlayingCard>) -> Result<
    Seq<Step>,
    ScoreError,
> {
    chain(
        seq![
            scored_phase(scored, play.jokers, has_vampire(play.jokers), play.run_info.hands),
            held_phase(held_cards(play.hand), play.jokers),
            joker_phase(play.jokers, setting_of(play, hand, scored)),
        ],
    )
}

/// The totals at the end of a play: the hand's base values, then the steps,
/// then levelling where the deck is the plasma deck.
pub open spec fn final_tally(deck: Deck, hand: PokerHand, steps: Seq<Step>) -> Tally {
    let t = Tally::start(hand.chips as int, hand.mult as int).run(steps);
    if deck == Deck::Plasma {
        t.leveled()
    } else {
        t
    }
}

/// The exact totals of a play in which `scored` are the cards that count, or
/// why it has none.
pub open spec fn exact_tally(play: PlayView, scored: Seq<PlayingCard>) -> Result<Tally, ScoreError> {
    match play.poker_hand {
        None => Err(ScoreError::MissingHandContext),
        Some(hand) => match play_steps(play, hand, scored) {
            Err(e) => Err(e),
            Ok(steps) => Ok(final_tally(play.run_info.deck, hand, steps)),
        },
    }
}

/// The totals of a play stay within 128 bits: after every step, and in the
/// product of chips and multiplier.
pub open spec fn tally_fits(play: PlayView, scored: Seq<PlayingCard>) -> bool {
    match play.poker_hand {
        None => true,
        Some(hand) => match play_steps(play, hand, scored) {
            Err(e) => true,
            Ok(steps) => {
                &&& Tally::start(hand.chips as int, hand.mult as int).within_throughout(steps)
                &&& final_tally(play.run_info.deck, hand, steps).total_num() <= u128::MAX
            },
        },
    }
}

/// The exact score of a play, or why it has none. A play without a selected
/// card scores nothing, whatever else it holds.
pub open spec fn exact_score(play: PlayView) -> Result<Tally, ScoreError> {
    if selected_cards(play.hand).len() == 0 {
        Ok(Tally { chips: 0, num: 0, den: 1 })
    } else {
        match play.poker_hand {
            None => Err(ScoreError::MissingHandContext),
            Some(hand) => exact_tally(play, scored_of(play, hand)),
        }
    }
}

/// The exact score of a play can be had within 128 bits.
pub open spec fn score_fits(play: PlayView) -> bool {
    selected_cards(play.hand).len() == 0 || match play.poker_hand {
        None => true,
        Some(hand) => tally_fits(play, scored_of(play, hand)),
    }
}

/// The score of a play: chips, multiplier, and their product.
#[derive(Clone, Copy, Debug, PartialEq, Eq, Hash, Structural)]
pub struct ScoreResult {
    pub chips: u128,
    pub mult: Ratio,
    pub total: Ratio,
}

impl ScoreResult {
    /// The result holds the chips and the multiplier of the tally, and their
    /// product over the multiplier's denominator.
    pub open spec fn shows(self, t: Tally) -> bool {
        &&& self.chips == t.chips
        &&& self.mult.num == t.num
        &&& self.mult.den == t.den
        &&& self.total.num == t.total_num()
        &&& self.total.den == t.den
    }
}

/// What [`score_hand`] returns for a play: the exact score where the play has
/// one that fits, `Overflow` where it has one that does not fit, and else the
/// reason why it has none.
pub open spec fn is_score_of(play: PlayView, r: Result<ScoreResult, ScoreError>) -> bool {
    match r {
        Ok(score) => exact_score(play) matches Ok(t) && score_fits(play) && score.shows(t),
        Err(e) => if e == ScoreError::Overflow {
            exact_score(play) is Ok && !score_fits(play)
        } else {
            exact_score(play) == Err::<Tally, ScoreError>(e)
        },
    }
}

/// `chain` of the first `k + 1` parts, from that of the first `k`.
pub proof fn lemma_chain_next(parts: Seq<Result<Seq<Step>, ScoreError>>, k: int)
    requires
        0 <= k < parts.len(),
    ensures
        chain(parts.take(k + 1)) == join(chain(parts.take(k)), parts[k]),
{
    assert(parts.take(k + 1).drop_last() =~= parts.take(k));
}

/// Once the first parts give a reason, the whole gives the same.
pub proof fn lemma_chain_stops(parts: Seq<Result<Seq<Step>, ScoreError>>, k: int)
    requires
        0 <= k <= parts.len(),
        chain(parts.take(k)) is Err,
    ensures
        chain(parts) == chain(parts.take(k)),
    decreases parts.len() - k,
{
    if k == parts.len() {
        assert(parts.take(k) =~= parts);
    } else {
        lemma_chain_next(parts, k);
        lemma_chain_stops(parts, k + 1);
    }
}

/// Which of the jokers that change how a play is read are present.
#[derive(Clone, Copy, Debug, PartialEq, Eq, Structural)]
pub struct Presence {
    pub splash: bool,
    pub four_fingers: bool,
    pub vampire: bool,
}

/// Looks through the jokers for splash, four fingers and vampire.
pub fn look_for(jokers: &Vec<Joker>) -> (r: Presence)
    ensures
        r.splash == has_splash(jokers@),
        r.four_fingers == has_four_fingers(jokers@),
        r.vampire == has_vampire(jokers@),
{
    let mut r = Presence { splash: false, four_fingers: false, vampire: false };
    let mut i: usize = 0;
    while i < jokers.len()
        invariant
            i <= jokers.len(),
            r.splash == (exists|k: int| 0 <= k < i && (#[trigger] jokers[k]).kind == JokerKind::Splash),
            r.four_fingers == (exists|k: int|
                0 <= k < i && (#[trigger] jokers[k]).kind == JokerKind::FourFingers),
            r.vampire == (exists|k: int| 0 <= k < i && (#[trigger] jokers[k]).kind is Vampire),
        decreases jokers.len() - i,
    {
        match jokers[i].kind {
            JokerKind::Splash => {
                r.splash = true;
            },
            JokerKind::FourFingers => {
                r.four_fingers = true;
            },
            JokerKind::Vampire { .. } => {
                r.vampire = true;
            },
            _ => {},
        }
        i += 1;
    }
    r
}

/// Whether a card of the suit is among the cards.
pub fn holds_suit(cards: &Vec<PlayingCard>, suit: Suit) -> (r: bool)
    ensures
        r == has_suit(cards@, suit),
{
    let mut i: usize = 0;
    while i < cards.len()
        invariant
            i <= cards.len(),
            forall|k: int| 0 <= k < i ==> (#[trigger] cards[k]).suit != suit,
        decreases cards.len() - i,
    {
        if cards[i].suit == suit {
            return true;
        }
        i += 1;
    }
    false
}

/// Whether every card is a spade or a club.
pub fn holds_only_dark(cards: &Vec<PlayingCard>) -> (r: bool)
    ensures
        r == all_dark(cards@),
{
    let mut i: usize = 0;
    while i < cards.len()
        invariant
            i <= cards.len(),
            forall|k: int|
                0 <= k < i ==> (#[trigger] cards[k]).suit == Suit::Spades || cards[k].suit
                    == Suit::Clubs,
        decreases cards.len() - i,
    {
        match cards[i].suit {
            Suit::Spades | Suit::Clubs => {},
            _ => {
                return false;
            },
        }
        i += 1;
    }
    true
}

/// How many of the cards have an enhancement.
pub fn count_enhanced(cards: &Vec<PlayingCard>) -> (r: usize)
    ensures
        r == enhanced_count(cards@),
{
    let mut r: usize = 0;
    let mut i: usize = 0;
    assert(cards@.take(0) =~= Seq::<PlayingCard>::empty());
    while i < cards.len()
        invariant
            i <= cards.len(),
            r <= i,
            r == enhanced_count(cards@.take(i as int)),
        decreases cards.len() - i,
    {
        assert(cards@.take(i + 1).drop_last() =~= cards@.take(i as int));
        if cards[i].enhancement.is_some() {
            r += 1;
        }
        i += 1;
    }
    assert(cards@.take(cards@.len() as int) =~= cards@);
    r
}

/// The place in the rank order of the lowest of the cards, or 13 where there
/// is no card.
pub fn lowest_rank(cards: &Vec<PlayingCard>) -> (r: u8)
    ensures
        r == lowest_position(cards@),
{
    let mut r: u8 = 13;
    let mut i: usize = 0;
    assert(cards@.take(0) =~= Seq::<PlayingCard>::empty());
    while i < cards.len()
        invariant
            i <= cards.len(),
            r == lowest_position(cards@.take(i as int)),
        decreases cards.len() - i,
    {
        assert(cards@.take(i + 1).drop_last() =~= cards@.take(i as int));
        let place = cards[i].rank.ordinal();
        if place < r {
            r = place;
        }
        i += 1;
    }
    assert(cards@.take(cards@.len() as int) =~= cards@);
    r
}

/// How often the hand was played, by the first record of exactly this hand.
pub fn find_played(records: &Vec<HandRecord>, hand: PokerHand) -> (r: Option<u64>)
    ensures
        r == times_played(records@, hand),
{
    let mut i: usize = 0;
    assert(records@.skip(0) =~= records@);
    while i < records.len()
        invariant
            i <= records.len(),
            times_played(records@, hand) == times_played(records@.skip(i as int), hand),
        decreases records.len() - i,
    {
        assert(records@.skip(i as int).drop_first() =~= records@.skip(i + 1));
        if records[i].hand == hand {
            return Some(records[i].played);
        }
        i += 1;
    }
    None
}

/// The steps of one scored card.
pub fn scored_card_trace(card: PlayingCard, jokers: &Vec<Joker>, drained: bool, hands: u32) -> (r:
    Result<Vec<Step>, ScoreError>)
    ensures
        agrees(r, scored_card_steps(card, jokers@, drained, hands)),
        r matches Err(e) ==> e is UnmodeledEffect || e is MissingHandContext,
{
    let ghost parts = scored_card_parts(card, jokers@, drained, hands);
    let mut steps = enhancement_effect(card, drained);
    let mut more = edition_effect(card);
    steps.append(&mut more);
    let mut i: usize = 0;
    proof {
        assert(parts.take(0) =~= Seq::empty());
        lemma_chain_next(parts, 0);
        assert(seq![] + (enhancement_steps(card, drained) + edition_steps(card)) =~= steps@);
    }
    while i < jokers.len()
        invariant
            i <= jokers.len(),
            parts == scored_card_parts(card, jokers@, drained, hands),
            chain(parts.take(i + 1)) == Ok::<Seq<Step>, ScoreError>(steps@),
        decreases jokers.len() - i,
    {
        proof {
            lemma_chain_next(parts, i + 1);
        }
        match scored_joker_effect(jokers[i].kind, card, hands) {
            Ok(found) => {
                let mut found = found;
                steps.append(&mut found);
            },
            Err(e) => {
                proof {
                    lemma_chain_stops(parts, i + 2);
                }
                return Err(e);
            },
        }
        i += 1;
    }
    proof {
        lemma_chain_next(parts, jokers.len() + 1);
        assert(parts.take(jokers.len() + 2) =~= parts);
    }
    steps.push(Step::AddChips(get_chips_from_rank(card.rank)));
    Ok(steps)
}

/// The steps of the scored cards, card by card.
pub fn scored_trace(scored: &Vec<PlayingCard>, jokers: &Vec<Joker>, drained: bool, hands: u32) -> (r:
    Result<Vec<Step>, ScoreError>)
    ensures
        agrees(r, scored_phase(scored@, jokers@, drained, hands)),
        r matches Err(e) ==> e is UnmodeledEffect || e is MissingHandContext,
{
    let ghost parts = Seq::new(
        scored@.len(),
        |k: int| scored_card_steps(scored@[k], jokers@, drained, hands),
    );
    let mut steps: Vec<Step> = Vec::new();
    let mut k: usize = 0;
    assert(parts.take(0) =~= Seq::empty());
    while k < scored.len()
        invariant
            k <= scored.len(),
            parts == Seq::new(
                scored@.len(),
                |k: int| scored_card_steps(scored@[k], jokers@, drained, hands),
            ),
            chain(parts.take(k as int)) == Ok::<Seq<Step>, ScoreError>(steps@),
        decreases scored.len() - k,
    {
        proof {
            lemma_chain_next(parts, k as int);
        }
        match scored_card_trace(scored[k], jokers, drained, hands) {
            Ok(found) => {
                let mut found = found;
                steps.append(&mut found);
            },
            Err(e) => {
                proof {
                    lemma_chain_stops(parts, k + 1);
                }
                return Err(e);
            },
        }
        k += 1;
    }
    assert(parts.take(scored.len() as int) =~= parts);
    Ok(steps)
}

/// The steps of one card that stays in hand.
pub fn held_card_trace(card: PlayingCard, jokers: &Vec<Joker>, lowest: u8) -> (r: Result<
    Vec<Step>,
    ScoreError,
>)
    ensures
        agrees(r, held_card_steps(card, jokers@, lowest as int)),
        r matches Err(e) ==> e is UnmodeledEffect || e is MissingHandContext,
{
    let ghost parts = held_card_parts(card, jokers@, lowest as int);
    let mut steps: Vec<Step> = Vec::new();
    match card.enhancement {
        Some(Enhancement::Steel) => {
            steps.push(Step::TimesThreeHalves);
        },
        _ => {},
    }
    let mut i: usize = 0;
    proof {
        assert(parts.take(0) =~= Seq::empty());
        lemma_chain_next(parts, 0);
        assert(seq![] + parts[0].unwrap() =~= steps@);
    }
    while i < jokers.len()
        invariant
            i <= jokers.len(),
            parts == held_card_parts(card, jokers@, lowest as int),
            chain(parts.take(i + 1)) == Ok::<Seq<Step>, ScoreError>(steps@),
        decreases jokers.len() - i,
    {
        proof {
            lemma_chain_next(parts, i + 1);
        }
        match held_joker_effect(jokers[i].kind, card, lowest) {
            Ok(found) => {
                let mut found = found;
                steps.append(&mut found);
            },
            Err(e) => {
                proof {
                    lemma_chain_stops(parts, i + 2);
                }
                return Err(e);
            },
        }
        i += 1;
    }
    assert(parts.take(jokers.len() + 1) =~= parts);
    Ok(steps)
}

/// The steps of the cards that stay in hand, card by card.
pub fn held_trace(held: &Vec<PlayingCard>, jokers: &Vec<Joker>) -> (r: Result<Vec<Step>, ScoreError>)
    ensures
        agrees(r, held_phase(held@, jokers@)),
        r matches Err(e) ==> e is UnmodeledEffect || e is MissingHandContext,
{
    let lowest = lowest_rank(held);
    let ghost parts = Seq::new(
        held@.len(),
        |k: int| held_card_steps(held@[k], jokers@, lowest_position(held@)),
    );
    let mut steps: Vec<Step> = Vec::new();
    let mut k: usize = 0;
    assert(parts.take(0) =~= Seq::empty());
    while k < held.len()
        invariant
            k <= held.len(),
            lowest == lowest_position(held@),
            parts == Seq::new(
                held@.len(),
                |k: int| held_card_steps(held@[k], jokers@, lowest_position(held@)),
            ),
            chain(parts.take(k as int)) == Ok::<Seq<Step>, ScoreError>(steps@),
        decreases held.len() - k,
    {
        proof {
            lemma_chain_next(parts, k as int);
        }
        match held_card_trace(held[k], jokers, lowest) {
            Ok(found) => {
                let mut found = found;
                steps.append(&mut found);
            },
            Err(e) => {
                proof {
                    lemma_chain_stops(parts, k + 1);
                }
                return Err(e);
            },
        }
        k += 1;
    }
    assert(parts.take(held.len() as int) =~= parts);
    Ok(steps)
}

/// The steps of the jokers' own rules and editions, joker by joker.
pub fn joker_trace(jokers: &Vec<Joker>, setting: Setting) -> (r: Result<Vec<Step>, ScoreError>)
    ensures
        agrees(r, joker_phase(jokers@, setting)),
        r matches Err(e) ==> e is UnmodeledEffect || e is MissingHandContext,
{
    let ghost parts = Seq::new(jokers@.len(), |i: int| joker_steps(jokers@[i], setting));
    let mut steps: Vec<Step> = Vec::new();
    let mut i: usize = 0;
    assert(parts.take(0) =~= Seq::empty());
    while i < jokers.len()
        invariant
            i <= jokers.len(),
            parts == Seq::new(jokers@.len(), |i: int| joker_steps(jokers@[i], setting)),
            chain(parts.take(i as int)) == Ok::<Seq<Step>, ScoreError>(steps@),
        decreases jokers.len() - i,
    {
        proof {
            lemma_chain_next(parts, i as int);
        }
        match joker_effect(jokers[i], setting) {
            Ok(found) => {
                let mut found = found;
                steps.append(&mut found);
            },
            Err(e) => {
                proof {
                    lemma_chain_stops(parts, i + 1);
                }
                return Err(e);
            },
        }
        i += 1;
    }
    assert(parts.take(jokers.len() as int) =~= parts);
    Ok(steps)
}

/// Reads from a play what the jokers' own rules need. `selected` and `held`
/// are the two parts of the hand, `scored` the cards that count.
fn read_setting(
    play: &Play,
    hand: PokerHand,
    selected: &Vec<PlayingCard>,
    held: &Vec<PlayingCard>,
    scored: &Vec<PlayingCard>,
) -> (r: Setting)
    requires
        selected@ == selected_cards(play.hand@),
        held@ == held_cards(play.hand@),
    ensures
        r == setting_of(play@, hand, scored@),
{
    Setting {
        kind: hand.kind,
        hands: play.run_info.hands,
        discards: play.run_info.discards,
        money: play.run_info.money,
        selected: selected.len(),
        held_all_dark: holds_only_dark(held),
        spades: holds_suit(selected, Suit::Spades),
        hearts: holds_suit(selected, Suit::Hearts),
        clubs: holds_suit(selected, Suit::Clubs),
        diamonds: holds_suit(selected, Suit::Diamonds),
        played: find_played(&play.run_info.poker_hands, hand),
        drained: count_enhanced(scored),
    }
}

/// Every step of a play in order, the hand being classified as `hand` and
/// `scored` being the cards that count.
pub fn play_trace(play: &Play, hand: PokerHand, scored: &Vec<PlayingCard>) -> (r: Result<
    Vec<Step>,
    ScoreError,
>)
    ensures
        agrees(r, play_steps(play@, hand, scored@)),
        r matches Err(e) ==> e is UnmodeledEffect || e is MissingHandContext,
{
    let ghost parts = seq![
        scored_phase(scored@, play.jokers@, has_vampire(play.jokers@), play.run_info.hands),
        held_phase(held_cards(play.hand@), play.jokers@),
        joker_phase(play.jokers@, setting_of(play@, hand, scored@)),
    ];
    proof {
        assert(parts.take(0) =~= Seq::empty());
        lemma_chain_next(parts, 0);
        lemma_chain_next(parts, 1);
        lemma_chain_next(parts, 2);
        assert(parts.take(3) =~= parts);
    }
    let present = look_for(&play.jokers);
    let mut steps = match scored_trace(scored, &play.jokers, present.vampire, play.run_info.hands) {
        Ok(steps) => steps,
        Err(e) => {
            proof {
                lemma_chain_stops(parts, 1);
            }
            return Err(e);
        },
    };
    assert(seq![] + steps@ =~= steps@);
    let selected = play.selected();
    let held = play.held();
    match held_trace(&held, &play.jokers) {
        Ok(more) => {
            let mut more = more;
            steps.append(&mut more);
        },
        Err(e) => {
            proof {
                lemma_chain_stops(parts, 2);
            }
            return Err(e);
        },
    }
    let setting = read_setting(play, hand, &selected, &held, scored);
    match joker_trace(&play.jokers, setting) {
        Ok(more) => {
            let mut more = more;
            steps.append(&mut more);
        },
        Err(e) => {
            return Err(e);
        },
    }
    Ok(steps)
}

/// Scores a play in which `scored` are the cards that count.
///
/// Returns the exact chips, multiplier and product. Fails with
/// `MissingHandContext` where the selection is not classified or a joker
/// needs a record that the run does not hold, with `UnmodeledEffect` at the
/// first joker, in the order of scoring, whose effect is not known, and with
/// `Overflow` where a play without either fault leaves 128 bits.
pub fn accumulate(play: &Play, scored: &Vec<PlayingCard>) -> (r: Result<ScoreResult, ScoreError>)
    ensures
        match r {
            Ok(score) => exact_tally(play@, scored@) matches Ok(t) && tally_fits(play@, scored@)
                && score.shows(t),
            Err(e) => if e == ScoreError::Overflow {
                exact_tally(play@, scored@) is Ok && !tally_fits(play@, scored@)
            } else {
                exact_tally(play@, scored@) == Err::<Tally, ScoreError>(e)
            },
        },
        r matches Ok(score) ==> score.mult.den > 0 && score.total.den == score.mult.den,
        r matches Ok(score) ==> (play.run_info.deck == Deck::Plasma ==> score.mult.den == 1
            && score.mult.num == score.chips),
{
    let hand = match play.poker_hand {
        Some(hand) => hand,
        None => {
            return Err(ScoreError::MissingHandContext);
        },
    };
    let steps = match play_trace(play, hand, scored) {
        Ok(steps) => steps,
        Err(e) => {
            return Err(e);
        },
    };
    let start = Totals::start(hand.chips, hand.mult);
    let end = match run_steps(start, &steps) {
        Some(end) => end,
        None => {
            return Err(ScoreError::Overflow);
        },
    };
    proof {
        lemma_run_wf(start@, steps@);
    }
    let end = match play.run_info.deck {
        Deck::Plasma => end.level(),
        _ => end,
    };
    match end.chips.checked_mul(end.mult.num) {
        Some(product) => Ok(
            ScoreResult {
                chips: end.chips,
                mult: end.mult,
                total: Ratio { num: product, den: end.mult.den },
            },
        ),
        None => Err(ScoreError::Overflow),
    }
}

/// Recomputes the score that a play will yield.
///
/// A play without a selected card scores nothing, whatever else it holds.
/// Otherwise the cards that count are found ([`get_scored_cards`]; with a
/// splash joker every selected card counts) and the play is scored as
/// [`accumulate`] says.
pub fn score_hand(play: &Play) -> (r: Result<ScoreResult, ScoreError>)
    ensures
        is_score_of(play@, r),
        selected_cards(play.hand@).len() == 0 ==> r == Ok::<ScoreResult, ScoreError>(
            ScoreResult { chips: 0, mult: Ratio { num: 0, den: 1 }, total: Ratio { num: 0, den: 1 } },
        ),
        r matches Ok(score) ==> score.mult.den > 0 && score.total.den == score.mult.den,
        r matches Ok(score) ==> (play.run_info.deck == Deck::Plasma ==> score.mult.den == 1
            && score.mult.num == score.chips),
{
    let selected = play.selected();
    if selected.len() == 0 {
        assert((Tally { chips: 0, num: 0, den: 1 }).total_num() == 0) by (nonlinear_arith);
        return Ok(
            ScoreResult { chips: 0, mult: Ratio { num: 0, den: 1 }, total: Ratio { num: 0, den: 1 } },
        );
    }
    let hand = match play.poker_hand {
        Some(hand) => hand,
        None => {
            return Err(ScoreError::MissingHandContext);
        },
    };
    let present = look_for(&play.jokers);
    let scored = if present.splash {
        selected
    } else {
        get_scored_cards(&selected, hand.kind, present.four_fingers)
    };
    accumulate(play, &scored)
}

/// How often the classified hand of a play was played in this run, which is
/// what a supernova adds to the multiplier.
///
/// Fails with `MissingHandContext` where the selection is not classified or
/// the run has no record of exactly this hand.
pub fn get_supernova_mult(play: &Play) -> (r: Result<u64, ScoreError>)
    ensures
        r == match play.poker_hand {
            Some(hand) => match times_played(play.run_info.poker_hands@, hand) {
                Some(played) => Ok::<u64, ScoreError>(played),
                None => Err(ScoreError::MissingHandContext),
            },
            None => Err(ScoreError::MissingHandContext),
        },
{
    match play.poker_hand {
        Some(hand) => match find_played(&play.run_info.poker_hands, hand) {
            Some(played) => Ok(played),
            None => Err(ScoreError::MissingHandContext),
        },
        None => Err(ScoreError::MissingHandContext),
    }
}

} // verus!
