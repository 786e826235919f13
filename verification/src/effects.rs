//! What each card and each joker does to the running totals.
//!
//! Every rule comes twice: as a function on sequences, which says what the
//! rule is, and as a function that builds the same steps in a vector.
use vstd::prelude::*;
use crate::cards::{get_chips_from_rank, CardEdition, Enhancement, PlayingCard, Rank, Suit};
use crate::error::ScoreError;
use crate::hands::PokerHandKind;
use crate::jokers::{Joker, JokerEdition, JokerKind};
use crate::tally::Step;

verus! {

/// What the jokers' own rules read of a play, apart from the jokers.
#[derive(Clone, Copy, Debug, PartialEq, Eq, Structural)]
pub struct Setting {
    /// What the selection was classified as.
    pub kind: PokerHandKind,
    /// Hands left, the one being played included.
    pub hands: u32,
    /// Discards left.
    pub discards: u32,
    pub money: u32,
    /// How many cards are selected.
    pub selected: usize,
    /// Every card that stays in hand is a spade or a club.
    pub held_all_dark: bool,
    /// A spade is among the selected cards; likewise for the next three.
    pub spades: bool,
    pub hearts: bool,
    pub clubs: bool,
    pub diamonds: bool,
    /// How often the classified hand was played, where the run has a record
    /// of it.
    pub played: Option<u64>,
    /// How many scored cards gave their enhancement up to a vampire.
    pub drained: usize,
}

/// The vector holds the steps of the sequence, or both give the same reason
/// why there are none.
pub open spec fn agrees(r: Result<Vec<Step>, ScoreError>, t: Result<Seq<Step>, ScoreError>) -> bool {
    match (r, t) {
        (Ok(v), Ok(s)) => v@ =~= s,
        (Err(e), Err(f)) => e == f,
        _ => false,
    }
}

/// What a scored card's enhancement does. Where a vampire is among the jokers
/// (`drained`), the enhancement goes to the vampire and does nothing here.
pub open spec fn enhancement_steps(card: PlayingCard, drained: bool) -> Seq<Step> {
    if drained {
        seq![]
    } else {
        match card.enhancement {
            Some(Enhancement::Bonus) => seq![Step::AddChips(30)],
            Some(Enhancement::Glass) => seq![Step::Times(2)],
            Some(Enhancement::Mult) => seq![Step::AddMult(4)],
            Some(Enhancement::Lucky) => seq![Step::AddMult(20)],
            Some(Enhancement::Stone) => seq![Step::AddChips(50)],
            _ => seq![],
        }
    }
}

/// What a scored card's edition does.
pub open spec fn edition_steps(card: PlayingCard) -> Seq<Step> {
    match card.edition {
        Some(CardEdition::Foil) => seq![Step::AddChips(50)],
        Some(CardEdition::Holographic) => seq![Step::AddChips(10)],
        Some(CardEdition::Polychrome) => seq![Step::TimesThreeHalves],
        None => seq![],
    }
}

/// What a joker of the given kind does when the given card is scored, with
/// `hands` hands left.
pub open spec fn joker_on_scored(kind: JokerKind, card: PlayingCard, hands: u32) -> Result<
    Seq<Step>,
    ScoreError,
> {
    match kind {
        JokerKind::GreedyJoker => Ok(
            if card.suit == Suit::Diamonds {
                seq![Step::AddMult(3)]
            } else {
                seq![]
            },
        ),
        JokerKind::LustyJoker => Ok(
            if card.suit == Suit::Hearts {
                seq![Step::AddMult(3)]
            } else {
                seq![]
            },
        ),
        JokerKind::WrathfulJoker => Ok(
            if card.suit == Suit::Spades {
                seq![Step::AddMult(3)]
            } else {
                seq![]
            },
        ),
        JokerKind::GluttenousJoker => Ok(
            if card.suit == Suit::Clubs {
                seq![Step::AddMult(3)]
            } else {
                seq![]
            },
        ),
        JokerKind::EightBall => Err(ScoreError::UnmodeledEffect(kind)),
        JokerKind::Dusk => if hands == 1 {
            Err(ScoreError::UnmodeledEffect(kind))
        } else {
            Ok(seq![])
        },
        JokerKind::Fibonacci => Ok(
            match card.rank {
                Rank::Ace | Rank::Two | Rank::Three | Rank::Five | Rank::Eight => seq![
                    Step::AddMult(8),
                ],
                _ => seq![],
            },
        ),
        JokerKind::ScaryFace => Ok(
            if card.rank.is_face() {
                seq![Step::AddChips(30)]
            } else {
                seq![]
            },
        ),
        JokerKind::Hack => Err(ScoreError::UnmodeledEffect(kind)),
        JokerKind::EvenSteven => Ok(
            match card.rank {
                Rank::Two | Rank::Four | Rank::Six | Rank::Eight | Rank::Ten => seq![
                    Step::AddMult(4),
                ],
                _ => seq![],
            },
        ),
        JokerKind::OddTodd => Ok(
            match card.rank {
                Rank::Ace | Rank::Two | Rank::Three | Rank::Five | Rank::Seven | Rank::Nine => seq![
                    Step::AddChips(31),
                ],
                _ => seq![],
            },
        ),
        JokerKind::Scholar => Ok(
            if card.rank == Rank::Ace {
                seq![Step::AddMult(4), Step::AddChips(20)]
            } else {
                seq![]
            },
        ),
        JokerKind::Business => if card.rank.is_face() {
            Err(ScoreError::UnmodeledEffect(kind))
        } else {
            Ok(seq![])
        },
        JokerKind::Ancient { suit } => Ok(
            if card.suit == suit {
                seq![Step::TimesThreeHalves]
            } else {
                seq![]
            },
        ),
        JokerKind::WalkieTalkie => Ok(
            match card.rank {
                Rank::Four | Rank::Ten => seq![Step::AddChips(10), Step::AddMult(4)],
                _ => seq![],
            },
        ),
        JokerKind::Smiley => Ok(
            if card.rank.is_face() {
                seq![Step::AddMult(5)]
            } else {
                seq![]
            },
        ),
        JokerKind::Ticket => if card.enhancement == Some(Enhancement::Gold) {
            Err(ScoreError::UnmodeledEffect(kind))
        } else {
            Ok(seq![])
        },
        JokerKind::RoughGem => if card.suit == Suit::Diamonds {
            Err(ScoreError::UnmodeledEffect(kind))
        } else {
            Ok(seq![])
        },
        JokerKind::Bloodstone => Ok(
            if card.suit == Suit::Hearts {
                seq![Step::TimesThreeHalves]
            } else {
                seq![]
            },
        ),
        JokerKind::Arrowhead => Ok(
            if card.suit == Suit::Spades {
                seq![Step::AddChips(50)]
            } else {
                seq![]
            },
        ),
        JokerKind::OnyxAgate => Ok(
            if card.suit == Suit::Clubs {
                seq![Step::AddMult(7)]
            } else {
                seq![]
            },
        ),
        JokerKind::Idol { rank, suit } => Ok(
            if card.rank == rank && card.suit == suit {
                seq![Step::Times(2)]
            } else {
                seq![]
            },
        ),
        JokerKind::Triboulet => Ok(
            match card.rank {
                Rank::Queen | Rank::King => seq![Step::Times(2)],
                _ => seq![],
            },
        ),
        _ => Ok(seq![]),
    }
}

/// What a joker of the given kind does for a card that stays in hand.
/// `lowest` is the place in the rank order of the lowest card that stays.
pub open spec fn joker_on_held(kind: JokerKind, card: PlayingCard, lowest: int) -> Result<
    Seq<Step>,
    ScoreError,
> {
    match kind {
        JokerKind::Baron => Ok(
            if card.rank == Rank::King {
                seq![Step::TimesThreeHalves]
            } else {
                seq![]
            },
        ),
        JokerKind::ReservedParking => if card.rank.is_face() {
            Err(ScoreError::UnmodeledEffect(kind))
        } else {
            Ok(seq![])
        },
        JokerKind::RaisedFist => Ok(
            if card.rank.position() == lowest {
                seq![Step::AddMult(card.rank.chips() as u64)]
            } else {
                seq![]
            },
        ),
        _ => Ok(seq![]),
    }
}

/// What a joker of the given kind does once per play, whatever the cards.
pub open spec fn joker_on_play(kind: JokerKind, setting: Setting) -> Result<Seq<Step>, ScoreError> {
    match kind {
        JokerKind::Joker => Ok(seq![Step::AddMult(4)]),
        JokerKind::Jolly => Ok(when(setting.kind == PokerHandKind::Pair, Step::AddMult(8))),
        JokerKind::Zany => Ok(when(setting.kind == PokerHandKind::ThreeOfAKind, Step::AddMult(12))),
        JokerKind::Mad => Ok(when(setting.kind == PokerHandKind::TwoPair, Step::AddMult(10))),
        JokerKind::Crazy => Ok(when(setting.kind == PokerHandKind::Straight, Step::AddMult(12))),
        JokerKind::Droll => Ok(when(setting.kind == PokerHandKind::Flush, Step::AddMult(10))),
        JokerKind::Sly => Ok(when(setting.kind == PokerHandKind::Pair, Step::AddChips(50))),
        JokerKind::Wily => Ok(when(setting.kind == PokerHandKind::ThreeOfAKind, Step::AddChips(100))),
        JokerKind::Clever => Ok(when(setting.kind == PokerHandKind::TwoPair, Step::AddChips(80))),
        JokerKind::Devious => Ok(when(setting.kind == PokerHandKind::Straight, Step::AddChips(100))),
        JokerKind::Crafty => Ok(when(setting.kind == PokerHandKind::Flush, Step::AddChips(80))),
        JokerKind::Half => Ok(when(setting.selected <= 3, Step::AddMult(20))),
        JokerKind::Stencil { xmult } => Ok(seq![Step::Times(xmult)]),
        JokerKind::Banner => Ok(seq![Step::AddChips((30 * setting.discards) as u64)]),
        JokerKind::MysticSummit => Ok(when(setting.discards == 0, Step::AddMult(15))),
        JokerKind::LoyaltyCard { left } => Ok(when(left == 0, Step::Times(4))),
        JokerKind::Misprint => Ok(seq![Step::AddMult(23)]),
        JokerKind::GrosMichel => Ok(seq![Step::AddMult(15)]),
        JokerKind::Supernova => match setting.played {
            Some(n) => Ok(seq![Step::AddMult(n)]),
            None => Err(ScoreError::MissingHandContext),
        },
        JokerKind::Blackboard => Ok(when(setting.held_all_dark, Step::Times(3))),
        JokerKind::TodoList { poker_hand } => if poker_hand == setting.kind {
            Err(ScoreError::UnmodeledEffect(kind))
        } else {
            Ok(seq![])
        },
        JokerKind::Cavendish => Ok(seq![Step::Times(3)]),
        JokerKind::CardSharp => Err(ScoreError::UnmodeledEffect(kind)),
        JokerKind::Vampire { xmult } => Ok(
            seq![Step::TimesHundredths((xmult.0 + 10 * setting.drained) as u128)],
        ),
        JokerKind::Bull => Ok(seq![Step::AddChips((2 * setting.money) as u64)]),
        JokerKind::Acrobat => Ok(when(setting.hands == 1, Step::Times(3))),
        JokerKind::FlowerPot => Ok(
            when(
                setting.spades && setting.clubs && setting.diamonds && setting.hearts,
                Step::Times(3),
            ),
        ),
        JokerKind::Blueprint => Err(ScoreError::UnmodeledEffect(kind)),
        JokerKind::SeeingDouble => Ok(
            when(
                setting.clubs && (setting.spades || setting.diamonds || setting.hearts),
                Step::Times(3),
            ),
        ),
        JokerKind::Matador => Err(ScoreError::UnmodeledEffect(kind)),
        JokerKind::Duo => Ok(when(setting.kind == PokerHandKind::Pair, Step::Times(2))),
        JokerKind::Trio => Ok(when(setting.kind == PokerHandKind::ThreeOfAKind, Step::Times(3))),
        JokerKind::Family => Ok(when(setting.kind == PokerHandKind::FourOfAKind, Step::Times(4))),
        JokerKind::Order => Ok(when(setting.kind == PokerHandKind::Straight, Step::Times(3))),
        JokerKind::Tribe => Ok(when(setting.kind == PokerHandKind::Flush, Step::Times(2))),
        JokerKind::Stuntman => Ok(seq![Step::AddChips(250)]),
        JokerKind::DriversLicense { cards } => Ok(when(cards >= 16, Step::Times(3))),
        JokerKind::Runner { chips }
        | JokerKind::IceCream { chips }
        | JokerKind::BlueJoker { chips }
        | JokerKind::Square { chips }
        | JokerKind::Stone { chips }
        | JokerKind::Castle { chips }
        | JokerKind::Wee { chips } => Ok(seq![Step::AddChips(chips)]),
        JokerKind::Ceremonial { mult }
        | JokerKind::Abstract { mult }
        | JokerKind::GreenJoker { mult }
        | JokerKind::RedCard { mult }
        | JokerKind::Erosion { mult }
        | JokerKind::FortuneTeller { mult }
        | JokerKind::Flash { mult }
        | JokerKind::Popcorn { mult }
        | JokerKind::Trousers { mult }
        | JokerKind::Swashbuckler { mult }
        | JokerKind::Bootstraps { mult } => Ok(seq![Step::AddMult(mult)]),
        JokerKind::SteelJoker { xmult }
        | JokerKind::Constellation { xmult }
        | JokerKind::Madness { xmult }
        | JokerKind::Hologram { xmult }
        | JokerKind::Obelisk { xmult }
        | JokerKind::Ramen { xmult }
        | JokerKind::Campfire { xmult }
        | JokerKind::Throwback { xmult }
        | JokerKind::Glass { xmult }
        | JokerKind::HitTheRoad { xmult }
        | JokerKind::Caino { xmult }
        | JokerKind::Yorick { xmult } => Ok(seq![Step::TimesHundredths(xmult.0 as u128)]),
        _ => Ok(seq![]),
    }
}

/// The step alone where the condition holds, else no step.
pub open spec fn when(condition: bool, step: Step) -> Seq<Step> {
    if condition {
        seq![step]
    } else {
        seq![]
    }
}

/// What a joker's edition does, after the joker's own rule.
pub open spec fn joker_edition_steps(edition: Option<JokerEdition>) -> Seq<Step> {
    match edition {
        Some(JokerEdition::Foil) => seq![Step::AddChips(50)],
        Some(JokerEdition::Holographic) => seq![Step::AddMult(10)],
        Some(JokerEdition::Polychrome) => seq![Step::TimesThreeHalves],
        Some(JokerEdition::Negative) => seq![],
        None => seq![],
    }
}

/// A joker's part in the last round over the jokers: its own rule, then its
/// edition.
pub open spec fn joker_steps(joker: Joker, setting: Setting) -> Result<Seq<Step>, ScoreError> {
    match joker_on_play(joker.kind, setting) {
        Ok(steps) => Ok(steps + joker_edition_steps(joker.edition)),
        Err(e) => Err(e),
    }
}

/// How far scoring knows a kind of joker.
#[derive(Clone, Copy, Debug, PartialEq, Eq, Structural)]
pub enum Coverage {
    /// What the joker does to a score is known and is done.
    Applied,
    /// What the joker does is not known. Where it would act, the play has no
    /// score.
    Deferred,
    /// The joker takes no part in scoring a hand: it gives no step and
    /// never stops a play from being scored.
    Unscored,
}

/// How far scoring knows each kind of joker. Every kind is named here.
pub open spec fn coverage(kind: JokerKind) -> Coverage {
    match kind {
        JokerKind::Joker
        | JokerKind::GreedyJoker
        | JokerKind::LustyJoker
        | JokerKind::WrathfulJoker
        | JokerKind::GluttenousJoker
        | JokerKind::Jolly
        | JokerKind::Zany
        | JokerKind::Mad
        | JokerKind::Crazy
        | JokerKind::Droll
        | JokerKind::Sly
        | JokerKind::Wily
        | JokerKind::Clever
        | JokerKind::Devious
        | JokerKind::Crafty
        | JokerKind::Half
        | JokerKind::Stencil { .. }
        | JokerKind::FourFingers
        | JokerKind::Ceremonial { .. }
        | JokerKind::Banner
        | JokerKind::MysticSummit
        | JokerKind::LoyaltyCard { .. }
        | JokerKind::Misprint
        | JokerKind::RaisedFist
        | JokerKind::Fibonacci
        | JokerKind::SteelJoker { .. }
        | JokerKind::ScaryFace
        | JokerKind::Abstract { .. }
        | JokerKind::GrosMichel
        | JokerKind::EvenSteven
        | JokerKind::OddTodd
        | JokerKind::Scholar
        | JokerKind::Supernova
        | JokerKind::Blackboard
        | JokerKind::Runner { .. }
        | JokerKind::IceCream { .. }
        | JokerKind::Splash
        | JokerKind::BlueJoker { .. }
        | JokerKind::Constellation { .. }
        | JokerKind::GreenJoker { .. }
        | JokerKind::Cavendish
        | JokerKind::RedCard { .. }
        | JokerKind::Madness { .. }
        | JokerKind::Square { .. }
        | JokerKind::Vampire { .. }
        | JokerKind::Hologram { .. }
        | JokerKind::Baron
        | JokerKind::Obelisk { .. }
        | JokerKind::Erosion { .. }
        | JokerKind::FortuneTeller { .. }
        | JokerKind::Stone { .. }
        | JokerKind::Bull
        | JokerKind::Flash { .. }
        | JokerKind::Popcorn { .. }
        | JokerKind::Trousers { .. }
        | JokerKind::Ancient { .. }
        | JokerKind::Ramen { .. }
        | JokerKind::WalkieTalkie
        | JokerKind::Castle { .. }
        | JokerKind::Smiley
        | JokerKind::Campfire { .. }
        | JokerKind::Acrobat
        | JokerKind::Swashbuckler { .. }
        | JokerKind::Throwback { .. }
        | JokerKind::Bloodstone
        | JokerKind::Arrowhead
        | JokerKind::OnyxAgate
        | JokerKind::Glass { .. }
        | JokerKind::FlowerPot
        | JokerKind::Wee { .. }
        | JokerKind::Idol { .. }
        | JokerKind::SeeingDouble
        | JokerKind::HitTheRoad { .. }
        | JokerKind::Duo
        | JokerKind::Trio
        | JokerKind::Family
        | JokerKind::Order
        | JokerKind::Tribe
        | JokerKind::Stuntman
        | JokerKind::DriversLicense { .. }
        | JokerKind::Bootstraps { .. }
        | JokerKind::Caino { .. }
        | JokerKind::Triboulet
        | JokerKind::Yorick { .. } => Coverage::Applied,
        JokerKind::EightBall
        | JokerKind::Dusk
        | JokerKind::Hack
        | JokerKind::Business
        | JokerKind::Ticket
        | JokerKind::RoughGem
        | JokerKind::ReservedParking
        | JokerKind::TodoList { .. }
        | JokerKind::CardSharp
        | JokerKind::Blueprint
        | JokerKind::Matador => Coverage::Deferred,
        JokerKind::Mime
        | JokerKind::CreditCard
        | JokerKind::Marble
        | JokerKind::Chaos
        | JokerKind::DelayedGrat
        | JokerKind::Pareidolia
        | JokerKind::RideTheBus
        | JokerKind::Space
        | JokerKind::Egg
        | JokerKind::Burglar
        | JokerKind::Dna
        | JokerKind::SixthSense
        | JokerKind::Hiker
        | JokerKind::Faceless
        | JokerKind::Superposition
        | JokerKind::Seance
        | JokerKind::RiffRaff
        | JokerKind::Shortcut
        | JokerKind::Vagabond
        | JokerKind::Cloud9
        | JokerKind::Rocket
        | JokerKind::MidasMask
        | JokerKind::Luchador
        | JokerKind::Photograph
        | JokerKind::Gift
        | JokerKind::TurtleBean
        | JokerKind::Mail
        | JokerKind::ToTheMoon
        | JokerKind::Hallucination
        | JokerKind::Juggler
        | JokerKind::Drunkard
        | JokerKind::Golden
        | JokerKind::LuckyCat
        | JokerKind::Baseball
        | JokerKind::DietCola
        | JokerKind::Trading
        | JokerKind::Selzer
        | JokerKind::MrBones
        | JokerKind::SockAndBuskin
        | JokerKind::Troubadour
        | JokerKind::Certificate
        | JokerKind::Smeared
        | JokerKind::HangingChad
        | JokerKind::RingMaster
        | JokerKind::MerryAndy
        | JokerKind::Oops
        | JokerKind::Invisible
        | JokerKind::Brainstorm
        | JokerKind::Satellite
        | JokerKind::ShootTheMoon
        | JokerKind::Cartomancer
        | JokerKind::Astronomer
        | JokerKind::Burnt
        | JokerKind::Chicot
        | JokerKind::Perkeo => Coverage::Unscored,
    }
}

/// The rules keep to the coverage: an unscored joker gives no step anywhere,
/// only a deferred joker is ever reported as not known, and an applied joker
/// always gives its steps, but for the supernova without a record.
pub proof fn lemma_rules_keep_to_coverage(
    kind: JokerKind,
    card: PlayingCard,
    hands: u32,
    lowest: int,
    setting: Setting,
)
    ensures
        coverage(kind) is Unscored ==> joker_on_scored(kind, card, hands) == Ok::<Seq<Step>, ScoreError>(seq![])
            && joker_on_held(kind, card, lowest) == Ok::<Seq<Step>, ScoreError>(seq![])
            && joker_on_play(kind, setting) == Ok::<Seq<Step>, ScoreError>(seq![]),
        coverage(kind) is Applied ==> joker_on_scored(kind, card, hands) is Ok && joker_on_held(
            kind,
            card,
            lowest,
        ) is Ok && (joker_on_play(kind, setting) is Ok || (kind == JokerKind::Supernova
            && setting.played is None)),
        joker_on_scored(kind, card, hands) is Err ==> coverage(kind) is Deferred
            && joker_on_scored(kind, card, hands) == Err::<Seq<Step>, ScoreError>(
            ScoreError::UnmodeledEffect(kind),
        ),
        joker_on_held(kind, card, lowest) is Err ==> coverage(kind) is Deferred && joker_on_held(
            kind,
            card,
            lowest,
        ) == Err::<Seq<Step>, ScoreError>(ScoreError::UnmodeledEffect(kind)),
        joker_on_play(kind, setting) is Err ==> (coverage(kind) is Deferred && joker_on_play(
            kind,
            setting,
        ) == Err::<Seq<Step>, ScoreError>(ScoreError::UnmodeledEffect(kind))) || (kind
            == JokerKind::Supernova && joker_on_play(kind, setting) == Err::<Seq<Step>, ScoreError>(
            ScoreError::MissingHandContext,
        )),
{
}

/// The steps of a scored card's enhancement.
pub fn enhancement_effect(card: PlayingCard, drained: bool) -> (r: Vec<Step>)
    ensures
        r@ == enhancement_steps(card, drained),
{
    if drained {
        vec![]
    } else {
        match card.enhancement {
            Some(Enhancement::Bonus) => vec![Step::AddChips(30)],
            Some(Enhancement::Glass) => vec![Step::Times(2)],
            Some(Enhancement::Mult) => vec![Step::AddMult(4)],
            Some(Enhancement::Lucky) => vec![Step::AddMult(20)],
            Some(Enhancement::Stone) => vec![Step::AddChips(50)],
            _ => vec![],
        }
    }
}

/// The steps of a scored card's edition.
pub fn edition_effect(card: PlayingCard) -> (r: Vec<Step>)
    ensures
        r@ == edition_steps(card),
{
    match card.edition {
        Some(CardEdition::Foil) => vec![Step::AddChips(50)],
        Some(CardEdition::Holographic) => vec![Step::AddChips(10)],
        Some(CardEdition::Polychrome) => vec![Step::TimesThreeHalves],
        None => vec![],
    }
}

/// The steps of a joker for a scored card, or `UnmodeledEffect` where the
/// joker would act and what it does is not known.
pub fn scored_joker_effect(kind: JokerKind, card: PlayingCard, hands: u32) -> (r: Result<
    Vec<Step>,
    ScoreError,
>)
    ensures
        agrees(r, joker_on_scored(kind, card, hands)),
        r matches Err(e) ==> e == ScoreError::UnmodeledEffect(kind),
{
    match kind {
        JokerKind::GreedyJoker => Ok(
            if card.suit == Suit::Diamonds {
                vec![Step::AddMult(3)]
            } else {
                vec![]
            },
        ),
        JokerKind::LustyJoker => Ok(
            if card.suit == Suit::Hearts {
                vec![Step::AddMult(3)]
            } else {
                vec![]
            },
        ),
        JokerKind::WrathfulJoker => Ok(
            if card.suit == Suit::Spades {
                vec![Step::AddMult(3)]
            } else {
                vec![]
            },
        ),
        JokerKind::GluttenousJoker => Ok(
            if card.suit == Suit::Clubs {
                vec![Step::AddMult(3)]
            } else {
                vec![]
            },
        ),
        JokerKind::EightBall => Err(ScoreError::UnmodeledEffect(kind)),
        JokerKind::Dusk => if hands == 1 {
            Err(ScoreError::UnmodeledEffect(kind))
        } else {
            Ok(vec![])
        },
        JokerKind::Fibonacci => Ok(
            match card.rank {
                Rank::Ace | Rank::Two | Rank::Three | Rank::Five | Rank::Eight => vec![
                    Step::AddMult(8),
                ],
                _ => vec![],
            },
        ),
        JokerKind::ScaryFace => Ok(
            if card.rank.face() {
                vec![Step::AddChips(30)]
            } else {
                vec![]
            },
        ),
        JokerKind::Hack => Err(ScoreError::UnmodeledEffect(kind)),
        JokerKind::EvenSteven => Ok(
            match card.rank {
                Rank::Two | Rank::Four | Rank::Six | Rank::Eight | Rank::Ten => vec![
                    Step::AddMult(4),
                ],
                _ => vec![],
            },
        ),
        JokerKind::OddTodd => Ok(
            match card.rank {
                Rank::Ace | Rank::Two | Rank::Three | Rank::Five | Rank::Seven | Rank::Nine => vec![
                    Step::AddChips(31),
                ],
                _ => vec![],
            },
        ),
        JokerKind::Scholar => Ok(
            if card.rank == Rank::Ace {
                vec![Step::AddMult(4), Step::AddChips(20)]
            } else {
                vec![]
            },
        ),
        JokerKind::Business => if card.rank.face() {
            Err(ScoreError::UnmodeledEffect(kind))
        } else {
            Ok(vec![])
        },
        JokerKind::Ancient { suit } => Ok(
            if card.suit == suit {
                vec![Step::TimesThreeHalves]
            } else {
                vec![]
            },
        ),
        JokerKind::WalkieTalkie => Ok(
            match card.rank {
                Rank::Four | Rank::Ten => vec![Step::AddChips(10), Step::AddMult(4)],
                _ => vec![],
            },
        ),
        JokerKind::Smiley => Ok(
            if card.rank.face() {
                vec![Step::AddMult(5)]
            } else {
                vec![]
            },
        ),
        JokerKind::Ticket => if card.enhancement == Some(Enhancement::Gold) {
            Err(ScoreError::UnmodeledEffect(kind))
        } else {
            Ok(vec![])
        },
        JokerKind::RoughGem => if card.suit == Suit::Diamonds {
            Err(ScoreError::UnmodeledEffect(kind))
        } else {
            Ok(vec![])
        },
        JokerKind::Bloodstone => Ok(
            if card.suit == Suit::Hearts {
                vec![Step::TimesThreeHalves]
            } else {
                vec![]
            },
        ),
        JokerKind::Arrowhead => Ok(
            if card.suit == Suit::Spades {
                vec![Step::AddChips(50)]
            } else {
                vec![]
            },
        ),
        JokerKind::OnyxAgate => Ok(
            if card.suit == Suit::Clubs {
                vec![Step::AddMult(7)]
            } else {
                vec![]
            },
        ),
        JokerKind::Idol { rank, suit } => Ok(
            if card.rank == rank && card.suit == suit {
                vec![Step::Times(2)]
            } else {
                vec![]
            },
        ),
        JokerKind::Triboulet => Ok(
            match card.rank {
                Rank::Queen | Rank::King => vec![Step::Times(2)],
                _ => vec![],
            },
        ),
        _ => Ok(vec![]),
    }
}

/// The steps of a joker for a card that stays in hand, or `UnmodeledEffect`
/// where the joker would act and what it does is not known.
pub fn held_joker_effect(kind: JokerKind, card: PlayingCard, lowest: u8) -> (r: Result<
    Vec<Step>,
    ScoreError,
>)
    ensures
        agrees(r, joker_on_held(kind, card, lowest as int)),
        r matches Err(e) ==> e == ScoreError::UnmodeledEffect(kind),
{
    match kind {
        JokerKind::Baron => Ok(
            if card.rank == Rank::King {
                vec![Step::TimesThreeHalves]
            } else {
                vec![]
            },
        ),
        JokerKind::ReservedParking => if card.rank.face() {
            Err(ScoreError::UnmodeledEffect(kind))
        } else {
            Ok(vec![])
        },
        JokerKind::RaisedFist => Ok(
            if card.rank.ordinal() == lowest {
                vec![Step::AddMult(get_chips_from_rank(card.rank))]
            } else {
                vec![]
            },
        ),
        _ => Ok(vec![]),
    }
}

/// The steps of a joker's rule for the play as a whole. Fails with
/// `UnmodeledEffect` where the joker would act and what it does is not known,
/// and with `MissingHandContext` for a supernova without a record.
pub fn play_joker_effect(kind: JokerKind, setting: Setting) -> (r: Result<Vec<Step>, ScoreError>)
    ensures
        agrees(r, joker_on_play(kind, setting)),
        r matches Err(e) ==> e == ScoreError::UnmodeledEffect(kind) || e
            == ScoreError::MissingHandContext,
{
    match kind {
        JokerKind::Joker => Ok(vec![Step::AddMult(4)]),
        JokerKind::Jolly => Ok(only_when(setting.kind == PokerHandKind::Pair, Step::AddMult(8))),
        JokerKind::Zany => Ok(only_when(setting.kind == PokerHandKind::ThreeOfAKind, Step::AddMult(12))),
        JokerKind::Mad => Ok(only_when(setting.kind == PokerHandKind::TwoPair, Step::AddMult(10))),
        JokerKind::Crazy => Ok(only_when(setting.kind == PokerHandKind::Straight, Step::AddMult(12))),
        JokerKind::Droll => Ok(only_when(setting.kind == PokerHandKind::Flush, Step::AddMult(10))),
        JokerKind::Sly => Ok(only_when(setting.kind == PokerHandKind::Pair, Step::AddChips(50))),
        JokerKind::Wily => Ok(only_when(setting.kind == PokerHandKind::ThreeOfAKind, Step::AddChips(100))),
        JokerKind::Clever => Ok(only_when(setting.kind == PokerHandKind::TwoPair, Step::AddChips(80))),
        JokerKind::Devious => Ok(only_when(setting.kind == PokerHandKind::Straight, Step::AddChips(100))),
        JokerKind::Crafty => Ok(only_when(setting.kind == PokerHandKind::Flush, Step::AddChips(80))),
        JokerKind::Half => Ok(only_when(setting.selected <= 3, Step::AddMult(20))),
        JokerKind::Stencil { xmult } => Ok(vec![Step::Times(xmult)]),
        JokerKind::Banner => Ok(vec![Step::AddChips(30 * (setting.discards as u64))]),
        JokerKind::MysticSummit => Ok(only_when(setting.discards == 0, Step::AddMult(15))),
        JokerKind::LoyaltyCard { left } => Ok(only_when(left == 0, Step::Times(4))),
        JokerKind::Misprint => Ok(vec![Step::AddMult(23)]),
        JokerKind::GrosMichel => Ok(vec![Step::AddMult(15)]),
        JokerKind::Supernova => match setting.played {
            Some(n) => Ok(vec![Step::AddMult(n)]),
            None => Err(ScoreError::MissingHandContext),
        },
        JokerKind::Blackboard => Ok(only_when(setting.held_all_dark, Step::Times(3))),
        JokerKind::TodoList { poker_hand } => if poker_hand == setting.kind {
            Err(ScoreError::UnmodeledEffect(kind))
        } else {
            Ok(vec![])
        },
        JokerKind::Cavendish => Ok(vec![Step::Times(3)]),
        JokerKind::CardSharp => Err(ScoreError::UnmodeledEffect(kind)),
        JokerKind::Vampire { xmult } => Ok(
            vec![Step::TimesHundredths(xmult.0 as u128 + 10 * (setting.drained as u128))],
        ),
        JokerKind::Bull => Ok(vec![Step::AddChips(2 * (setting.money as u64))]),
        JokerKind::Acrobat => Ok(only_when(setting.hands == 1, Step::Times(3))),
        JokerKind::FlowerPot => Ok(
            only_when(
                setting.spades && setting.clubs && setting.diamonds && setting.hearts,
                Step::Times(3),
            ),
        ),
        JokerKind::Blueprint => Err(ScoreError::UnmodeledEffect(kind)),
        JokerKind::SeeingDouble => Ok(
            only_when(
                setting.clubs && (setting.spades || setting.diamonds || setting.hearts),
                Step::Times(3),
            ),
        ),
        JokerKind::Matador => Err(ScoreError::UnmodeledEffect(kind)),
        JokerKind::Duo => Ok(only_when(setting.kind == PokerHandKind::Pair, Step::Times(2))),
        JokerKind::Trio => Ok(only_when(setting.kind == PokerHandKind::ThreeOfAKind, Step::Times(3))),
        JokerKind::Family => Ok(only_when(setting.kind == PokerHandKind::FourOfAKind, Step::Times(4))),
        JokerKind::Order => Ok(only_when(setting.kind == PokerHandKind::Straight, Step::Times(3))),
        JokerKind::Tribe => Ok(only_when(setting.kind == PokerHandKind::Flush, Step::Times(2))),
        JokerKind::Stuntman => Ok(vec![Step::AddChips(250)]),
        JokerKind::DriversLicense { cards } => Ok(only_when(cards >= 16, Step::Times(3))),
        JokerKind::Runner { chips }
        | JokerKind::IceCream { chips }
        | JokerKind::BlueJoker { chips }
        | JokerKind::Square { chips }
        | JokerKind::Stone { chips }
        | JokerKind::Castle { chips }
        | JokerKind::Wee { chips } => Ok(vec![Step::AddChips(chips)]),
        JokerKind::Ceremonial { mult }
        | JokerKind::Abstract { mult }
        | JokerKind::GreenJoker { mult }
        | JokerKind::RedCard { mult }
        | JokerKind::Erosion { mult }
        | JokerKind::FortuneTeller { mult }
        | JokerKind::Flash { mult }
        | JokerKind::Popcorn { mult }
        | JokerKind::Trousers { mult }
        | JokerKind::Swashbuckler { mult }
        | JokerKind::Bootstraps { mult } => Ok(vec![Step::AddMult(mult)]),
        JokerKind::SteelJoker { xmult }
        | JokerKind::Constellation { xmult }
        | JokerKind::Madness { xmult }
        | JokerKind::Hologram { xmult }
        | JokerKind::Obelisk { xmult }
        | JokerKind::Ramen { xmult }
        | JokerKind::Campfire { xmult }
        | JokerKind::Throwback { xmult }
        | JokerKind::Glass { xmult }
        | JokerKind::HitTheRoad { xmult }
        | JokerKind::Caino { xmult }
        | JokerKind::Yorick { xmult } => Ok(vec![Step::TimesHundredths(xmult.0 as u128)]),
        _ => Ok(vec![]),
    }
}

/// The step alone where the condition holds, else no step.
pub fn only_when(condition: bool, step: Step) -> (r: Vec<Step>)
    ensures
        r@ == when(condition, step),
{
    if condition {
        vec![step]
    } else {
        vec![]
    }
}

/// The steps of a joker's edition.
pub fn joker_edition_effect(edition: Option<JokerEdition>) -> (r: Vec<Step>)
    ensures
        r@ == joker_edition_steps(edition),
{
    match edition {
        Some(JokerEdition::Foil) => vec![Step::AddChips(50)],
        Some(JokerEdition::Holographic) => vec![Step::AddMult(10)],
        Some(JokerEdition::Polychrome) => vec![Step::TimesThreeHalves],
        Some(JokerEdition::Negative) => vec![],
        None => vec![],
    }
}

/// The steps of a joker's own rule, then those of its edition.
pub fn joker_effect(joker: Joker, setting: Setting) -> (r: Result<Vec<Step>, ScoreError>)
    ensures
        agrees(r, joker_steps(joker, setting)),
        r matches Err(e) ==> e == ScoreError::UnmodeledEffect(joker.kind) || e
            == ScoreError::MissingHandContext,
{
    match play_joker_effect(joker.kind, setting) {
        Ok(steps) => {
            let mut steps = steps;
            let mut more = joker_edition_effect(joker.edition);
            steps.append(&mut more);
            Ok(steps)
        },
        Err(e) => Err(e),
    }
}

} // verus!
