use hand_score::cards::{
    get_chips_from_rank, CardEdition, Enhancement, HeldCard, PlayingCard, Rank, Seal, Suit,
};
use hand_score::error::ScoreError;
use hand_score::hands::{HandRecord, PokerHand, PokerHandKind};
use hand_score::jokers::{Hundredths, Joker, JokerEdition, JokerKind};
use hand_score::play::{Deck, Play, RunInfo};
use hand_score::score::{accumulate, get_supernova_mult, score_hand, ScoreResult};
use hand_score::tally::Ratio;

fn card(rank: Rank, suit: Suit) -> PlayingCard {
    PlayingCard::plain(rank, suit)
}

fn picked(card: PlayingCard) -> HeldCard {
    HeldCard { card, selected: true }
}

fn kept(card: PlayingCard) -> HeldCard {
    HeldCard { card, selected: false }
}

fn hand_of(kind: PokerHandKind, chips: u64, mult: u64) -> PokerHand {
    PokerHand { kind, level: 1, chips, mult }
}

fn play_of(hand: Vec<HeldCard>, jokers: Vec<Joker>, poker_hand: Option<PokerHand>) -> Play {
    Play {
        hand,
        jokers,
        poker_hand,
        run_info: RunInfo {
            deck: Deck::Red,
            discards: 3,
            hands: 4,
            money: 0,
            poker_hands: vec![],
        },
    }
}

fn whole(score: &ScoreResult) -> (u128, u128, u128) {
    assert_eq!(score.mult.den, 1);
    assert_eq!(score.total.den, 1);
    (score.chips, score.mult.num, score.total.num)
}

fn flush_of_evens() -> Vec<HeldCard> {
    vec![
        picked(card(Rank::Two, Suit::Hearts)),
        picked(card(Rank::Four, Suit::Hearts)),
        picked(card(Rank::Six, Suit::Hearts)),
        picked(card(Rank::Eight, Suit::Hearts)),
        picked(card(Rank::Ten, Suit::Hearts)),
    ]
}

fn pair_of_kings() -> Vec<HeldCard> {
    vec![
        picked(card(Rank::King, Suit::Spades)),
        picked(card(Rank::King, Suit::Hearts)),
        picked(card(Rank::Two, Suit::Diamonds)),
    ]
}

#[test]
fn empty_selection_scores_nothing() {
    let play = play_of(
        vec![kept(card(Rank::Ace, Suit::Spades)), kept(card(Rank::King, Suit::Hearts))],
        vec![Joker::plain(JokerKind::Joker), Joker::plain(JokerKind::Hack)],
        None,
    );
    let score = score_hand(&play).unwrap();
    assert_eq!(
        score,
        ScoreResult { chips: 0, mult: Ratio { num: 0, den: 1 }, total: Ratio { num: 0, den: 1 } }
    );
}

#[test]
fn empty_hand_scores_nothing() {
    let play = play_of(vec![], vec![], Some(hand_of(PokerHandKind::Flush, 35, 4)));
    assert_eq!(score_hand(&play).unwrap().total, Ratio { num: 0, den: 1 });
}

#[test]
fn flush_of_five_scores_base_plus_ranks() {
    let play = play_of(flush_of_evens(), vec![], Some(hand_of(PokerHandKind::Flush, 35, 4)));
    let score = score_hand(&play).unwrap();
    assert_eq!(whole(&score), (65, 4, 260));
}

#[test]
fn pair_scores_the_two_kings_only() {
    let play = play_of(pair_of_kings(), vec![], Some(hand_of(PokerHandKind::Pair, 10, 2)));
    let score = score_hand(&play).unwrap();
    assert_eq!(whole(&score), (30, 2, 60));
}

#[test]
fn pair_with_stone_kicker_scores_the_kicker_too() {
    let mut hand = pair_of_kings();
    hand[2].card.enhancement = Some(Enhancement::Stone);
    let play = play_of(hand, vec![], Some(hand_of(PokerHandKind::Pair, 10, 2)));
    let score = score_hand(&play).unwrap();
    // two kings, the stone's 50 chips, and the chips of the stone card's rank
    assert_eq!(whole(&score), (10 + 10 + 10 + 50 + 2, 2, 164));
}

#[test]
fn unmodeled_joker_is_reported() {
    let play = play_of(
        flush_of_evens(),
        vec![Joker::plain(JokerKind::Joker), Joker::plain(JokerKind::Blueprint)],
        Some(hand_of(PokerHandKind::Flush, 35, 4)),
    );
    assert_eq!(score_hand(&play), Err(ScoreError::UnmodeledEffect(JokerKind::Blueprint)));
}

#[test]
fn first_unmodeled_joker_in_scoring_order_is_reported() {
    // Card sharp stands first, but hack acts earlier: on the first scored card.
    let play = play_of(
        flush_of_evens(),
        vec![Joker::plain(JokerKind::CardSharp), Joker::plain(JokerKind::Hack)],
        Some(hand_of(PokerHandKind::Flush, 35, 4)),
    );
    assert_eq!(score_hand(&play), Err(ScoreError::UnmodeledEffect(JokerKind::Hack)));
}

#[test]
fn conditional_gap_only_faults_when_it_applies() {
    let mut play = play_of(
        flush_of_evens(),
        vec![Joker::plain(JokerKind::Dusk), Joker::plain(JokerKind::RoughGem)],
        Some(hand_of(PokerHandKind::Flush, 35, 4)),
    );
    // four hands left, no diamond scored: neither joker does anything
    assert_eq!(whole(&score_hand(&play).unwrap()), (65, 4, 260));
    play.run_info.hands = 1;
    assert_eq!(score_hand(&play), Err(ScoreError::UnmodeledEffect(JokerKind::Dusk)));
}

#[test]
fn missing_classification_is_reported() {
    let play = play_of(flush_of_evens(), vec![], None);
    assert_eq!(score_hand(&play), Err(ScoreError::MissingHandContext));
    let scored: Vec<PlayingCard> = vec![];
    assert_eq!(accumulate(&play, &scored), Err(ScoreError::MissingHandContext));
}

#[test]
fn supernova_adds_times_played() {
    let flush = hand_of(PokerHandKind::Flush, 35, 4);
    let mut play = play_of(flush_of_evens(), vec![Joker::plain(JokerKind::Supernova)], Some(flush));
    assert_eq!(score_hand(&play), Err(ScoreError::MissingHandContext));
    assert_eq!(get_supernova_mult(&play), Err(ScoreError::MissingHandContext));
    play.run_info.poker_hands = vec![
        HandRecord { hand: hand_of(PokerHandKind::Pair, 10, 2), played: 9 },
        HandRecord { hand: PokerHand { level: 2, ..flush }, played: 5 },
        HandRecord { hand: flush, played: 7 },
        HandRecord { hand: flush, played: 8 },
    ];
    assert_eq!(get_supernova_mult(&play), Ok(7));
    assert_eq!(whole(&score_hand(&play).unwrap()), (65, 11, 715));
}

#[test]
fn supernova_mult_needs_a_classification() {
    let mut play = play_of(flush_of_evens(), vec![], None);
    play.run_info.poker_hands =
        vec![HandRecord { hand: hand_of(PokerHandKind::Flush, 35, 4), played: 1 }];
    assert_eq!(get_supernova_mult(&play), Err(ScoreError::MissingHandContext));
}

#[test]
fn overflow_is_reported() {
    let play = play_of(
        flush_of_evens(),
        vec![
            Joker::plain(JokerKind::Stencil { xmult: u64::MAX }),
            Joker::plain(JokerKind::Stencil { xmult: u64::MAX }),
        ],
        Some(hand_of(PokerHandKind::Flush, 35, 4)),
    );
    assert_eq!(score_hand(&play), Err(ScoreError::Overflow));
}

#[test]
fn overflow_of_the_product_is_reported() {
    let play = play_of(
        flush_of_evens(),
        vec![
            Joker::plain(JokerKind::Runner { chips: u64::MAX }),
            Joker::plain(JokerKind::Stencil { xmult: u64::MAX }),
        ],
        Some(hand_of(PokerHandKind::Flush, 35, 4)),
    );
    assert_eq!(score_hand(&play), Err(ScoreError::Overflow));
}

#[test]
fn fault_comes_before_overflow() {
    let play = play_of(
        flush_of_evens(),
        vec![
            Joker::plain(JokerKind::Stencil { xmult: u64::MAX }),
            Joker::plain(JokerKind::Stencil { xmult: u64::MAX }),
            Joker::plain(JokerKind::Matador),
        ],
        Some(hand_of(PokerHandKind::Flush, 35, 4)),
    );
    assert_eq!(score_hand(&play), Err(ScoreError::UnmodeledEffect(JokerKind::Matador)));
}

#[test]
fn plasma_deck_levels_chips_and_mult() {
    let mut play = play_of(flush_of_evens(), vec![], Some(hand_of(PokerHandKind::Flush, 35, 4)));
    play.run_info.deck = Deck::Plasma;
    let score = score_hand(&play).unwrap();
    // floor((65 + 4) / 2) = 34
    assert_eq!(whole(&score), (34, 34, 1156));
}

#[test]
fn plasma_deck_rounds_a_fraction_down() {
    let mut hand = flush_of_evens();
    hand[0].card.edition = Some(CardEdition::Polychrome);
    let mut play = play_of(hand, vec![], Some(hand_of(PokerHandKind::Flush, 35, 5)));
    // without levelling: chips 65, mult 15/2
    let plain = score_hand(&play).unwrap();
    assert_eq!(plain.chips, 65);
    assert_eq!(plain.mult, Ratio { num: 15, den: 2 });
    assert_eq!(plain.total, Ratio { num: 975, den: 2 });
    play.run_info.deck = Deck::Plasma;
    // floor((65 + 7.5) / 2) = 36
    assert_eq!(whole(&score_hand(&play).unwrap()), (36, 36, 1296));
}

#[test]
fn card_enhancements_and_editions() {
    let mut hand = flush_of_evens();
    hand[0].card.enhancement = Some(Enhancement::Bonus); // +30 chips
    hand[1].card.enhancement = Some(Enhancement::Mult); // +4 mult
    hand[2].card.enhancement = Some(Enhancement::Glass); // x2
    hand[3].card.enhancement = Some(Enhancement::Lucky); // +20 mult
    hand[4].card.enhancement = Some(Enhancement::Wild); // nothing
    hand[0].card.edition = Some(CardEdition::Foil); // +50 chips
    hand[1].card.edition = Some(CardEdition::Holographic); // +10 chips
    let play = play_of(hand, vec![], Some(hand_of(PokerHandKind::Flush, 35, 4)));
    let score = score_hand(&play).unwrap();
    // mult: (4 + 4) * 2 + 20 = 36; chips: 35 + 30 + 50 + 10 + 30 = 155
    assert_eq!(whole(&score), (155, 36, 5580));
}

#[test]
fn vampire_takes_enhancements() {
    let mut hand = flush_of_evens();
    hand[0].card.enhancement = Some(Enhancement::Glass);
    hand[1].card.enhancement = Some(Enhancement::Bonus);
    hand[2].card.enhancement = Some(Enhancement::Wild);
    let play = play_of(
        hand,
        vec![Joker::plain(JokerKind::Vampire { xmult: Hundredths(120) })],
        Some(hand_of(PokerHandKind::Flush, 35, 4)),
    );
    let score = score_hand(&play).unwrap();
    assert_eq!(score.chips, 65);
    // 4 * (1.20 + 3 * 0.10)
    assert_eq!(score.mult, Ratio { num: 600, den: 100 });
    assert_eq!(score.total, Ratio { num: 39000, den: 100 });
}

#[test]
fn adding_a_vampire_can_lower_the_score() {
    let mut hand = flush_of_evens();
    hand[0].card.enhancement = Some(Enhancement::Glass);
    let flush = Some(hand_of(PokerHandKind::Flush, 35, 4));
    let without = score_hand(&play_of(hand.clone(), vec![], flush)).unwrap();
    let with = score_hand(&play_of(
        hand,
        vec![Joker::plain(JokerKind::Vampire { xmult: Hundredths(100) })],
        flush,
    ))
    .unwrap();
    assert_eq!(without.total, Ratio { num: 520, den: 1 });
    assert_eq!(with.total, Ratio { num: 28600, den: 100 });
}

#[test]
fn suit_and_rank_jokers_act_per_scored_card() {
    let play = play_of(
        flush_of_evens(),
        vec![
            Joker::plain(JokerKind::LustyJoker),  // +3 mult for each of five hearts
            Joker::plain(JokerKind::EvenSteven),  // +4 mult for each of five even cards
            Joker::plain(JokerKind::Fibonacci),   // +8 mult for the two and the eight
            Joker::plain(JokerKind::WalkieTalkie), // +10 chips, +4 mult for the four and the ten
            Joker::plain(JokerKind::GreedyJoker), // no diamonds
            Joker::plain(JokerKind::OddTodd),     // +31 chips for the two
        ],
        Some(hand_of(PokerHandKind::Flush, 35, 4)),
    );
    let score = score_hand(&play).unwrap();
    assert_eq!(whole(&score), (65 + 20 + 31, 4 + 15 + 20 + 16 + 8, 116 * 63));
}

#[test]
fn held_cards_act_in_hand() {
    let mut hand = flush_of_evens();
    let mut steel = card(Rank::King, Suit::Clubs);
    steel.enhancement = Some(Enhancement::Steel);
    hand.push(kept(steel));
    hand.push(kept(card(Rank::Three, Suit::Spades)));
    let play = play_of(
        hand,
        vec![Joker::plain(JokerKind::Baron), Joker::plain(JokerKind::RaisedFist)],
        Some(hand_of(PokerHandKind::Flush, 35, 4)),
    );
    let score = score_hand(&play).unwrap();
    assert_eq!(score.chips, 65);
    // steel x1.5, baron x1.5 for the king, raised fist +3 for the three
    assert_eq!(score.mult, Ratio { num: 4 * 3 * 3 + 3 * 4, den: 4 });
}

#[test]
fn red_seal_in_hand_acts_twice() {
    let mut hand = flush_of_evens();
    let mut steel = card(Rank::King, Suit::Clubs);
    steel.enhancement = Some(Enhancement::Steel);
    steel.seal = Some(Seal::Red);
    hand.push(kept(steel));
    let play = play_of(hand, vec![], Some(hand_of(PokerHandKind::Flush, 35, 4)));
    let score = score_hand(&play).unwrap();
    assert_eq!(score.mult, Ratio { num: 36, den: 4 });
    assert_eq!(score.total, Ratio { num: 65 * 36, den: 4 });
}

#[test]
fn hand_gated_jokers() {
    let jokers = vec![
        Joker::plain(JokerKind::Droll),   // +10 mult on a flush
        Joker::plain(JokerKind::Crafty),  // +80 chips on a flush
        Joker::plain(JokerKind::Jolly),   // pair only
        Joker::plain(JokerKind::Sly),     // pair only
        Joker::plain(JokerKind::Tribe),   // x2 on a flush
        Joker::plain(JokerKind::Duo),     // pair only
    ];
    let play = play_of(flush_of_evens(), jokers.clone(), Some(hand_of(PokerHandKind::Flush, 35, 4)));
    assert_eq!(whole(&score_hand(&play).unwrap()), (145, 28, 145 * 28));
    let play = play_of(pair_of_kings(), jokers, Some(hand_of(PokerHandKind::Pair, 10, 2)));
    assert_eq!(whole(&score_hand(&play).unwrap()), (80, 20, 1600));
}

#[test]
fn run_scaled_jokers() {
    let mut play = play_of(
        flush_of_evens(),
        vec![
            Joker::plain(JokerKind::Banner),       // 30 chips for each of 3 discards
            Joker::plain(JokerKind::Bull),         // 2 chips for each of 12 dollars
            Joker::plain(JokerKind::MysticSummit), // no discards left only
            Joker::plain(JokerKind::Acrobat),      // last hand only
            Joker::plain(JokerKind::Half),         // three cards or fewer only
            Joker::plain(JokerKind::LoyaltyCard { left: 0 }), // x4
            Joker::plain(JokerKind::DriversLicense { cards: 16 }), // x3
        ],
        Some(hand_of(PokerHandKind::Flush, 35, 4)),
    );
    play.run_info.money = 12;
    assert_eq!(whole(&score_hand(&play).unwrap()), (65 + 90 + 24, 48, 179 * 48));
    play.run_info.discards = 0;
    play.run_info.hands = 1;
    // mystic summit +15 before acrobat x3
    assert_eq!(whole(&score_hand(&play).unwrap()), (65 + 24, (4 + 15) * 3 * 4 * 3, 60876));
}

#[test]
fn joker_parameters_and_editions() {
    let play = play_of(
        flush_of_evens(),
        vec![
            Joker { kind: JokerKind::Runner { chips: 15 }, edition: Some(JokerEdition::Foil) },
            Joker { kind: JokerKind::Flash { mult: 6 }, edition: Some(JokerEdition::Holographic) },
            Joker { kind: JokerKind::Hologram { xmult: Hundredths(125) }, edition: Some(JokerEdition::Polychrome) },
            Joker { kind: JokerKind::Stencil { xmult: 2 }, edition: Some(JokerEdition::Negative) },
            Joker::plain(JokerKind::LuckyCat),
        ],
        Some(hand_of(PokerHandKind::Flush, 35, 4)),
    );
    let score = score_hand(&play).unwrap();
    assert_eq!(score.chips, 65 + 15 + 50);
    // (4 + 6 + 10) * 1.25 * 1.5 * 2
    assert_eq!(score.mult, Ratio { num: 20 * 125 * 3 * 2, den: 200 });
    assert_eq!(score.total, Ratio { num: 130 * 15000, den: 200 });
}

#[test]
fn blackboard_flower_pot_and_seeing_double() {
    let hand = vec![
        picked(card(Rank::Two, Suit::Spades)),
        picked(card(Rank::Two, Suit::Hearts)),
        picked(card(Rank::Nine, Suit::Clubs)),
        picked(card(Rank::Jack, Suit::Diamonds)),
        kept(card(Rank::Five, Suit::Clubs)),
        kept(card(Rank::Six, Suit::Spades)),
    ];
    let pair = Some(hand_of(PokerHandKind::Pair, 10, 2));
    let all = vec![
        Joker::plain(JokerKind::Blackboard),
        Joker::plain(JokerKind::FlowerPot),
        Joker::plain(JokerKind::SeeingDouble),
    ];
    let play = play_of(hand.clone(), all.clone(), pair);
    assert_eq!(whole(&score_hand(&play).unwrap()), (14, 54, 756));
    let mut other = hand;
    other[3].selected = false; // the diamond stays in hand
    let play = play_of(other, all, pair);
    // no blackboard (a diamond in hand), no flower pot (no diamond played)
    assert_eq!(whole(&score_hand(&play).unwrap()), (14, 6, 84));
}

#[test]
fn splash_scores_every_selected_card() {
    let play = play_of(
        pair_of_kings(),
        vec![Joker::plain(JokerKind::Splash)],
        Some(hand_of(PokerHandKind::Pair, 10, 2)),
    );
    assert_eq!(whole(&score_hand(&play).unwrap()), (32, 2, 64));
}

#[test]
fn same_play_same_score() {
    let play = play_of(
        flush_of_evens(),
        vec![Joker::plain(JokerKind::Hologram { xmult: Hundredths(175) })],
        Some(hand_of(PokerHandKind::Flush, 35, 4)),
    );
    let first = score_hand(&play);
    let second = score_hand(&play);
    assert_eq!(first, second);
    assert_eq!(first.unwrap().total, Ratio { num: 65 * 700, den: 100 });
}

#[test]
fn boosting_joker_never_lowers_the_total() {
    let flush = Some(hand_of(PokerHandKind::Flush, 35, 4));
    let base = vec![
        Joker::plain(JokerKind::Ramen { xmult: Hundredths(50) }),
        Joker::plain(JokerKind::Droll),
    ];
    let before = score_hand(&play_of(flush_of_evens(), base.clone(), flush)).unwrap();
    let added = [
        JokerKind::Joker,
        JokerKind::Stuntman,
        JokerKind::LustyJoker,
        JokerKind::Bloodstone,
        JokerKind::Hologram { xmult: Hundredths(100) },
        JokerKind::Cavendish,
    ];
    for kind in added {
        for at in 0..=base.len() {
            let mut jokers = base.clone();
            jokers.insert(at, Joker::plain(kind));
            let after = score_hand(&play_of(flush_of_evens(), jokers, flush)).unwrap();
            assert!(before.total.num * after.total.den <= after.total.num * before.total.den);
        }
    }
}

#[test]
fn chips_from_rank_values() {
    assert_eq!(get_chips_from_rank(Rank::Ace), 11);
    assert_eq!(get_chips_from_rank(Rank::Two), 2);
    assert_eq!(get_chips_from_rank(Rank::Nine), 9);
    assert_eq!(get_chips_from_rank(Rank::Ten), 10);
    assert_eq!(get_chips_from_rank(Rank::Jack), 10);
    assert_eq!(get_chips_from_rank(Rank::Queen), 10);
    assert_eq!(get_chips_from_rank(Rank::King), 10);
}

#[test]
fn rank_order_is_a_cycle() {
    assert_eq!(Rank::Two.next(), Rank::Three);
    assert_eq!(Rank::Ten.next(), Rank::Jack);
    assert_eq!(Rank::King.next(), Rank::Ace);
    assert_eq!(Rank::Ace.next(), Rank::Two);
    assert_eq!(Rank::Ace.ordinal(), 12);
    assert_eq!(Rank::Two.ordinal(), 0);
}
