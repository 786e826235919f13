use hand_score::cards::{HeldCard, PlayingCard, Rank, Seal, Suit};
use hand_score::hands::{HandRecord, PokerHand, PokerHandKind};
use hand_score::jokers::{Joker, JokerKind};
use hand_score::play::{Deck, Play, RunInfo};
use hand_score::score::{
    count_enhanced, find_played, holds_only_dark, holds_suit, look_for, lowest_rank,
};

fn card(rank: Rank, suit: Suit) -> PlayingCard {
    PlayingCard::plain(rank, suit)
}

fn sample() -> Play {
    let mut sealed = card(Rank::Queen, Suit::Hearts);
    sealed.seal = Some(Seal::Red);
    let mut blue = card(Rank::Three, Suit::Clubs);
    blue.seal = Some(Seal::Blue);
    Play {
        hand: vec![
            HeldCard { card: card(Rank::Two, Suit::Spades), selected: true },
            HeldCard { card: sealed, selected: false },
            HeldCard { card: card(Rank::Nine, Suit::Diamonds), selected: true },
            HeldCard { card: blue, selected: false },
        ],
        jokers: vec![],
        poker_hand: None,
        run_info: RunInfo { deck: Deck::Blue, discards: 0, hands: 1, money: 0, poker_hands: vec![] },
    }
}

#[test]
fn selected_cards_keep_hand_order() {
    let play = sample();
    assert_eq!(
        play.selected(),
        vec![card(Rank::Two, Suit::Spades), card(Rank::Nine, Suit::Diamonds)]
    );
}

#[test]
fn held_cards_double_a_red_seal() {
    let play = sample();
    let held = play.held();
    assert_eq!(held.len(), 3);
    assert_eq!(held[0], held[1]);
    assert_eq!(held[0].rank, Rank::Queen);
    assert_eq!(held[2].rank, Rank::Three);
}

#[test]
fn ranks_and_suits_have_their_places() {
    assert_eq!(Suit::Spades.ordinal(), 0);
    assert_eq!(Suit::Hearts.ordinal(), 1);
    assert_eq!(Suit::Clubs.ordinal(), 2);
    assert_eq!(Suit::Diamonds.ordinal(), 3);
    assert_eq!(Rank::Ten.ordinal(), 8);
    assert_eq!(Rank::King.ordinal(), 11);
    assert!(Rank::Jack.face() && Rank::Queen.face() && Rank::King.face());
    assert!(!Rank::Ten.face() && !Rank::Ace.face());
}

#[test]
fn kinds_that_take_the_whole_selection() {
    assert!(PokerHandKind::FullHouse.scores_whole_selection());
    assert!(PokerHandKind::FlushFive.scores_whole_selection());
    assert!(!PokerHandKind::Flush.scores_whole_selection());
    assert!(!PokerHandKind::StraightFlush.scores_whole_selection());
}

#[test]
fn looking_through_jokers_and_cards() {
    let jokers = vec![
        Joker::plain(JokerKind::Joker),
        Joker::plain(JokerKind::FourFingers),
        Joker::plain(JokerKind::Shortcut),
    ];
    let present = look_for(&jokers);
    assert!(present.four_fingers && !present.splash && !present.vampire);
    let cards = vec![card(Rank::Nine, Suit::Clubs), card(Rank::Four, Suit::Spades)];
    assert!(holds_suit(&cards, Suit::Clubs));
    assert!(!holds_suit(&cards, Suit::Hearts));
    assert!(holds_only_dark(&cards));
    assert!(holds_only_dark(&vec![]));
    assert!(!holds_only_dark(&vec![card(Rank::Four, Suit::Hearts)]));
    assert_eq!(lowest_rank(&cards), 2);
    assert_eq!(lowest_rank(&vec![]), 13);
    assert_eq!(count_enhanced(&cards), 0);
}

#[test]
fn first_record_of_the_hand_counts() {
    let pair = PokerHand { kind: PokerHandKind::Pair, level: 1, chips: 10, mult: 2 };
    let records = vec![
        HandRecord { hand: PokerHand { chips: 25, ..pair }, played: 1 },
        HandRecord { hand: pair, played: 2 },
        HandRecord { hand: pair, played: 3 },
    ];
    assert_eq!(find_played(&records, pair), Some(2));
    assert_eq!(find_played(&records, PokerHand { level: 2, ..pair }), None);
}
