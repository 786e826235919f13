use hand_score::cards::{Enhancement, PlayingCard, Rank, Suit};
use hand_score::error::ScoreError;
use hand_score::hands::PokerHandKind;
use hand_score::resolver::{
    arrange_by, find_chain, get_scored_cards, is_chained, mark_scored, search_hand, Link,
};

fn card(rank: Rank, suit: Suit) -> PlayingCard {
    PlayingCard::plain(rank, suit)
}

fn stone(rank: Rank, suit: Suit) -> PlayingCard {
    PlayingCard { enhancement: Some(Enhancement::Stone), ..PlayingCard::plain(rank, suit) }
}

fn mixed(ranks: &[Rank]) -> Vec<PlayingCard> {
    let suits = [Suit::Spades, Suit::Hearts, Suit::Clubs, Suit::Diamonds];
    ranks.iter().enumerate().map(|(i, r)| card(*r, suits[i % 4])).collect()
}

#[test]
fn straight_of_five_scores_all_five() {
    let selected = mixed(&[Rank::Two, Rank::Three, Rank::Four, Rank::Five, Rank::Six]);
    assert_eq!(get_scored_cards(&selected, PokerHandKind::Straight, false), selected);
    assert_eq!(
        mark_scored(&selected, PokerHandKind::Straight, false),
        vec![true, true, true, true, true]
    );
}

#[test]
fn straight_of_five_in_any_order_scores_all_five() {
    let selected = mixed(&[Rank::Five, Rank::Two, Rank::Six, Rank::Four, Rank::Three]);
    assert_eq!(get_scored_cards(&selected, PokerHandKind::Straight, false), selected);
    assert_eq!(
        search_hand(&selected, PokerHandKind::Straight, false),
        Ok(vec![1, 4, 3, 0, 2])
    );
}

#[test]
fn broken_straight_scores_its_window_of_four() {
    // 2 3 4 5 7: no run of five; the first four cards are a window in step.
    let selected = mixed(&[Rank::Two, Rank::Three, Rank::Four, Rank::Five, Rank::Seven]);
    assert_eq!(
        mark_scored(&selected, PokerHandKind::Straight, false),
        vec![true, true, true, true, false]
    );
    assert_eq!(get_scored_cards(&selected, PokerHandKind::Straight, false), selected[..4].to_vec());
}

#[test]
fn straight_without_any_run_scores_stones_only() {
    let mut selected = mixed(&[Rank::Two, Rank::Four, Rank::Six, Rank::Nine, Rank::Jack]);
    assert_eq!(get_scored_cards(&selected, PokerHandKind::Straight, false), vec![]);
    selected[3] = stone(Rank::Nine, Suit::Hearts);
    assert_eq!(
        get_scored_cards(&selected, PokerHandKind::Straight, false),
        vec![stone(Rank::Nine, Suit::Hearts)]
    );
}

#[test]
fn straight_by_twos_needs_the_skip() {
    let selected = mixed(&[Rank::Two, Rank::Four, Rank::Six, Rank::Eight, Rank::Ten]);
    assert_eq!(get_scored_cards(&selected, PokerHandKind::Straight, false), vec![]);
    assert_eq!(get_scored_cards(&selected, PokerHandKind::Straight, true), selected);
}

#[test]
fn loose_window_of_four_with_the_skip() {
    // 2 3 5 6 9: no window in step; with the skip the first four pass, each
    // step being at most two ranks.
    let selected = mixed(&[Rank::Two, Rank::Three, Rank::Five, Rank::Six, Rank::Nine]);
    assert_eq!(get_scored_cards(&selected, PokerHandKind::Straight, false), vec![]);
    assert_eq!(
        mark_scored(&selected, PokerHandKind::Straight, true),
        vec![true, true, true, true, false]
    );
}

#[test]
fn ace_high_straight() {
    let selected = mixed(&[Rank::Ace, Rank::King, Rank::Queen, Rank::Jack, Rank::Ten]);
    assert_eq!(get_scored_cards(&selected, PokerHandKind::Straight, false), selected);
}

#[test]
fn ace_low_straight_scores_without_the_ace() {
    // The ace is arranged last, so the run of five fails and 2 3 4 5 is found.
    let selected = mixed(&[Rank::Ace, Rank::Two, Rank::Three, Rank::Four, Rank::Five]);
    assert_eq!(
        mark_scored(&selected, PokerHandKind::Straight, false),
        vec![false, true, true, true, true]
    );
}

#[test]
fn pair_picks_the_two_kings() {
    let selected = vec![
        card(Rank::King, Suit::Spades),
        card(Rank::King, Suit::Hearts),
        card(Rank::Two, Suit::Diamonds),
    ];
    assert_eq!(search_hand(&selected, PokerHandKind::Pair, false), Ok(vec![0, 1]));
    assert_eq!(
        get_scored_cards(&selected, PokerHandKind::Pair, false),
        vec![card(Rank::King, Suit::Spades), card(Rank::King, Suit::Hearts)]
    );
}

#[test]
fn pair_with_a_stone_kicker() {
    let selected = vec![
        card(Rank::King, Suit::Spades),
        stone(Rank::Two, Suit::Diamonds),
        card(Rank::King, Suit::Hearts),
    ];
    assert_eq!(mark_scored(&selected, PokerHandKind::Pair, false), vec![true, true, true]);
}

#[test]
fn stone_in_the_pair_counts_once() {
    let selected = vec![
        stone(Rank::King, Suit::Spades),
        card(Rank::King, Suit::Hearts),
        card(Rank::Two, Suit::Diamonds),
    ];
    assert_eq!(
        get_scored_cards(&selected, PokerHandKind::Pair, false),
        vec![stone(Rank::King, Suit::Spades), card(Rank::King, Suit::Hearts)]
    );
}

#[test]
fn pair_takes_the_lowest_pair_and_its_first_two_cards() {
    let selected = vec![
        card(Rank::King, Suit::Spades),
        card(Rank::Four, Suit::Clubs),
        card(Rank::King, Suit::Hearts),
        card(Rank::Four, Suit::Hearts),
        card(Rank::Four, Suit::Spades),
    ];
    assert_eq!(search_hand(&selected, PokerHandKind::Pair, false), Ok(vec![1, 3]));
}

#[test]
fn pair_without_a_pair_picks_nothing() {
    let selected = mixed(&[Rank::King, Rank::Queen, Rank::Two]);
    assert_eq!(search_hand(&selected, PokerHandKind::Pair, false), Ok(vec![]));
    assert_eq!(get_scored_cards(&selected, PokerHandKind::Pair, false), vec![]);
}

#[test]
fn three_and_four_of_a_kind() {
    let selected = mixed(&[Rank::Nine, Rank::Three, Rank::Nine, Rank::Nine, Rank::Nine]);
    assert_eq!(search_hand(&selected, PokerHandKind::ThreeOfAKind, false), Ok(vec![0, 2, 3]));
    assert_eq!(search_hand(&selected, PokerHandKind::FourOfAKind, false), Ok(vec![0, 2, 3, 4]));
    let short = mixed(&[Rank::Nine, Rank::Nine]);
    assert_eq!(search_hand(&short, PokerHandKind::ThreeOfAKind, false), Ok(vec![]));
}

#[test]
fn two_pair_picks_both_pairs() {
    let selected = mixed(&[Rank::King, Rank::Three, Rank::King, Rank::Seven, Rank::Three]);
    assert_eq!(search_hand(&selected, PokerHandKind::TwoPair, false), Ok(vec![1, 4, 0, 2]));
    assert_eq!(
        mark_scored(&selected, PokerHandKind::TwoPair, false),
        vec![true, true, true, false, true]
    );
}

#[test]
fn two_pair_needs_two_pairs_that_share_no_card() {
    let three = mixed(&[Rank::King, Rank::King, Rank::King, Rank::Two]);
    assert_eq!(search_hand(&three, PokerHandKind::TwoPair, false), Ok(vec![]));
    let four = mixed(&[Rank::King, Rank::King, Rank::King, Rank::King]);
    assert_eq!(search_hand(&four, PokerHandKind::TwoPair, false), Ok(vec![0, 1, 2, 3]));
    let one = mixed(&[Rank::King, Rank::King, Rank::Queen, Rank::Two]);
    assert_eq!(search_hand(&one, PokerHandKind::TwoPair, false), Ok(vec![]));
}

#[test]
fn high_card_picks_the_highest() {
    let selected = mixed(&[Rank::Nine, Rank::Ace, Rank::King]);
    assert_eq!(search_hand(&selected, PokerHandKind::HighCard, false), Ok(vec![1]));
    let tie = mixed(&[Rank::Queen, Rank::Two, Rank::Queen]);
    assert_eq!(search_hand(&tie, PokerHandKind::HighCard, false), Ok(vec![2]));
    let none: Vec<PlayingCard> = vec![];
    assert_eq!(search_hand(&none, PokerHandKind::HighCard, false), Ok(vec![]));
}

#[test]
fn flush_of_one_suit_scores_the_selection() {
    let selected = vec![
        card(Rank::Ten, Suit::Clubs),
        card(Rank::Two, Suit::Clubs),
        card(Rank::Eight, Suit::Clubs),
        card(Rank::Four, Suit::Clubs),
        card(Rank::Six, Suit::Clubs),
    ];
    assert_eq!(get_scored_cards(&selected, PokerHandKind::Flush, false), selected);
    assert_eq!(search_hand(&selected, PokerHandKind::Flush, false), Ok(vec![1, 3, 4, 2, 0]));
}

#[test]
fn flush_of_four_leaves_the_odd_card_out() {
    let selected = vec![
        card(Rank::Ten, Suit::Diamonds),
        card(Rank::Two, Suit::Diamonds),
        card(Rank::Eight, Suit::Hearts),
        card(Rank::Four, Suit::Diamonds),
        card(Rank::Six, Suit::Diamonds),
    ];
    assert_eq!(search_hand(&selected, PokerHandKind::Flush, false), Ok(vec![1, 3, 4, 0]));
    assert_eq!(
        mark_scored(&selected, PokerHandKind::Flush, false),
        vec![true, true, false, true, true]
    );
    let three = vec![
        card(Rank::Ten, Suit::Diamonds),
        card(Rank::Two, Suit::Diamonds),
        card(Rank::Eight, Suit::Hearts),
        card(Rank::Four, Suit::Spades),
        card(Rank::Six, Suit::Diamonds),
    ];
    assert_eq!(search_hand(&three, PokerHandKind::Flush, false), Ok(vec![]));
}

#[test]
fn straight_flush_is_all_or_nothing() {
    let run = vec![
        card(Rank::Five, Suit::Hearts),
        card(Rank::Six, Suit::Hearts),
        card(Rank::Seven, Suit::Hearts),
        card(Rank::Eight, Suit::Hearts),
        card(Rank::Nine, Suit::Hearts),
    ];
    assert_eq!(get_scored_cards(&run, PokerHandKind::StraightFlush, false), run);
    let mut off_suit = run.clone();
    off_suit[4].suit = Suit::Spades;
    assert_eq!(get_scored_cards(&off_suit, PokerHandKind::StraightFlush, false), vec![]);
    let mut gap = run.clone();
    gap[4].rank = Rank::Jack;
    assert_eq!(get_scored_cards(&gap, PokerHandKind::StraightFlush, false), vec![]);
}

#[test]
fn whole_selection_kinds_score_everything() {
    let selected = mixed(&[Rank::King, Rank::King, Rank::King, Rank::Two, Rank::Two]);
    for kind in [
        PokerHandKind::FullHouse,
        PokerHandKind::FiveOfAKind,
        PokerHandKind::FlushHouse,
        PokerHandKind::FlushFive,
    ] {
        assert_eq!(get_scored_cards(&selected, kind, false), selected);
        assert_eq!(search_hand(&selected, kind, false), Err(ScoreError::ContractViolation));
    }
}

#[test]
fn stone_cards_always_score() {
    let selected = vec![
        stone(Rank::Two, Suit::Clubs),
        card(Rank::Nine, Suit::Hearts),
        stone(Rank::Five, Suit::Spades),
    ];
    let kinds = [
        PokerHandKind::HighCard,
        PokerHandKind::Pair,
        PokerHandKind::TwoPair,
        PokerHandKind::ThreeOfAKind,
        PokerHandKind::Straight,
        PokerHandKind::Flush,
        PokerHandKind::FullHouse,
        PokerHandKind::FourOfAKind,
        PokerHandKind::StraightFlush,
        PokerHandKind::FiveOfAKind,
        PokerHandKind::FlushHouse,
        PokerHandKind::FlushFive,
    ];
    for kind in kinds {
        for skip in [false, true] {
            let marks = mark_scored(&selected, kind, skip);
            assert!(marks[0] && marks[2]);
        }
    }
}

#[test]
fn arranging_keeps_equal_keys_in_order() {
    assert_eq!(arrange_by(&vec![3, 1, 3, 0, 1]), vec![3, 1, 4, 0, 2]);
    assert_eq!(arrange_by(&vec![]), Vec::<usize>::new());
}

#[test]
fn chains_and_where_they_start() {
    let cards = mixed(&[Rank::Two, Rank::Four, Rank::Five, Rank::Six, Rank::Six]);
    assert!(!is_chained(&cards, Link::Step, 0, 3));
    assert!(is_chained(&cards, Link::Step, 1, 3));
    assert!(is_chained(&cards, Link::Step, 4, 1));
    assert!(!is_chained(&cards, Link::Step, 4, 2));
    assert!(is_chained(&cards, Link::LooseSkip, 0, 5));
    assert_eq!(find_chain(&cards, Link::Step, 3, 0), Some(1));
    assert_eq!(find_chain(&cards, Link::Step, 3, 2), None);
    assert_eq!(find_chain(&cards, Link::SameRank, 2, 0), Some(3));
    assert_eq!(find_chain(&cards, Link::SameRank, 6, 0), None);
}
