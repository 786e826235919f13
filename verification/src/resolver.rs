//! Which of the selected cards count towards the score.
//!
//! The selection is arranged by rank, lowest first, cards of one rank in the
//! order in which they were selected. What the search picks depends on the
//! kind of hand: the highest card, the first run of equal ranks, the first
//! window of four cards in step, and so on. A card is named by its position in
//! the selection, so that two equal cards stay apart.
use vstd::prelude::*;
use crate::cards::{Enhancement, PlayingCard};
use crate::error::ScoreError;
use crate::hands::PokerHandKind;

verus! {

/// How a card must relate to the card before it for the two to belong to one
/// run.
#[derive(Clone, Copy, Debug, PartialEq, Eq, Structural)]
pub enum Link {
    /// The same rank.
    SameRank,
    /// The next rank.
    Step,
    /// The rank after the next.
    Skip,
    /// No higher than the next rank.
    LooseStep,
    /// No higher than the rank after the next.
    LooseSkip,
    /// The same suit.
    SameSuit,
}

/// Card `b` may follow card `a` under the link.
pub open spec fn linked(link: Link, a: PlayingCard, b: PlayingCard) -> bool {
    match link {
        Link::SameRank => b.rank == a.rank,
        Link::Step => b.rank == a.rank.successor(),
        Link::Skip => b.rank == a.rank.successor().successor(),
        Link::LooseStep => b.rank.position() <= a.rank.successor().position(),
        Link::LooseSkip => b.rank.position() <= a.rank.successor().successor().position(),
        Link::SameSuit => b.suit == a.suit,
    }
}

/// The `len` cards from `from` on lie inside `cards`, and each but the first
/// is linked to the one before it.
pub open spec fn chained(cards: Seq<PlayingCard>, link: Link, from: int, len: int) -> bool {
    &&& 0 <= from
    &&& from + len <= cards.len()
    &&& forall|k: int| from <= k < from + len - 1 ==> linked(link, cards[k], #[trigger] cards[k + 1])
}

/// `at` is the first place, not before `from`, where a chain of `len` cards
/// starts.
pub open spec fn is_first_chain(
    cards: Seq<PlayingCard>,
    link: Link,
    len: int,
    from: int,
    at: int,
) -> bool {
    &&& from <= at
    &&& chained(cards, link, at, len)
    &&& forall|j: int| from <= j < at ==> !#[trigger] chained(cards, link, j, len)
}

/// The first place, not before `from`, where a chain of `len` cards starts,
/// if there is one.
pub open spec fn first_chain(cards: Seq<PlayingCard>, link: Link, len: int, from: int) -> Option<
    int,
> {
    if exists|at: int| is_first_chain(cards, link, len, from, at) {
        Some(choose|at: int| is_first_chain(cards, link, len, from, at))
    } else {
        None
    }
}

/// `order`, which is sorted by key, with `item` put behind the last entry
/// whose key is not larger than its own.
pub open spec fn insert_slot(order: Seq<int>, keys: Seq<u8>, item: int) -> Seq<int>
    decreases order.len(),
{
    if order.len() == 0 {
        seq![item]
    } else if keys[order.last()] <= keys[item] {
        order.push(item)
    } else {
        insert_slot(order.drop_last(), keys, item).push(order.last())
    }
}

/// The first `n` positions, sorted by key; positions with equal keys stay in
/// their order.
pub open spec fn arrange(keys: Seq<u8>, n: nat) -> Seq<int>
    decreases n,
{
    if n == 0 {
        seq![]
    } else {
        insert_slot(arrange(keys, (n - 1) as nat), keys, n - 1)
    }
}

/// All positions, sorted by key; positions with equal keys stay in their
/// order.
pub open spec fn stable_order(keys: Seq<u8>) -> Seq<int> {
    arrange(keys, keys.len())
}

/// The cards at the given positions, in the order of the positions.
pub open spec fn laid(cards: Seq<PlayingCard>, order: Seq<int>) -> Seq<PlayingCard> {
    Seq::new(order.len(), |k: int| cards[order[k]])
}

/// The place of each card's rank in the rank order.
pub open spec fn rank_keys(cards: Seq<PlayingCard>) -> Seq<u8> {
    Seq::new(cards.len(), |k: int| cards[k].rank.position() as u8)
}

/// The place of each card's suit in the suit order.
pub open spec fn suit_keys(cards: Seq<PlayingCard>) -> Seq<u8> {
    Seq::new(cards.len(), |k: int| cards[k].suit.position() as u8)
}

/// The `len` entries of `order` from `at` on, or nothing where there is no
/// `at`.
pub open spec fn window(order: Seq<int>, at: Option<int>, len: int) -> Seq<int> {
    match at {
        Some(i) => order.subrange(i, i + len),
        None => seq![],
    }
}

/// The positions that the search for a kind of hand picks in a selection, in
/// the order of the arranged selection. `skip` lets a straight go up by two
/// ranks at a time.
///
/// The four kinds that take the whole selection have no search: for them this
/// is empty.
pub open spec fn search(selected: Seq<PlayingCard>, kind: PokerHandKind, skip: bool) -> Seq<int> {
    let by_rank = stable_order(rank_keys(selected));
    let cards = laid(selected, by_rank);
    let n = selected.len() as int;
    match kind {
        PokerHandKind::HighCard => if n == 0 {
            seq![]
        } else {
            seq![by_rank[n - 1]]
        },
        PokerHandKind::Pair => window(by_rank, first_chain(cards, Link::SameRank, 2, 0), 2),
        PokerHandKind::ThreeOfAKind => window(by_rank, first_chain(cards, Link::SameRank, 3, 0), 3),
        PokerHandKind::FourOfAKind => window(by_rank, first_chain(cards, Link::SameRank, 4, 0), 4),
        PokerHandKind::TwoPair => match first_chain(cards, Link::SameRank, 2, 0) {
            Some(i) => match first_chain(cards, Link::SameRank, 2, i + 2) {
                Some(j) => by_rank.subrange(i, i + 2) + by_rank.subrange(j, j + 2),
                None => seq![],
            },
            None => seq![],
        },
        PokerHandKind::Straight => if chained(cards, Link::Step, 0, n) || (skip && chained(
            cards,
            Link::Skip,
            0,
            n,
        )) {
            by_rank
        } else if first_chain(cards, Link::Step, 4, 0) is Some {
            window(by_rank, first_chain(cards, Link::Step, 4, 0), 4)
        } else if skip {
            window(by_rank, first_chain(cards, Link::LooseSkip, 4, 0), 4)
        } else {
            seq![]
        },
        PokerHandKind::Flush => if chained(cards, Link::SameSuit, 0, n) {
            by_rank
        } else {
            let by_suit = stable_order(suit_keys(cards));
            let found = window(by_suit, first_chain(laid(cards, by_suit), Link::SameSuit, 4, 0), 4);
            Seq::new(found.len(), |k: int| by_rank[found[k]])
        },
        PokerHandKind::StraightFlush => if chained(cards, Link::LooseStep, 0, n) && chained(
            cards,
            Link::SameSuit,
            0,
            n,
        ) {
            by_rank
        } else {
            seq![]
        },
        PokerHandKind::FullHouse
        | PokerHandKind::FiveOfAKind
        | PokerHandKind::FlushHouse
        | PokerHandKind::FlushFive => seq![],
    }
}

/// Whether the card at `position` of the selection counts: every card of a
/// hand that takes the whole selection, every stone card, and what the search
/// picks.
pub open spec fn scores(
    selected: Seq<PlayingCard>,
    kind: PokerHandKind,
    skip: bool,
    position: int,
) -> bool {
    kind.takes_all() || selected[position].is_stone() || search(selected, kind, skip).contains(
        position,
    )
}

/// For each position of the selection, whether the card there counts.
pub open spec fn score_marks(selected: Seq<PlayingCard>, kind: PokerHandKind, skip: bool) -> Seq<
    bool,
> {
    Seq::new(selected.len(), |p: int| scores(selected, kind, skip, p))
}

/// The cards whose mark is set, in their order.
pub open spec fn kept(cards: Seq<PlayingCard>, marks: Seq<bool>) -> Seq<PlayingCard>
    decreases cards.len(),
{
    if cards.len() == 0 {
        seq![]
    } else if marks[cards.len() - 1] {
        kept(cards.drop_last(), marks).push(cards.last())
    } else {
        kept(cards.drop_last(), marks)
    }
}

/// The cards of a selection that count, in the order of the selection.
pub open spec fn scored_cards(selected: Seq<PlayingCard>, kind: PokerHandKind, skip: bool) -> Seq<
    PlayingCard,
> {
    kept(selected, score_marks(selected, kind, skip))
}

/// Positions as numbers without bound.
pub open spec fn as_ints(positions: Seq<usize>) -> Seq<int> {
    Seq::new(positions.len(), |k: int| positions[k] as int)
}

/// Putting `item` at `slot` is what `insert_slot` does, where every entry from
/// `slot` on has a larger key than `item` and the entry before `slot` has not.
pub proof fn lemma_insert_slot(order: Seq<int>, keys: Seq<u8>, item: int, slot: int)
    requires
        0 <= slot <= order.len(),
        forall|k: int| slot <= k < order.len() ==> keys[#[trigger] order[k]] > keys[item],
        slot > 0 ==> keys[order[slot - 1]] <= keys[item],
    ensures
        insert_slot(order, keys, item) == order.insert(slot, item),
    decreases order.len(),
{
    if order.len() == 0 {
        assert(order.insert(slot, item) =~= seq![item]);
    } else if slot == order.len() {
        assert(order.insert(slot, item) =~= order.push(item));
    } else {
        assert(keys[order[order.len() - 1]] > keys[item]);
        lemma_insert_slot(order.drop_last(), keys, item, slot);
        assert(order.drop_last().insert(slot, item).push(order.last()) =~= order.insert(
            slot,
            item,
        ));
    }
}

/// `order` holds every position below `n` once.
pub open spec fn is_arrangement(order: Seq<int>, n: int) -> bool {
    &&& order.len() == n
    &&& forall|k: int| 0 <= k < n ==> 0 <= #[trigger] order[k] < n
    &&& forall|i: int, j: int| 0 <= i < j < n ==> #[trigger] order[i] != #[trigger] order[j]
}

/// Along `order` the keys never go down, and positions with the same key
/// come in their own order.
pub open spec fn ascends(order: Seq<int>, keys: Seq<u8>) -> bool {
    forall|i: int, j: int|
        0 <= i < j < order.len() ==> keys[#[trigger] order[i]] < keys[#[trigger] order[j]] || (
        keys[order[i]] == keys[order[j]] && order[i] < order[j])
}

/// Where `insert_slot` puts an item.
proof fn lemma_slot_exists(order: Seq<int>, keys: Seq<u8>, item: int) -> (slot: int)
    ensures
        0 <= slot <= order.len(),
        forall|k: int| slot <= k < order.len() ==> keys[#[trigger] order[k]] > keys[item],
        slot > 0 ==> keys[order[slot - 1]] <= keys[item],
    decreases order.len(),
{
    if order.len() == 0 || keys[order.last()] <= keys[item] {
        order.len() as int
    } else {
        let slot = lemma_slot_exists(order.drop_last(), keys, item);
        assert forall|k: int| slot <= k < order.len() implies keys[#[trigger] order[k]]
            > keys[item] by {
            if k < order.len() - 1 {
                assert(order.drop_last()[k] == order[k]);
            }
        }
        if slot > 0 {
            assert(order.drop_last()[slot - 1] == order[slot - 1]);
        }
        slot
    }
}

/// The arranged positions are all the positions, each once, with keys that
/// never go down and equal keys in their own order.
pub proof fn lemma_arrange_is_stable(keys: Seq<u8>, n: nat)
    requires
        n <= keys.len(),
    ensures
        is_arrangement(arrange(keys, n), n as int),
        ascends(arrange(keys, n), keys),
    decreases n,
{
    if n > 0 {
        lemma_arrange_is_stable(keys, (n - 1) as nat);
        let order = arrange(keys, (n - 1) as nat);
        let item = n - 1;
        let slot = lemma_slot_exists(order, keys, item);
        lemma_insert_slot(order, keys, item, slot);
        order.insert_ensures(slot, item);
        let longer = order.insert(slot, item);
        assert(longer == arrange(keys, n));
        assert forall|k: int| 0 <= k < n implies 0 <= #[trigger] longer[k] < n by {
            if k < slot {
                assert(longer[k] == order[k]);
            } else if k > slot {
                assert(longer[(k - 1) + 1] == order[k - 1]);
            }
        }
        assert forall|i: int, j: int| 0 <= i < j < n implies #[trigger] longer[i]
            != #[trigger] longer[j] && (keys[longer[i]] < keys[longer[j]] || (keys[longer[i]]
            == keys[longer[j]] && longer[i] < longer[j])) by {
            if i > slot {
                assert(longer[(i - 1) + 1] == order[i - 1]);
            }
            if j > slot {
                assert(longer[(j - 1) + 1] == order[j - 1]);
            }
            if i < slot {
                assert(longer[i] == order[i]);
            }
            if j < slot {
                assert(longer[j] == order[j]);
            }
            if j == slot {
                // everything before the slot has a key no larger than the item's
                if i < slot - 1 {
                    assert(keys[order[i]] < keys[order[slot - 1]] || (keys[order[i]]
                        == keys[order[slot - 1]] && order[i] < order[slot - 1]));
                }
            }
        }
    }
}

pub fn is_linked(link: Link, a: PlayingCard, b: PlayingCard) -> (r: bool)
    ensures
        r == linked(link, a, b),
{
    match link {
        Link::SameRank => b.rank == a.rank,
        Link::Step => b.rank == a.rank.next(),
        Link::Skip => b.rank == a.rank.next().next(),
        Link::LooseStep => b.rank.ordinal() <= a.rank.next().ordinal(),
        Link::LooseSkip => b.rank.ordinal() <= a.rank.next().next().ordinal(),
        Link::SameSuit => b.suit == a.suit,
    }
}

/// Whether the `len` cards from `from` on are a chain.
pub fn is_chained(cards: &Vec<PlayingCard>, link: Link, from: usize, len: usize) -> (r: bool)
    ensures
        r == chained(cards@, link, from as int, len as int),
{
    if len > cards.len() || from > cards.len() - len {
        return false;
    }
    if len == 0 {
        return true;
    }
    let last: usize = from + (len - 1);
    let mut k: usize = from;
    while k < last
        invariant
            from <= k <= last,
            last == from + len - 1,
            last < cards.len(),
            forall|j: int| from <= j < k ==> linked(link, cards@[j], #[trigger] cards@[j + 1]),
        decreases last - k,
    {
        if !is_linked(link, cards[k], cards[k + 1]) {
            return false;
        }
        k += 1;
    }
    true
}

/// The first place, not before `from`, where a chain of `len` cards starts.
pub fn find_chain(cards: &Vec<PlayingCard>, link: Link, len: usize, from: usize) -> (r: Option<
    usize,
>)
    ensures
        match r {
            Some(at) => first_chain(cards@, link, len as int, from as int) == Some(at as int)
                && from <= at && at + len <= cards.len(),
            None => first_chain(cards@, link, len as int, from as int) is None,
        },
{
    if len > cards.len() {
        return None;
    }
    let end: usize = cards.len() - len;
    let mut at: usize = from;
    while at <= end
        invariant
            from <= at,
            end == cards.len() - len,
            forall|j: int| from <= j < at ==> !#[trigger] chained(cards@, link, j, len as int),
        decreases end + 1 - at,
    {
        if is_chained(cards, link, at, len) {
            proof {
                assert(is_first_chain(cards@, link, len as int, from as int, at as int));
                let c = choose|c: int| is_first_chain(cards@, link, len as int, from as int, c);
                assert(!(c < at));
                assert(!(at < c));
            }
            return Some(at);
        }
        at += 1;
    }
    None
}

/// The positions of the keys, sorted by key; positions with equal keys stay
/// in their order.
pub fn arrange_by(keys: &Vec<u8>) -> (order: Vec<usize>)
    ensures
        as_ints(order@) == stable_order(keys@),
        order.len() == keys.len(),
        forall|k: int| 0 <= k < order.len() ==> order[k] < keys.len(),
        is_arrangement(as_ints(order@), keys.len() as int),
        ascends(as_ints(order@), keys@),
{
    proof {
        lemma_arrange_is_stable(keys@, keys@.len());
    }
    let mut order: Vec<usize> = Vec::new();
    let mut i: usize = 0;
    while i < keys.len()
        invariant
            i <= keys.len(),
            order.len() == i,
            as_ints(order@) =~= arrange(keys@, i as nat),
            forall|k: int| 0 <= k < order.len() ==> order[k] < i,
        decreases keys.len() - i,
    {
        let key = keys[i];
        let mut slot: usize = order.len();
        while slot > 0 && keys[order[slot - 1]] > key
            invariant
                slot <= order.len(),
                i < keys.len(),
                key == keys[i as int],
                forall|k: int| 0 <= k < order.len() ==> order[k] < i,
                forall|k: int| slot <= k < order.len() ==> keys[order[k] as int] > key,
            decreases slot,
        {
            slot -= 1;
        }
        proof {
            let ghost before = as_ints(order@);
            assert forall|k: int| slot <= k < before.len() implies keys@[#[trigger] before[k]]
                > keys@[i as int] by {
                assert(before[k] == order[k] as int);
            }
            lemma_insert_slot(before, keys@, i as int, slot as int);
            assert(as_ints(order@.insert(slot as int, i)) =~= before.insert(slot as int, i as int));
        }
        order.insert(slot, i);
        i += 1;
    }
    order
}

/// The cards at the given positions, in the order of the positions.
fn lay(cards: &Vec<PlayingCard>, order: &Vec<usize>) -> (r: Vec<PlayingCard>)
    requires
        forall|k: int| 0 <= k < order.len() ==> order[k] < cards.len(),
    ensures
        r@ == laid(cards@, as_ints(order@)),
{
    let mut r: Vec<PlayingCard> = Vec::new();
    let mut k: usize = 0;
    while k < order.len()
        invariant
            k <= order.len(),
            r.len() == k,
            forall|j: int| 0 <= j < order.len() ==> order[j] < cards.len(),
            forall|j: int| 0 <= j < k ==> r[j] == cards[order[j] as int],
        decreases order.len() - k,
    {
        r.push(cards[order[k]]);
        k += 1;
    }
    assert(r@ =~= laid(cards@, as_ints(order@)));
    r
}

/// The place of each card's rank in the rank order.
pub fn keys_by_rank(cards: &Vec<PlayingCard>) -> (keys: Vec<u8>)
    ensures
        keys@ == rank_keys(cards@),
{
    let mut keys: Vec<u8> = Vec::new();
    let mut k: usize = 0;
    while k < cards.len()
        invariant
            k <= cards.len(),
            keys.len() == k,
            forall|j: int| 0 <= j < k ==> keys[j] == cards[j].rank.position(),
        decreases cards.len() - k,
    {
        keys.push(cards[k].rank.ordinal());
        k += 1;
    }
    assert(keys@ =~= rank_keys(cards@));
    keys
}

/// The place of each card's suit in the suit order.
pub fn keys_by_suit(cards: &Vec<PlayingCard>) -> (keys: Vec<u8>)
    ensures
        keys@ == suit_keys(cards@),
{
    let mut keys: Vec<u8> = Vec::new();
    let mut k: usize = 0;
    while k < cards.len()
        invariant
            k <= cards.len(),
            keys.len() == k,
            forall|j: int| 0 <= j < k ==> keys[j] == cards[j].suit.position(),
        decreases cards.len() - k,
    {
        keys.push(cards[k].suit.ordinal());
        k += 1;
    }
    assert(keys@ =~= suit_keys(cards@));
    keys
}

/// The `len` entries of `order` from `at` on, or nothing where there is no
/// `at`.
fn take_window(order: &Vec<usize>, at: Option<usize>, len: usize) -> (r: Vec<usize>)
    requires
        at matches Some(i) ==> i + len <= order.len(),
    ensures
        as_ints(r@) == window(
            as_ints(order@),
            match at {
                Some(i) => Some(i as int),
                None => None,
            },
            len as int,
        ),
        forall|k: int| 0 <= k < r.len() ==> order@.contains(#[trigger] r[k]),
{
    let mut r: Vec<usize> = Vec::new();
    match at {
        Some(i) => {
            let mut k: usize = 0;
            while k < len
                invariant
                    k <= len,
                    i + len <= order.len(),
                    r.len() == k,
                    forall|j: int| 0 <= j < k ==> r[j] == order[i + j],
                decreases len - k,
            {
                r.push(order[i + k]);
                k += 1;
            }
            assert(as_ints(r@) =~= as_ints(order@).subrange(i as int, i + len));
            assert forall|k: int| 0 <= k < r.len() implies order@.contains(#[trigger] r[k]) by {
                assert(order@[i + k] == r[k]);
            }
        },
        None => {
            assert(as_ints(r@) =~= Seq::<int>::empty());
        },
    }
    r
}

/// Searches a selection for the cards that make up a hand of the given kind
/// and returns their positions, in the order of the arranged selection.
///
/// The four kinds that take the whole selection have no search: to ask for
/// one of them is a `ContractViolation`.
pub fn search_hand(selected: &Vec<PlayingCard>, kind: PokerHandKind, skip: bool) -> (r: Result<
    Vec<usize>,
    ScoreError,
>)
    ensures
        match r {
            Ok(found) => !kind.takes_all() && as_ints(found@) == search(selected@, kind, skip)
                && forall|k: int| 0 <= k < found.len() ==> found[k] < selected.len(),
            Err(e) => kind.takes_all() && e == ScoreError::ContractViolation,
        },
{
    if kind.scores_whole_selection() {
        return Err(ScoreError::ContractViolation);
    }
    let n = selected.len();
    let rank_keys = keys_by_rank(selected);
    let by_rank = arrange_by(&rank_keys);
    let cards = lay(selected, &by_rank);
    assert(cards@.len() == n);
    let found = match kind {
        PokerHandKind::HighCard => {
            let mut top: Vec<usize> = Vec::new();
            if n > 0 {
                top.push(by_rank[n - 1]);
                assert(as_ints(top@) =~= seq![as_ints(by_rank@)[n - 1]]);
            } else {
                assert(as_ints(top@) =~= Seq::<int>::empty());
            }
            top
        },
        PokerHandKind::Pair => {
            let at = find_chain(&cards, Link::SameRank, 2, 0);
            take_window(&by_rank, at, 2)
        },
        PokerHandKind::ThreeOfAKind => {
            let at = find_chain(&cards, Link::SameRank, 3, 0);
            take_window(&by_rank, at, 3)
        },
        PokerHandKind::FourOfAKind => {
            let at = find_chain(&cards, Link::SameRank, 4, 0);
            take_window(&by_rank, at, 4)
        },
        PokerHandKind::TwoPair => {
            let mut both: Vec<usize> = Vec::new();
            match find_chain(&cards, Link::SameRank, 2, 0) {
                Some(i) => match find_chain(&cards, Link::SameRank, 2, i + 2) {
                    Some(j) => {
                        both.push(by_rank[i]);
                        both.push(by_rank[i + 1]);
                        both.push(by_rank[j]);
                        both.push(by_rank[j + 1]);
                        assert(as_ints(both@) =~= as_ints(by_rank@).subrange(i as int, i + 2)
                            + as_ints(by_rank@).subrange(j as int, j + 2));
                    },
                    None => {
                        assert(as_ints(both@) =~= Seq::<int>::empty());
                    },
                },
                None => {
                    assert(as_ints(both@) =~= Seq::<int>::empty());
                },
            }
            both
        },
        PokerHandKind::Straight => {
            if is_chained(&cards, Link::Step, 0, n) || (skip && is_chained(
                &cards,
                Link::Skip,
                0,
                n,
            )) {
                by_rank
            } else {
                let at = find_chain(&cards, Link::Step, 4, 0);
                if at.is_some() {
                    take_window(&by_rank, at, 4)
                } else if skip {
                    let at = find_chain(&cards, Link::LooseSkip, 4, 0);
                    take_window(&by_rank, at, 4)
                } else {
                    let none: Vec<usize> = Vec::new();
                    assert(as_ints(none@) =~= Seq::<int>::empty());
                    none
                }
            }
        },
        PokerHandKind::Flush => {
            if is_chained(&cards, Link::SameSuit, 0, n) {
                by_rank
            } else {
                let suit_keys = keys_by_suit(&cards);
                let by_suit = arrange_by(&suit_keys);
                let again = lay(&cards, &by_suit);
                let at = find_chain(&again, Link::SameSuit, 4, 0);
                let slots = take_window(&by_suit, at, 4);
                let mut flush: Vec<usize> = Vec::new();
                let mut k: usize = 0;
                while k < slots.len()
                    invariant
                        k <= slots.len(),
                        flush.len() == k,
                        by_rank.len() == n,
                        by_suit.len() == n,
                        forall|j: int| 0 <= j < by_rank.len() ==> by_rank[j] < n,
                        forall|j: int| 0 <= j < by_suit.len() ==> by_suit[j] < n,
                        forall|j: int| 0 <= j < slots.len() ==> by_suit@.contains(#[trigger] slots[j]),
                        forall|j: int| 0 <= j < k ==> flush[j] == by_rank[slots[j] as int],
                    decreases slots.len() - k,
                {
                    assert(by_suit@.contains(slots[k as int]));
                    flush.push(by_rank[slots[k]]);
                    k += 1;
                }
                proof {
                    let ghost want = window(
                        as_ints(by_suit@),
                        first_chain(again@, Link::SameSuit, 4, 0),
                        4,
                    );
                    assert(as_ints(slots@) == want);
                    assert forall|j: int| 0 <= j < want.len() implies flush[j] as int == as_ints(
                        by_rank@,
                    )[want[j]] by {
                        assert(as_ints(slots@)[j] == slots[j] as int);
                    }
                    assert(as_ints(flush@) =~= Seq::new(
                        want.len(),
                        |k: int| as_ints(by_rank@)[want[k]],
                    ));
                }
                flush
            }
        },
        PokerHandKind::StraightFlush => {
            if is_chained(&cards, Link::LooseStep, 0, n) && is_chained(
                &cards,
                Link::SameSuit,
                0,
                n,
            ) {
                by_rank
            } else {
                let none: Vec<usize> = Vec::new();
                assert(as_ints(none@) =~= Seq::<int>::empty());
                none
            }
        },
        PokerHandKind::FullHouse
        | PokerHandKind::FiveOfAKind
        | PokerHandKind::FlushHouse
        | PokerHandKind::FlushFive => Vec::new(),
    };
    Ok(found)
}

/// For each position of the selection, whether the card there counts.
pub fn mark_scored(selected: &Vec<PlayingCard>, kind: PokerHandKind, skip: bool) -> (marks: Vec<
    bool,
>)
    ensures
        marks@ == score_marks(selected@, kind, skip),
        forall|p: int| 0 <= p < selected.len() && selected[p].is_stone() ==> marks[p],
{
    let n = selected.len();
    let whole = kind.scores_whole_selection();
    let mut marks: Vec<bool> = Vec::new();
    let mut p: usize = 0;
    while p < n
        invariant
            p <= n,
            n == selected.len(),
            marks.len() == p,
            forall|q: int| 0 <= q < p ==> marks[q] == (whole || selected[q].is_stone()),
        decreases n - p,
    {
        let stone = match selected[p].enhancement {
            Some(Enhancement::Stone) => true,
            _ => false,
        };
        marks.push(whole || stone);
        p += 1;
    }
    match search_hand(selected, kind, skip) {
        Ok(found) => {
            let mut k: usize = 0;
            while k < found.len()
                invariant
                    k <= found.len(),
                    marks.len() == n,
                    n == selected.len(),
                    forall|j: int| 0 <= j < found.len() ==> found[j] < n,
                    forall|q: int|
                        0 <= q < n ==> marks[q] == (whole || selected[q].is_stone() || exists|j: int|
                            0 <= j < k && found[j] == q),
                decreases found.len() - k,
            {
                let at = found[k];
                marks.set(at, true);
                k += 1;
            }
            proof {
                let ghost picked = search(selected@, kind, skip);
                assert forall|q: int| 0 <= q < n implies marks[q] == scores(
                    selected@,
                    kind,
                    skip,
                    q,
                ) by {
                    if picked.contains(q) {
                        let j = choose|j: int| 0 <= j < picked.len() && picked[j] == q;
                        assert(as_ints(found@)[j] == found[j] as int);
                    }
                    if exists|j: int| 0 <= j < found.len() && found[j] == q {
                        let j = choose|j: int| 0 <= j < found.len() && found[j] == q;
                        assert(as_ints(found@)[j] == q);
                    }
                }
            }
        },
        Err(_) => {},
    }
    assert(marks@ =~= score_marks(selected@, kind, skip));
    marks
}

/// The selected cards that count towards the score, in the order of the
/// selection.
///
/// With a kind that takes the whole selection these are all of them. With any
/// other kind they are the stone cards and what [`search_hand`] picks; a card
/// that is both counts once. `shortcut` lets a straight go up by two ranks at
/// a time.
pub fn get_scored_cards(selected: &Vec<PlayingCard>, hand_type: PokerHandKind, shortcut: bool) -> (scored:
    Vec<PlayingCard>)
    ensures
        scored@ == scored_cards(selected@, hand_type, shortcut),
{
    let marks = mark_scored(selected, hand_type, shortcut);
    let mut scored: Vec<PlayingCard> = Vec::new();
    let mut k: usize = 0;
    assert(selected@.take(0) =~= Seq::<PlayingCard>::empty());
    while k < selected.len()
        invariant
            k <= selected.len(),
            marks.len() == selected.len(),
            scored@ == kept(selected@.take(k as int), marks@),
        decreases selected.len() - k,
    {
        assert(selected@.take(k + 1).drop_last() =~= selected@.take(k as int));
        if marks[k] {
            scored.push(selected[k]);
        }
        k += 1;
    }
    assert(selected@.take(selected@.len() as int) =~= selected@);
    scored
}

} // verus!
