//! What holds of every play.
use vstd::prelude::*;
use crate::cards::PlayingCard;
use crate::effects::{
    enhancement_steps, joker_edition_steps, joker_on_held, joker_on_play, joker_on_scored, joker_steps, Setting,
};
use crate::error::ScoreError;
use crate::hands::{PokerHand, PokerHandKind};
use crate::jokers::{Joker, JokerKind};
use crate::monotone::{
    all_boosts, embeds, lemma_embeds_boosts, lemma_embeds_concat, lemma_embeds_refl,
    lemma_leveled_keeps_order, lemma_no_more_refl, lemma_run_embeds, lemma_total_keeps_order,
};
use crate::play::{held_cards, selected_cards, Deck, PlayView};
use crate::resolver::{kept, score_marks, scored_cards};
use crate::score::{
    chain, exact_score, has_four_fingers, has_splash, has_vampire, held_card_parts,
    held_card_steps, held_phase, is_score_of, joker_phase, lowest_position, play_steps,
    scored_card_parts, scored_card_steps, scored_of, scored_phase, setting_of, ScoreResult,
};
use crate::tally::{lemma_run_wf, Step, Tally};

verus! {

/// A play without a selected card has the score zero, whatever its jokers,
/// its deck and its classification are.
pub proof fn lemma_empty_selection_scores_nothing(play: PlayView, r: Result<ScoreResult, ScoreError>)
    requires
        selected_cards(play.hand).len() == 0,
        is_score_of(play, r),
    ensures
        exact_score(play) matches Ok(t) && t.total_num() == 0,
        r matches Ok(score) && score.total.num == 0 && score.chips == 0 && score.mult.num == 0,
{
    assert((Tally { chips: 0, num: 0, den: 1 }).total_num() == 0) by (nonlinear_arith);
}

/// A card whose mark is set is among the cards that are kept.
pub proof fn lemma_kept_holds_marked(cards: Seq<PlayingCard>, marks: Seq<bool>, position: int)
    requires
        0 <= position < cards.len(),
        marks[position],
    ensures
        kept(cards, marks).contains(cards[position]),
    decreases cards.len(),
{
    let rest = kept(cards.drop_last(), marks);
    if position == cards.len() - 1 {
        assert(kept(cards, marks) == rest.push(cards.last()));
        assert(rest.push(cards.last())[rest.len() as int] == cards[position]);
    } else {
        lemma_kept_holds_marked(cards.drop_last(), marks, position);
        let k = choose|k: int| 0 <= k < rest.len() && rest[k] == cards[position];
        if marks[cards.len() - 1] {
            assert(rest.push(cards.last())[k] == cards[position]);
        }
    }
}

/// A selected stone card counts, whatever the kind of hand is and whether or
/// not straights may skip.
pub proof fn lemma_stone_cards_score(
    selected: Seq<PlayingCard>,
    kind: PokerHandKind,
    skip: bool,
    position: int,
)
    requires
        0 <= position < selected.len(),
        selected[position].is_stone(),
    ensures
        score_marks(selected, kind, skip)[position],
        scored_cards(selected, kind, skip).contains(selected[position]),
{
    lemma_kept_holds_marked(selected, score_marks(selected, kind, skip), position);
}

/// A selected stone card is among the cards that a play scores, whatever its
/// jokers are.
pub proof fn lemma_stone_cards_score_in_play(play: PlayView, hand: PokerHand, position: int)
    requires
        0 <= position < selected_cards(play.hand).len(),
        selected_cards(play.hand)[position].is_stone(),
    ensures
        scored_of(play, hand).contains(selected_cards(play.hand)[position]),
{
    let selected = selected_cards(play.hand);
    if has_splash(play.jokers) {
        assert(selected[position] == selected[position]);
    } else {
        lemma_stone_cards_score(
            selected,
            hand.kind,
            has_four_fingers(play.jokers),
            position,
        );
    }
}

/// The score is a function of the play: two results for one play are the
/// same result.
pub proof fn lemma_score_is_determined(
    play: PlayView,
    first: Result<ScoreResult, ScoreError>,
    second: Result<ScoreResult, ScoreError>,
)
    requires
        is_score_of(play, first),
        is_score_of(play, second),
    ensures
        first == second,
{
}

/// With the plasma deck a score has chips and multiplier the same whole
/// number.
pub proof fn lemma_plasma_score_is_level(play: PlayView)
    requires
        play.run_info.deck == Deck::Plasma,
        exact_score(play) is Ok,
    ensures
        exact_score(play).unwrap().den == 1,
        exact_score(play).unwrap().num == exact_score(play).unwrap().chips,
{
}

/// Levelling makes chips and multiplier the same whole number, and levelling
/// what is level changes nothing.
pub proof fn lemma_leveling_equalises(t: Tally)
    requires
        t.wf(),
    ensures
        t.leveled().den == 1,
        t.leveled().num == t.leveled().chips,
        t.leveled().leveled() == t.leveled(),
{
    let q = t.midpoint();
    assert((q * 1 + q) / (2 * 1int) == q);
}

/// A joker whose own effects can only raise a total: it does not change
/// which cards count, and where it multiplies, the factor is at least one.
pub open spec fn only_boosts(kind: JokerKind) -> bool {
    match kind {
        JokerKind::Splash | JokerKind::FourFingers => false,
        JokerKind::Stencil { xmult } => xmult >= 1,
        JokerKind::SteelJoker { xmult }
        | JokerKind::Constellation { xmult }
        | JokerKind::Madness { xmult }
        | JokerKind::Vampire { xmult }
        | JokerKind::Hologram { xmult }
        | JokerKind::Obelisk { xmult }
        | JokerKind::Ramen { xmult }
        | JokerKind::Campfire { xmult }
        | JokerKind::Throwback { xmult }
        | JokerKind::Glass { xmult }
        | JokerKind::HitTheRoad { xmult }
        | JokerKind::Caino { xmult }
        | JokerKind::Yorick { xmult } => xmult.0 >= 100,
        _ => true,
    }
}

/// None of the cards has an enhancement that does anything when the card is
/// scored.
pub open spec fn nothing_to_drain(cards: Seq<PlayingCard>) -> bool {
    forall|k: int| 0 <= k < cards.len() ==> enhancement_steps(#[trigger] cards[k], false).len() == 0
}

/// A vampire that joins the play takes nothing away: there is a vampire
/// already, or no scored card has an enhancement that does anything.
pub open spec fn vampire_takes_nothing(play: PlayView) -> bool {
    has_vampire(play.jokers) || match play.poker_hand {
        Some(hand) => nothing_to_drain(scored_of(play, hand)),
        None => true,
    }
}

/// The play with one more joker, put at place `at` among the others.
pub open spec fn with_joker(play: PlayView, joker: Joker, at: int) -> PlayView {
    PlayView { jokers: play.jokers.insert(at, joker), ..play }
}

/// Where all parts together give steps, each part gives steps.
pub proof fn lemma_chain_ok_parts(parts: Seq<Result<Seq<Step>, ScoreError>>, k: int)
    requires
        chain(parts) is Ok,
        0 <= k < parts.len(),
    ensures
        parts[k] is Ok,
        chain(parts.drop_last()) is Ok,
    decreases parts.len(),
{
    if k < parts.len() - 1 {
        lemma_chain_ok_parts(parts.drop_last(), k);
    }
}

/// Where each part of one list is the like part of another with boosts put
/// in, so are all the parts together.
pub proof fn lemma_chain_embeds(
    parts: Seq<Result<Seq<Step>, ScoreError>>,
    longer: Seq<Result<Seq<Step>, ScoreError>>,
)
    requires
        parts.len() == longer.len(),
        chain(parts) is Ok,
        chain(longer) is Ok,
        forall|k: int|
            0 <= k < parts.len() && parts[k] is Ok && longer[k] is Ok ==> embeds(
                #[trigger] parts[k].unwrap(),
                longer[k].unwrap(),
            ),
    ensures
        embeds(chain(parts).unwrap(), chain(longer).unwrap()),
    decreases parts.len(),
{
    if parts.len() > 0 {
        let last = parts.len() - 1;
        lemma_chain_ok_parts(parts, last);
        lemma_chain_ok_parts(longer, last);
        lemma_chain_embeds(parts.drop_last(), longer.drop_last());
        assert(embeds(parts[last].unwrap(), longer[last].unwrap()));
        lemma_embeds_concat(
            chain(parts.drop_last()).unwrap(),
            chain(longer.drop_last()).unwrap(),
            parts.last().unwrap(),
            longer.last().unwrap(),
        );
    }
}

/// One more part of boosts, put anywhere among the parts, puts boosts in.
pub proof fn lemma_chain_insert(
    parts: Seq<Result<Seq<Step>, ScoreError>>,
    at: int,
    extra: Seq<Step>,
)
    requires
        0 <= at <= parts.len(),
        chain(parts) is Ok,
        all_boosts(extra),
    ensures
        chain(parts.insert(at, Ok(extra))) is Ok,
        embeds(chain(parts).unwrap(), chain(parts.insert(at, Ok(extra))).unwrap()),
    decreases parts.len(),
{
    let longer = parts.insert(at, Ok(extra));
    let steps = chain(parts).unwrap();
    if at == parts.len() {
        assert(longer =~= parts.push(Ok(extra)));
        assert(longer.drop_last() =~= parts);
        lemma_embeds_refl(steps);
        lemma_embeds_boosts(extra);
        lemma_embeds_concat(steps, steps, Seq::empty(), extra);
        assert(steps + Seq::<Step>::empty() =~= steps);
    } else {
        lemma_chain_ok_parts(parts, parts.len() - 1);
        lemma_chain_insert(parts.drop_last(), at, extra);
        assert(longer.drop_last() =~= parts.drop_last().insert(at, Ok(extra)));
        assert(longer.last() == parts.last());
        lemma_embeds_refl(parts.last().unwrap());
        lemma_embeds_concat(
            chain(parts.drop_last()).unwrap(),
            chain(longer.drop_last()).unwrap(),
            parts.last().unwrap(),
            parts.last().unwrap(),
        );
    }
}

/// One more joker that is neither splash nor four fingers leaves it as it
/// was whether one of these is among the jokers; a vampire is among them
/// where one was or the new joker is one.
pub proof fn lemma_same_presence(jokers: Seq<Joker>, joker: Joker, at: int)
    requires
        0 <= at <= jokers.len(),
        joker.kind != JokerKind::Splash,
        joker.kind != JokerKind::FourFingers,
    ensures
        has_splash(jokers.insert(at, joker)) == has_splash(jokers),
        has_four_fingers(jokers.insert(at, joker)) == has_four_fingers(jokers),
        has_vampire(jokers.insert(at, joker)) == (has_vampire(jokers) || joker.kind is Vampire),
{
    let longer = jokers.insert(at, joker);
    jokers.insert_ensures(at, joker);
    if joker.kind is Vampire {
        assert(longer[at].kind is Vampire);
    }
    if has_splash(jokers) {
        let i = choose|i: int| 0 <= i < jokers.len() && (#[trigger] jokers[i]).kind == JokerKind::Splash;
        if i < at {
            assert(longer[i].kind == JokerKind::Splash);
        } else {
            assert(longer[i + 1].kind == JokerKind::Splash);
        }
    }
    if has_splash(longer) {
        let j = choose|j: int| 0 <= j < longer.len() && (#[trigger] longer[j]).kind == JokerKind::Splash;
        if j < at {
            assert(jokers[j].kind == JokerKind::Splash);
        } else {
            assert(longer[(j - 1) + 1] == jokers[j - 1]);
            assert(jokers[j - 1].kind == JokerKind::Splash);
        }
    }
    if has_four_fingers(jokers) {
        let i = choose|i: int|
            0 <= i < jokers.len() && (#[trigger] jokers[i]).kind == JokerKind::FourFingers;
        if i < at {
            assert(longer[i].kind == JokerKind::FourFingers);
        } else {
            assert(longer[i + 1].kind == JokerKind::FourFingers);
        }
    }
    if has_four_fingers(longer) {
        let j = choose|j: int|
            0 <= j < longer.len() && (#[trigger] longer[j]).kind == JokerKind::FourFingers;
        if j < at {
            assert(jokers[j].kind == JokerKind::FourFingers);
        } else {
            assert(longer[(j - 1) + 1] == jokers[j - 1]);
            assert(jokers[j - 1].kind == JokerKind::FourFingers);
        }
    }
    if has_vampire(jokers) {
        let i = choose|i: int| 0 <= i < jokers.len() && (#[trigger] jokers[i]).kind is Vampire;
        if i < at {
            assert(longer[i].kind is Vampire);
        } else {
            assert(longer[i + 1].kind is Vampire);
        }
    }
    if has_vampire(longer) {
        let j = choose|j: int| 0 <= j < longer.len() && (#[trigger] longer[j]).kind is Vampire;
        if j < at {
            assert(jokers[j].kind is Vampire);
        } else if j > at {
            assert(longer[(j - 1) + 1] == jokers[j - 1]);
            assert(jokers[j - 1].kind is Vampire);
        }
    }
}

/// What a joker that only boosts does for a scored card are boosts.
pub proof fn lemma_boosts_on_scored(kind: JokerKind, card: PlayingCard, hands: u32)
    requires
        only_boosts(kind),
    ensures
        joker_on_scored(kind, card, hands) matches Ok(steps) ==> all_boosts(steps),
{
}

/// What a joker that only boosts does for a card in hand are boosts.
pub proof fn lemma_boosts_on_held(kind: JokerKind, card: PlayingCard, lowest: int)
    requires
        only_boosts(kind),
    ensures
        joker_on_held(kind, card, lowest) matches Ok(steps) ==> all_boosts(steps),
{
}

/// What a joker that only boosts does once per play, its edition included,
/// are boosts.
pub proof fn lemma_boosts_on_play(joker: Joker, setting: Setting)
    requires
        only_boosts(joker.kind),
    ensures
        joker_steps(joker, setting) matches Ok(steps) ==> all_boosts(steps),
{
    assert(all_boosts(joker_edition_steps(joker.edition)));
    if joker_on_play(joker.kind, setting) is Ok {
        let own = joker_on_play(joker.kind, setting).unwrap();
        assert(all_boosts(own));
        assert(all_boosts(own + joker_edition_steps(joker.edition)));
    }
}

/// Where no scored card has an enhancement that does anything, the steps of
/// the scored cards are the same with a vampire as without.
pub proof fn lemma_nothing_drained(scored: Seq<PlayingCard>, jokers: Seq<Joker>, hands: u32)
    requires
        nothing_to_drain(scored),
    ensures
        scored_phase(scored, jokers, true, hands) == scored_phase(scored, jokers, false, hands),
{
    let with = Seq::new(scored.len(), |k: int| scored_card_steps(scored[k], jokers, true, hands));
    let without = Seq::new(scored.len(), |k: int| scored_card_steps(scored[k], jokers, false, hands));
    assert forall|k: int| 0 <= k < scored.len() implies with[k] == without[k] by {
        assert(enhancement_steps(scored[k], false) =~= enhancement_steps(scored[k], true));
        assert(scored_card_parts(scored[k], jokers, true, hands) =~= scored_card_parts(
            scored[k],
            jokers,
            false,
            hands,
        ));
    }
    assert(with =~= without);
}

/// One more boosting joker puts boosts into the steps of a scored card.
pub proof fn lemma_scored_card_embeds(
    card: PlayingCard,
    jokers: Seq<Joker>,
    joker: Joker,
    at: int,
    drained: bool,
    hands: u32,
)
    requires
        0 <= at <= jokers.len(),
        only_boosts(joker.kind),
        scored_card_steps(card, jokers, drained, hands) is Ok,
        scored_card_steps(card, jokers.insert(at, joker), drained, hands) is Ok,
    ensures
        embeds(
            scored_card_steps(card, jokers, drained, hands).unwrap(),
            scored_card_steps(card, jokers.insert(at, joker), drained, hands).unwrap(),
        ),
{
    let parts = scored_card_parts(card, jokers, drained, hands);
    let longer = scored_card_parts(card, jokers.insert(at, joker), drained, hands);
    let extra = joker_on_scored(joker.kind, card, hands);
    jokers.insert_ensures(at, joker);
    assert(longer[at + 1] == extra);
    lemma_chain_ok_parts(longer, at + 1);
    assert forall|k: int| 0 <= k < longer.len() implies longer[k] == parts.insert(at + 1, extra)[k] by {
        parts.insert_ensures(at + 1, extra);
        if k == 0 {
        } else if k <= at {
            assert(jokers.insert(at, joker)[k - 1] == jokers[k - 1]);
        } else if k == at + 1 {
        } else {
            assert(parts.insert(at + 1, extra)[(k - 1) + 1] == parts[k - 1]);
            if k < longer.len() - 1 {
                assert(jokers.insert(at, joker)[(k - 2) + 1] == jokers[k - 2]);
            }
        }
    }
    parts.insert_ensures(at + 1, extra);
    assert(longer =~= parts.insert(at + 1, extra));
    lemma_boosts_on_scored(joker.kind, card, hands);
    lemma_chain_insert(parts, at + 1, extra.unwrap());
}

/// One more boosting joker puts boosts into the steps of a card that stays
/// in hand.
pub proof fn lemma_held_card_embeds(
    card: PlayingCard,
    jokers: Seq<Joker>,
    joker: Joker,
    at: int,
    lowest: int,
)
    requires
        0 <= at <= jokers.len(),
        only_boosts(joker.kind),
        held_card_steps(card, jokers, lowest) is Ok,
        held_card_steps(card, jokers.insert(at, joker), lowest) is Ok,
    ensures
        embeds(
            held_card_steps(card, jokers, lowest).unwrap(),
            held_card_steps(card, jokers.insert(at, joker), lowest).unwrap(),
        ),
{
    let parts = held_card_parts(card, jokers, lowest);
    let longer = held_card_parts(card, jokers.insert(at, joker), lowest);
    let extra = joker_on_held(joker.kind, card, lowest);
    jokers.insert_ensures(at, joker);
    assert(longer[at + 1] == extra);
    lemma_chain_ok_parts(longer, at + 1);
    assert forall|k: int| 0 <= k < longer.len() implies longer[k] == parts.insert(at + 1, extra)[k] by {
        parts.insert_ensures(at + 1, extra);
        if k == 0 {
        } else if k <= at {
            assert(jokers.insert(at, joker)[k - 1] == jokers[k - 1]);
        } else if k == at + 1 {
        } else {
            assert(parts.insert(at + 1, extra)[(k - 1) + 1] == parts[k - 1]);
            assert(jokers.insert(at, joker)[(k - 2) + 1] == jokers[k - 2]);
        }
    }
    parts.insert_ensures(at + 1, extra);
    assert(longer =~= parts.insert(at + 1, extra));
    lemma_boosts_on_held(joker.kind, card, lowest);
    lemma_chain_insert(parts, at + 1, extra.unwrap());
}

/// One more boosting joker puts boosts into the steps of the scored cards.
pub proof fn lemma_scored_phase_embeds(
    scored: Seq<PlayingCard>,
    jokers: Seq<Joker>,
    joker: Joker,
    at: int,
    drained: bool,
    hands: u32,
)
    requires
        0 <= at <= jokers.len(),
        only_boosts(joker.kind),
        scored_phase(scored, jokers, drained, hands) is Ok,
        scored_phase(scored, jokers.insert(at, joker), drained, hands) is Ok,
    ensures
        embeds(
            scored_phase(scored, jokers, drained, hands).unwrap(),
            scored_phase(scored, jokers.insert(at, joker), drained, hands).unwrap(),
        ),
{
    let parts = Seq::new(scored.len(), |k: int| scored_card_steps(scored[k], jokers, drained, hands));
    let longer = Seq::new(
        scored.len(),
        |k: int| scored_card_steps(scored[k], jokers.insert(at, joker), drained, hands),
    );
    assert forall|k: int| 0 <= k < parts.len() && parts[k] is Ok && longer[k] is Ok implies embeds(
        #[trigger] parts[k].unwrap(),
        longer[k].unwrap(),
    ) by {
        lemma_scored_card_embeds(scored[k], jokers, joker, at, drained, hands);
    }
    lemma_chain_embeds(parts, longer);
}

/// One more boosting joker puts boosts into the steps of the cards that stay
/// in hand.
pub proof fn lemma_held_phase_embeds(
    held: Seq<PlayingCard>,
    jokers: Seq<Joker>,
    joker: Joker,
    at: int,
)
    requires
        0 <= at <= jokers.len(),
        only_boosts(joker.kind),
        held_phase(held, jokers) is Ok,
        held_phase(held, jokers.insert(at, joker)) is Ok,
    ensures
        embeds(
            held_phase(held, jokers).unwrap(),
            held_phase(held, jokers.insert(at, joker)).unwrap(),
        ),
{
    let lowest = lowest_position(held);
    let parts = Seq::new(held.len(), |k: int| held_card_steps(held[k], jokers, lowest_position(held)));
    let longer = Seq::new(
        held.len(),
        |k: int| held_card_steps(held[k], jokers.insert(at, joker), lowest_position(held)),
    );
    assert forall|k: int| 0 <= k < parts.len() && parts[k] is Ok && longer[k] is Ok implies embeds(
        #[trigger] parts[k].unwrap(),
        longer[k].unwrap(),
    ) by {
        lemma_held_card_embeds(held[k], jokers, joker, at, lowest);
    }
    lemma_chain_embeds(parts, longer);
}

/// One more boosting joker puts boosts into the steps of the jokers.
pub proof fn lemma_joker_phase_embeds(jokers: Seq<Joker>, joker: Joker, at: int, setting: Setting)
    requires
        0 <= at <= jokers.len(),
        only_boosts(joker.kind),
        joker_phase(jokers, setting) is Ok,
        joker_phase(jokers.insert(at, joker), setting) is Ok,
    ensures
        embeds(
            joker_phase(jokers, setting).unwrap(),
            joker_phase(jokers.insert(at, joker), setting).unwrap(),
        ),
{
    let parts = Seq::new(jokers.len(), |i: int| joker_steps(jokers[i], setting));
    let more = jokers.insert(at, joker);
    let longer = Seq::new(more.len(), |i: int| joker_steps(more[i], setting));
    let extra = joker_steps(joker, setting);
    jokers.insert_ensures(at, joker);
    parts.insert_ensures(at, extra);
    assert(longer[at] == extra);
    lemma_chain_ok_parts(longer, at);
    assert forall|k: int| 0 <= k < longer.len() implies longer[k] == parts.insert(at, extra)[k] by {
        if k < at {
        } else if k == at {
        } else {
            assert(parts.insert(at, extra)[(k - 1) + 1] == parts[k - 1]);
            assert(more[(k - 1) + 1] == jokers[k - 1]);
        }
    }
    assert(longer =~= parts.insert(at, extra));
    lemma_boosts_on_play(joker, setting);
    lemma_chain_insert(parts, at, extra.unwrap());
}

/// One more joker that only boosts never lowers the score of a play.
///
/// The joker may stand anywhere among the others. Both plays must have a
/// score: a joker whose effect is not known gives none. Left out are splash
/// and four fingers, which add nothing of their own and change the cards that
/// count, and a first vampire where a scored card has an enhancement to
/// lose: with a glass card scored, a vampire of factor one turns the card's
/// factor two into 1.1.
///
/// The scores are compared as fractions: `a / b <= c / d` is written
/// `a * d <= c * b`.
pub proof fn lemma_boosting_joker_never_lowers_score(play: PlayView, joker: Joker, at: int)
    requires
        0 <= at <= play.jokers.len(),
        only_boosts(joker.kind),
        joker.kind is Vampire ==> vampire_takes_nothing(play),
        exact_score(play) is Ok,
        exact_score(with_joker(play, joker, at)) is Ok,
    ensures
        exact_score(play).unwrap().total_num() * exact_score(with_joker(play, joker, at)).unwrap().den
            <= exact_score(with_joker(play, joker, at)).unwrap().total_num() * exact_score(
            play,
        ).unwrap().den,
{
    let more = with_joker(play, joker, at);
    if selected_cards(play.hand).len() == 0 {
        assert(exact_score(play) == exact_score(more));
        let t = exact_score(play).unwrap();
        assert(t.total_num() * t.den == t.total_num() * t.den);
    } else {
        let hand = play.poker_hand.unwrap();
        lemma_same_presence(play.jokers, joker, at);
        let scored = scored_of(play, hand);
        assert(scored_of(more, hand) == scored);
        assert(setting_of(more, hand, scored) == setting_of(play, hand, scored));
        let setting = setting_of(play, hand, scored);
        let drained = has_vampire(play.jokers);
        let hands = play.run_info.hands;
        let held = held_cards(play.hand);
        if has_vampire(more.jokers) != drained {
            lemma_nothing_drained(scored, more.jokers, hands);
        }
        let parts = seq![
            scored_phase(scored, play.jokers, drained, hands),
            held_phase(held, play.jokers),
            joker_phase(play.jokers, setting),
        ];
        let longer = seq![
            scored_phase(scored, more.jokers, drained, hands),
            held_phase(held, more.jokers),
            joker_phase(more.jokers, setting),
        ];
        assert(play_steps(play, hand, scored) == chain(parts));
        assert(play_steps(more, hand, scored) == chain(longer));
        assert forall|k: int|
            0 <= k < parts.len() && parts[k] is Ok && longer[k] is Ok implies embeds(
            #[trigger] parts[k].unwrap(),
            longer[k].unwrap(),
        ) by {
            if k == 0 {
                lemma_scored_phase_embeds(scored, play.jokers, joker, at, drained, hands);
            } else if k == 1 {
                lemma_held_phase_embeds(held, play.jokers, joker, at);
            } else {
                lemma_joker_phase_embeds(play.jokers, joker, at, setting);
            }
        }
        lemma_chain_embeds(parts, longer);
        let steps = chain(parts).unwrap();
        let more_steps = chain(longer).unwrap();
        let start = Tally::start(hand.chips as int, hand.mult as int);
        lemma_no_more_refl(start);
        lemma_run_embeds(start, start, steps, more_steps);
        lemma_run_wf(start, steps);
        lemma_run_wf(start, more_steps);
        let a = start.run(steps);
        let b = start.run(more_steps);
        if play.run_info.deck == Deck::Plasma {
            lemma_leveled_keeps_order(a, b);
            lemma_total_keeps_order(a.leveled(), b.leveled());
        } else {
            lemma_total_keeps_order(a, b);
        }
    }
}

} // verus!
