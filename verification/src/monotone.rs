//! Order on running totals, and why more boosts never give less.
//!
//! One tally is no more than another when it has no more chips and no larger
//! a multiplier. Every step keeps that order, and a boost never lowers a
//! tally, so a list of steps with boosts put in ends no lower than the list
//! without them.
use vstd::prelude::*;
use crate::tally::{lemma_run_wf, Step, Tally};

verus! {

/// `a` has no more chips than `b` and no larger a multiplier.
pub open spec fn no_more(a: Tally, b: Tally) -> bool {
    a.chips <= b.chips && a.num * b.den <= b.num * a.den
}

/// `longer` is `shorter` with boosts put in, anywhere and any number of them.
pub open spec fn embeds(shorter: Seq<Step>, longer: Seq<Step>) -> bool
    decreases longer.len(),
{
    if longer.len() == 0 {
        shorter.len() == 0
    } else {
        ||| (shorter.len() > 0 && shorter.last() == longer.last() && embeds(
            shorter.drop_last(),
            longer.drop_last(),
        ))
        ||| (longer.last().is_boost() && embeds(shorter, longer.drop_last()))
    }
}

/// Every step of the list is a boost.
pub open spec fn all_boosts(steps: Seq<Step>) -> bool {
    forall|k: int| 0 <= k < steps.len() ==> (#[trigger] steps[k]).is_boost()
}

pub proof fn lemma_no_more_refl(a: Tally)
    ensures
        no_more(a, a),
{
    assert(a.num * a.den == a.num * a.den);
}

pub proof fn lemma_no_more_trans(a: Tally, b: Tally, c: Tally)
    requires
        a.wf(),
        b.wf(),
        c.wf(),
        no_more(a, b),
        no_more(b, c),
    ensures
        no_more(a, c),
{
    assert(a.num * c.den <= c.num * a.den) by (nonlinear_arith)
        requires
            a.num * b.den <= b.num * a.den,
            b.num * c.den <= c.num * b.den,
            a.num >= 0,
            b.num >= 0,
            c.num >= 0,
            a.den > 0,
            b.den > 0,
            c.den > 0,
    {
        assert((a.num * b.den) * c.den <= (b.num * a.den) * c.den);
        assert((b.num * c.den) * a.den <= (c.num * b.den) * a.den);
        assert((a.num * c.den) * b.den <= (c.num * a.den) * b.den);
    }
}

/// A step keeps the order of two tallies.
pub proof fn lemma_apply_keeps_order(a: Tally, b: Tally, step: Step)
    requires
        a.wf(),
        b.wf(),
        no_more(a, b),
    ensures
        no_more(a.apply(step), b.apply(step)),
{
    match step {
        Step::AddChips(n) => {},
        Step::AddMult(n) => {
            assert((a.num + n * a.den) * b.den <= (b.num + n * b.den) * a.den) by (nonlinear_arith)
                requires
                    a.num * b.den <= b.num * a.den,
            ;
        },
        Step::Times(k) => {
            assert((a.num * k) * b.den <= (b.num * k) * a.den) by (nonlinear_arith)
                requires
                    a.num * b.den <= b.num * a.den,
                    k >= 0,
            ;
        },
        Step::TimesThreeHalves => {
            assert((a.num * 3) * (b.den * 2) <= (b.num * 3) * (a.den * 2)) by (nonlinear_arith)
                requires
                    a.num * b.den <= b.num * a.den,
            ;
        },
        Step::TimesHundredths(h) => {
            assert((a.num * h) * (b.den * 100) <= (b.num * h) * (a.den * 100)) by (nonlinear_arith)
                requires
                    a.num * b.den <= b.num * a.den,
                    h >= 0,
            ;
        },
    }
}

/// A boost does not lower a tally.
pub proof fn lemma_boost_raises(a: Tally, step: Step)
    requires
        a.wf(),
        step.is_boost(),
    ensures
        no_more(a, a.apply(step)),
{
    match step {
        Step::AddChips(n) => {
            assert(a.num * a.den == a.num * a.den);
        },
        Step::AddMult(n) => {
            assert(a.num * a.den <= (a.num + n * a.den) * a.den) by (nonlinear_arith)
                requires
                    n >= 0,
                    a.den > 0,
            ;
        },
        Step::Times(k) => {
            assert(a.num * a.den <= (a.num * k) * a.den) by (nonlinear_arith)
                requires
                    k >= 1,
                    a.num >= 0,
                    a.den > 0,
            ;
        },
        Step::TimesThreeHalves => {
            assert(a.num * (a.den * 2) <= (a.num * 3) * a.den) by (nonlinear_arith)
                requires
                    a.num >= 0,
                    a.den > 0,
            ;
        },
        Step::TimesHundredths(h) => {
            assert(a.num * (a.den * 100) <= (a.num * h) * a.den) by (nonlinear_arith)
                requires
                    h >= 100,
                    a.num >= 0,
                    a.den > 0,
            ;
        },
    }
}

/// Steps with boosts put in end no lower, from a start that is no lower.
pub proof fn lemma_run_embeds(a: Tally, b: Tally, shorter: Seq<Step>, longer: Seq<Step>)
    requires
        a.wf(),
        b.wf(),
        no_more(a, b),
        embeds(shorter, longer),
    ensures
        no_more(a.run(shorter), b.run(longer)),
    decreases longer.len(),
{
    if longer.len() > 0 {
        if shorter.len() > 0 && shorter.last() == longer.last() && embeds(
            shorter.drop_last(),
            longer.drop_last(),
        ) {
            lemma_run_embeds(a, b, shorter.drop_last(), longer.drop_last());
            lemma_run_wf(a, shorter.drop_last());
            lemma_run_wf(b, longer.drop_last());
            lemma_apply_keeps_order(
                a.run(shorter.drop_last()),
                b.run(longer.drop_last()),
                longer.last(),
            );
        } else {
            lemma_run_embeds(a, b, shorter, longer.drop_last());
            lemma_run_wf(a, shorter);
            lemma_run_wf(b, longer.drop_last());
            lemma_run_wf(b, longer);
            lemma_boost_raises(b.run(longer.drop_last()), longer.last());
            lemma_no_more_trans(a.run(shorter), b.run(longer.drop_last()), b.run(longer));
        }
    }
}

pub proof fn lemma_embeds_refl(steps: Seq<Step>)
    ensures
        embeds(steps, steps),
    decreases steps.len(),
{
    if steps.len() > 0 {
        lemma_embeds_refl(steps.drop_last());
    }
}

/// Boosts alone are the empty list with boosts put in.
pub proof fn lemma_embeds_boosts(steps: Seq<Step>)
    requires
        all_boosts(steps),
    ensures
        embeds(Seq::empty(), steps),
    decreases steps.len(),
{
    if steps.len() > 0 {
        lemma_embeds_boosts(steps.drop_last());
    }
}

/// Putting boosts in goes through concatenation.
pub proof fn lemma_embeds_concat(a: Seq<Step>, longer_a: Seq<Step>, b: Seq<Step>, longer_b: Seq<Step>)
    requires
        embeds(a, longer_a),
        embeds(b, longer_b),
    ensures
        embeds(a + b, longer_a + longer_b),
    decreases longer_b.len(),
{
    if longer_b.len() == 0 {
        assert(a + b =~= a);
        assert(longer_a + longer_b =~= longer_a);
    } else if b.len() > 0 && b.last() == longer_b.last() && embeds(
        b.drop_last(),
        longer_b.drop_last(),
    ) {
        lemma_embeds_concat(a, longer_a, b.drop_last(), longer_b.drop_last());
        assert((a + b).drop_last() =~= a + b.drop_last());
        assert((longer_a + longer_b).drop_last() =~= longer_a + longer_b.drop_last());
    } else {
        lemma_embeds_concat(a, longer_a, b, longer_b.drop_last());
        assert((longer_a + longer_b).drop_last() =~= longer_a + longer_b.drop_last());
    }
}

/// Rounding a fraction down keeps the order of two fractions.
pub proof fn lemma_floor_keeps_order(x: int, y: int, u: int, v: int)
    requires
        0 <= x,
        0 <= u,
        0 < y,
        0 < v,
        x * v <= u * y,
    ensures
        x / y <= u / v,
{
    let q = x / y;
    let p = u / v;
    assert(q * y <= x < (q + 1) * y && p * v <= u < (p + 1) * v) by (nonlinear_arith)
        requires
            q == x / y,
            p == u / v,
            0 < y,
            0 < v,
    ;
    if q > p {
        assert(false) by (nonlinear_arith)
            requires
                q >= p + 1,
                q * y <= x,
                u < (p + 1) * v,
                x * v <= u * y,
                0 < y,
                0 < v,
                0 <= x,
                0 <= u,
        {
            assert((p + 1) * y <= q * y);
            assert((p + 1) * y * v <= x * v);
            assert(u * y < (p + 1) * v * y);
        }
    }
}

/// Levelling keeps the order of two tallies.
pub proof fn lemma_leveled_keeps_order(a: Tally, b: Tally)
    requires
        a.wf(),
        b.wf(),
        no_more(a, b),
    ensures
        no_more(a.leveled(), b.leveled()),
        a.leveled().wf(),
        b.leveled().wf(),
{
    assert((a.chips * a.den + a.num) * (2 * b.den) <= (b.chips * b.den + b.num) * (2 * a.den))
        by (nonlinear_arith)
        requires
            a.chips <= b.chips,
            a.num * b.den <= b.num * a.den,
            a.den > 0,
            b.den > 0,
    ;
    assert(a.chips * a.den + a.num >= 0 && b.chips * b.den + b.num >= 0) by (nonlinear_arith)
        requires
            a.wf(),
            b.wf(),
    ;
    lemma_floor_keeps_order(
        a.chips * a.den + a.num,
        2 * a.den,
        b.chips * b.den + b.num,
        2 * b.den,
    );
    crate::tally::lemma_midpoint_by_whole_part(a);
    crate::tally::lemma_midpoint_by_whole_part(b);
    assert(a.midpoint() * 1 <= b.midpoint() * 1);
}

/// The product of chips and multiplier keeps the order of two tallies.
pub proof fn lemma_total_keeps_order(a: Tally, b: Tally)
    requires
        a.wf(),
        b.wf(),
        no_more(a, b),
    ensures
        a.total_num() * b.den <= b.total_num() * a.den,
{
    assert((a.chips * a.num) * b.den <= (b.chips * b.num) * a.den) by (nonlinear_arith)
        requires
            0 <= a.chips <= b.chips,
            a.num * b.den <= b.num * a.den,
            a.num >= 0,
            b.num >= 0,
            a.den > 0,
            b.den > 0,
    {
        assert(a.chips * (a.num * b.den) <= a.chips * (b.num * a.den));
        assert(a.chips * (b.num * a.den) <= b.chips * (b.num * a.den));
    }
}

} // verus!
