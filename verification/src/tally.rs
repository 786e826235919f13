//! The two running totals of a play, chips and multiplier, and the steps that
//! change them.
//!
//! The multiplier is kept as an exact fraction. A step never rounds: adding
//! `n` to `num / den` gives `(num + n * den) / den`, and scaling multiplies
//! numerator and denominator apart. Only levelling rounds, down to a whole
//! number.
use vstd::prelude::*;
use vstd::arithmetic::div_mod::lemma_fundamental_div_mod_converse;

verus! {

/// One change to the running totals.
#[derive(Clone, Copy, Debug, PartialEq, Eq, Hash, Structural)]
pub enum Step {
    /// Chips go up by the amount.
    AddChips(u64),
    /// The multiplier goes up by the amount.
    AddMult(u64),
    /// The multiplier is multiplied by a whole number.
    Times(u64),
    /// The multiplier is multiplied by one and a half.
    TimesThreeHalves,
    /// The multiplier is multiplied by the given number of hundredths.
    TimesHundredths(u128),
}

impl Step {
    /// A step that can only raise a total or leave it as it is, whatever the
    /// totals are: an addition, or a factor of at least one.
    pub open spec fn is_boost(self) -> bool {
        match self {
            Step::AddChips(_) => true,
            Step::AddMult(_) => true,
            Step::Times(k) => k >= 1,
            Step::TimesThreeHalves => true,
            Step::TimesHundredths(h) => h >= 100,
        }
    }
}

/// The running totals as numbers without bound: chips, and the multiplier
/// `num / den`.
pub struct Tally {
    pub chips: int,
    pub num: int,
    pub den: int,
}

impl Tally {
    /// Nothing is negative and the denominator is not zero.
    pub open spec fn wf(self) -> bool {
        self.chips >= 0 && self.num >= 0 && self.den > 0
    }

    /// The totals a play starts from: the base chips and the base multiplier.
    pub open spec fn start(chips: int, mult: int) -> Tally {
        Tally { chips, num: mult, den: 1 }
    }

    /// The totals after one step.
    pub open spec fn apply(self, step: Step) -> Tally {
        match step {
            Step::AddChips(n) => Tally { chips: self.chips + n, ..self },
            Step::AddMult(n) => Tally { num: self.num + n * self.den, ..self },
            Step::Times(k) => Tally { num: self.num * k, ..self },
            Step::TimesThreeHalves => Tally { num: self.num * 3, den: self.den * 2, ..self },
            Step::TimesHundredths(h) => Tally { num: self.num * h, den: self.den * 100, ..self },
        }
    }

    /// The totals after the steps, applied from first to last.
    pub open spec fn run(self, steps: Seq<Step>) -> Tally
        decreases steps.len(),
    {
        if steps.len() == 0 {
            self
        } else {
            self.run(steps.drop_last()).apply(steps.last())
        }
    }

    /// All three numbers fit in 128 bits.
    pub open spec fn within(self) -> bool {
        self.chips <= u128::MAX && self.num <= u128::MAX && self.den <= u128::MAX
    }

    /// The totals fit in 128 bits after every one of the steps.
    pub open spec fn within_throughout(self, steps: Seq<Step>) -> bool {
        forall|k: int| 0 <= k <= steps.len() ==> (#[trigger] self.run(steps.take(k))).within()
    }

    /// The whole number that levelling sets both totals to: half of chips plus
    /// multiplier, rounded down.
    pub open spec fn midpoint(self) -> int {
        (self.chips * self.den + self.num) / (2 * self.den)
    }

    /// Both totals replaced by their midpoint.
    pub open spec fn leveled(self) -> Tally {
        Tally { chips: self.midpoint(), num: self.midpoint(), den: 1 }
    }

    /// Numerator of the product of chips and multiplier; its denominator is
    /// `den`.
    pub open spec fn total_num(self) -> int {
        self.chips * self.num
    }
}

/// `run` on a sequence with one more step at the end.
pub proof fn lemma_run_push(t: Tally, steps: Seq<Step>, step: Step)
    ensures
        t.run(steps.push(step)) == t.run(steps).apply(step),
{
    assert(steps.push(step).drop_last() =~= steps);
}

/// Steps keep well-formed totals well-formed.
pub proof fn lemma_run_wf(t: Tally, steps: Seq<Step>)
    requires
        t.wf(),
    ensures
        t.run(steps).wf(),
    decreases steps.len(),
{
    if steps.len() > 0 {
        lemma_run_wf(t, steps.drop_last());
        let u = t.run(steps.drop_last());
        match steps.last() {
            Step::AddChips(n) => {},
            Step::AddMult(n) => {
                assert(n * u.den >= 0) by (nonlinear_arith)
                    requires
                        n >= 0,
                        u.den > 0,
                ;
            },
            Step::Times(k) => {
                assert(u.num * k >= 0) by (nonlinear_arith)
                    requires
                        u.num >= 0,
                        k >= 0,
                ;
            },
            Step::TimesThreeHalves => {},
            Step::TimesHundredths(h) => {
                assert(u.num * h >= 0) by (nonlinear_arith)
                    requires
                        u.num >= 0,
                        h >= 0,
                ;
            },
        }
    }
}

/// The midpoint is the whole part of the multiplier plus the chips, halved and
/// rounded down: the fraction of the multiplier cannot carry it over a whole
/// number.
pub proof fn lemma_midpoint_by_whole_part(t: Tally)
    requires
        t.wf(),
    ensures
        t.midpoint() == (t.chips + t.num / t.den) / 2,
        0 <= t.midpoint(),
{
    let w = t.num / t.den;
    let r = t.num % t.den;
    let s = t.chips + w;
    let q = s / 2;
    let b = s % 2;
    assert(t.num == w * t.den + r && 0 <= r < t.den && w >= 0) by (nonlinear_arith)
        requires
            w == t.num / t.den,
            r == t.num % t.den,
            t.den > 0,
            t.num >= 0,
    ;
    assert(t.chips * t.den + t.num == q * (2 * t.den) + (b * t.den + r)) by (nonlinear_arith)
        requires
            t.num == w * t.den + r,
            s == t.chips + w,
            s == 2 * q + b,
    ;
    assert(0 <= b * t.den + r < 2 * t.den) by (nonlinear_arith)
        requires
            0 <= b <= 1,
            0 <= r < t.den,
    ;
    lemma_fundamental_div_mod_converse(
        t.chips * t.den + t.num,
        2 * t.den,
        q,
        b * t.den + r,
    );
}

/// A fraction of two 128-bit numbers. The denominator of a fraction that this
/// crate returns is never zero.
#[derive(Clone, Copy, Debug, PartialEq, Eq, Hash, Structural)]
pub struct Ratio {
    pub num: u128,
    pub den: u128,
}

/// The running totals in 128-bit numbers.
#[derive(Clone, Copy, Debug, PartialEq, Eq, Hash, Structural)]
pub struct Totals {
    pub chips: u128,
    pub mult: Ratio,
}

impl View for Totals {
    type V = Tally;

    open spec fn view(&self) -> Tally {
        Tally { chips: self.chips as int, num: self.mult.num as int, den: self.mult.den as int }
    }
}

impl Totals {
    /// The totals a play starts from.
    pub fn start(chips: u64, mult: u64) -> (r: Totals)
        ensures
            r@ == Tally::start(chips as int, mult as int),
    {
        Totals { chips: chips as u128, mult: Ratio { num: mult as u128, den: 1 } }
    }

    /// Applies one step, or returns `None` where a result does not fit.
    pub fn apply(self, step: Step) -> (r: Option<Totals>)
        ensures
            match r {
                Some(t) => t@ == self@.apply(step),
                None => !self@.apply(step).within(),
            },
    {
        let Totals { chips, mult } = self;
        let Ratio { num, den } = mult;
        match step {
            Step::AddChips(n) => match chips.checked_add(n as u128) {
                Some(c) => Some(Totals { chips: c, mult }),
                None => None,
            },
            Step::AddMult(n) => {
                assert((n as int) * (den as int) >= 0) by (nonlinear_arith);
                match (n as u128).checked_mul(den) {
                    Some(p) => match num.checked_add(p) {
                        Some(m) => Some(Totals { chips, mult: Ratio { num: m, den } }),
                        None => None,
                    },
                    None => None,
                }
            },
            Step::Times(k) => match num.checked_mul(k as u128) {
                Some(m) => Some(Totals { chips, mult: Ratio { num: m, den } }),
                None => None,
            },
            Step::TimesThreeHalves => match num.checked_mul(3) {
                Some(m) => match den.checked_mul(2) {
                    Some(d) => Some(Totals { chips, mult: Ratio { num: m, den: d } }),
                    None => None,
                },
                None => None,
            },
            Step::TimesHundredths(h) => match num.checked_mul(h) {
                Some(m) => match den.checked_mul(100) {
                    Some(d) => Some(Totals { chips, mult: Ratio { num: m, den: d } }),
                    None => None,
                },
                None => None,
            },
        }
    }

    /// Both totals replaced by their midpoint, rounded down. Never overflows:
    /// the midpoint is no larger than the larger of the two.
    pub fn level(self) -> (r: Totals)
        requires
            self.mult.den > 0,
        ensures
            r@ == self@.leveled(),
    {
        proof {
            lemma_midpoint_by_whole_part(self@);
        }
        let whole: u128 = self.mult.num / self.mult.den;
        let mid: u128 = self.chips / 2 + whole / 2 + (self.chips % 2 + whole % 2) / 2;
        Totals { chips: mid, mult: Ratio { num: mid, den: 1 } }
    }
}

/// Applies the steps from first to last. Returns `None` exactly where the
/// totals leave 128 bits after one of the steps.
pub fn run_steps(start: Totals, steps: &Vec<Step>) -> (r: Option<Totals>)
    ensures
        r is Some <==> start@.within_throughout(steps@),
        r matches Some(t) ==> t@ == start@.run(steps@),
{
    let mut cur = start;
    let mut i: usize = 0;
    assert(steps@.take(0) =~= Seq::<Step>::empty());
    while i < steps.len()
        invariant
            i <= steps.len(),
            cur@ == start@.run(steps@.take(i as int)),
            forall|k: int| 0 <= k <= i ==> (#[trigger] start@.run(steps@.take(k))).within(),
        decreases steps.len() - i,
    {
        proof {
            assert(steps@.take(i + 1) =~= steps@.take(i as int).push(steps@[i as int]));
            lemma_run_push(start@, steps@.take(i as int), steps@[i as int]);
        }
        match cur.apply(steps[i]) {
            Some(next) => {
                cur = next;
            },
            None => {
                assert(!start@.run(steps@.take(i + 1)).within());
                return None;
            },
        }
        i += 1;
    }
    assert(steps@.take(steps@.len() as int) =~= steps@);
    Some(cur)
}

} // verus!
