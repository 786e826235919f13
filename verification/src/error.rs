//! The ways in which scoring a play can fail.
use vstd::prelude::*;
use crate::jokers::JokerKind;

verus! {

/// Why a play has no score.
#[derive(Clone, Copy, Debug, PartialEq, Eq, Hash, Structural)]
pub enum ScoreError {
    /// The play needs a poker hand that the snapshot does not hold: the
    /// selection is not classified, or a joker asked how often the classified
    /// hand was played and the run has no record of it.
    MissingHandContext,
    /// A joker is in play whose effect on the score is not known. The play
    /// cannot be scored exactly; the caller decides whether to go on without
    /// the joker.
    UnmodeledEffect(JokerKind),
    /// The search for the scoring cards was asked about a kind of hand that
    /// has no search of its own.
    ContractViolation,
    /// A total left the range of 128-bit numbers.
    Overflow,
}

} // verus!
