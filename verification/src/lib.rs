//! Recomputes the score of a played hand in a chips-and-multiplier card game.
//!
//! A [`play::Play`] is a snapshot of one hand about to be played: the cards
//! held, which of them are selected, the jokers, the classified poker hand and
//! the state of the run. [`score::score_hand`] decides which selected cards
//! count, walks cards and jokers in a fixed order, and returns chips,
//! multiplier and their product as exact fractions.
//!
//! - [`cards`], [`hands`], [`jokers`], [`play`]: what a snapshot is made of.
//! - [`resolver`]: which selected cards count for a kind of hand.
//! - [`effects`]: what each card and each joker does.
//! - [`tally`]: the running totals and the steps that change them.
//! - [`score`]: the order of scoring and the result.
//! - [`monotone`], [`laws`]: what is proved of every play.
pub mod cards;
pub mod effects;
pub mod error;
pub mod hands;
pub mod jokers;
pub mod laws;
pub mod monotone;
pub mod play;
pub mod resolver;
pub mod score;
pub mod tally;
