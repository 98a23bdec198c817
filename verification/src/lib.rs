//! A blackjack strategy evaluator: a fixed playing strategy, given as three
//! lookup tables, is played against a scripted dealer over many shoes, and
//! the bankroll that is left is the strategy's score.

pub mod card;
pub mod wallet;
pub mod deck;
pub mod hand;
pub mod table;
pub mod rules;
pub mod play;
pub mod blackjack;
