//! Poker hand evaluation, equity enumeration, preflop range charts and a
//! betting decision rule.

pub mod ai;
pub mod cards;
pub mod combos;
pub mod eval;
pub mod laws;
pub mod parse;
pub mod preflop;
pub mod rank;
pub mod state;
