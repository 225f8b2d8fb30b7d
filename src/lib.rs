//! Decision engine for an artificial Marjapussi player: a generic alpha-beta
//! search, its specialisation to the card game, and a rule-based bidding
//! advisor.

pub mod alpha_beta;
pub mod tree;
pub mod model;
pub mod evaluation;
pub mod bookkeeping;
pub mod rules;
pub mod bidding;
pub mod search_state;
pub mod ai;
pub mod cheater;
