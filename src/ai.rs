//! The interfaces of a Marjapussi player.

use vstd::prelude::*;
use marjapussi::game::Game;
use crate::model::{Action, EventRecord};

verus! {

/// Why an agent could not choose an action.
#[derive(Clone, Copy, Debug, PartialEq, Eq, Structural)]
pub enum AgentError {
    /// The rules offer no action to the player asked to act.
    NoLegalActions,
    /// The bid the advisor chose is not among the legal actions.
    BidNotAvailable,
    /// The rules cannot list the actions of this game (see `rules::ready`).
    GameNotReady,
    /// The bidding history holds a sequence the ace detector cannot read.
    UnreadableBiddingHistory,
    /// The game cannot be searched from this state: its history is too long
    /// to count, or the searching party is not to act, or no move is left.
    SearchNotPossible,
}

/// A player that only sees what happens at the table.
pub trait MarjapussiAI {
    fn observe_event(&self, event: EventRecord);

    fn select_action(&self, legal_actions: Vec<Action>) -> Action;
}

/// A player that sees the whole game, all four hands included.
pub trait MarjapussiCheater {
    fn select_action(&mut self, gamestate: Game) -> Result<Action, AgentError>;
}

} // verus!
