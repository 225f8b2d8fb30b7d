//! Plain values that describe a Marjapussi table: cards, actions, events,
//! tricks and phases, as the search and the bidding advisor read them.

use vstd::prelude::*;

verus! {

#[derive(Clone, Copy, Debug, PartialEq, Eq, Structural)]
pub enum Suit {
    Green,
    Acorns,
    Bells,
    Red,
}

#[derive(Clone, Copy, Debug, PartialEq, Eq, Structural)]
pub enum Value {
    Six,
    Seven,
    Eight,
    Nine,
    Unter,
    Ober,
    King,
    Ten,
    Ace,
}

#[derive(Clone, Copy, Debug, PartialEq, Eq, Structural)]
pub struct Card {
    pub suit: Suit,
    pub value: Value,
}

#[derive(Clone, Copy, Debug, PartialEq, Eq, Structural)]
pub enum Question {
    Yours,
    YourHalf(Suit),
}

#[derive(Clone, Copy, Debug, PartialEq, Eq, Structural)]
pub enum Answer {
    YesPair(Suit),
    NoPair,
    YesHalf(Suit),
    NoHalf(Suit),
}

/// What a player does.
#[derive(Clone, Debug)]
pub enum ActionKind {
    Start,
    NewBid(i32),
    StopBidding,
    Pass(Vec<Card>),
    CardPlayed(Card),
    Question(Question),
    Answer(Answer),
    AnnounceTrump(Suit),
    UndoRequest,
    UndoDecline,
    UndoAccept,
}

/// An action together with the seat (0 to 3) of the player who takes it.
#[derive(Clone, Debug)]
pub struct Action {
    pub kind: ActionKind,
    pub player: u8,
}

/// What the rules report beside an action, such as a new trump.
#[derive(Clone, Copy, Debug, PartialEq, Eq, Structural)]
pub enum Callback {
    NewTrump(Suit),
    StillTrump(Suit),
    NoHalf(Suit),
    OnlyHalf(Suit),
}

/// One step of a game's history: the action taken and what it caused.
#[derive(Clone, Debug)]
pub struct EventRecord {
    pub action: Action,
    pub callback: Option<Callback>,
}

/// A finished trick: the seat that won it and the card points it held.
#[derive(Clone, Copy, Debug, PartialEq, Eq, Structural)]
pub struct TrickRecord {
    pub winner: u8,
    pub points: i32,
}

/// The phase a game is in. An undo request that waits for answers is
/// `PendingUndo`, whatever phase it interrupted.
#[derive(Clone, Copy, Debug, PartialEq, Eq, Structural)]
pub enum Phase {
    WaitingForStart,
    Bidding,
    PassingForth,
    PassingBack,
    Raising,
    Trick,
    StartTrick,
    AnsweringPair,
    AnsweringHalf(Suit),
    Ended,
    PendingUndo,
}

} // verus!
