//! The calls into the marjapussi rule engine, and the conversions between its
//! types and this crate's plain values. Conversions map each variant to the
//! variant of the same name.

use vstd::prelude::*;
use marjapussi::game::Game;
use marjapussi::game::cards::Card as MCard;
use marjapussi::game::cards::Suit as MSuit;
use marjapussi::game::cards::Value as MValue;
use marjapussi::game::errors::GameError;
use marjapussi::game::gameevent::{ActionType, AnswerType, GameAction, GameCallback, GameEvent, QuestionType};
use marjapussi::game::gamestate::{FinishedTrick, GamePhase};
use crate::bidding::{halves_in, pairs_in};
use crate::model::{
    Action, ActionKind, Answer, Callback, Card, EventRecord, Phase, Question, Suit, TrickRecord, Value,
};

verus! {

#[verifier::external_type_specification]
#[verifier::external_body]
pub struct ExGame(Game);

#[verifier::external_type_specification]
#[verifier::external_body]
pub struct ExGameError(GameError);

#[verifier::external_type_specification]
#[verifier::external_body]
pub struct ExSuit(MSuit);

#[verifier::external_type_specification]
#[verifier::external_body]
pub struct ExValue(MValue);

#[verifier::external_type_specification]
#[verifier::external_body]
pub struct ExCard(MCard);

#[verifier::external_type_specification]
#[verifier::external_body]
pub struct ExGameAction(GameAction);

#[verifier::external_type_specification]
#[verifier::external_body]
pub struct ExActionType(ActionType);

#[verifier::external_type_specification]
#[verifier::external_body]
pub struct ExQuestionType(QuestionType);

#[verifier::external_type_specification]
#[verifier::external_body]
pub struct ExAnswerType(AnswerType);

#[verifier::external_type_specification]
#[verifier::external_body]
pub struct ExGameCallback(GameCallback);

#[verifier::external_type_specification]
#[verifier::external_body]
pub struct ExGameEvent(GameEvent);

#[verifier::external_type_specification]
#[verifier::external_body]
pub struct ExFinishedTrick(FinishedTrick);

#[verifier::external_type_specification]
#[verifier::external_body]
pub struct ExGamePhase(GamePhase);

/// Converts a suit to marjapussi's.
#[verifier::external_body]
pub(crate) fn suit_out(s: Suit) -> MSuit {
    match s {
        Suit::Green => MSuit::Green,
        Suit::Acorns => MSuit::Acorns,
        Suit::Bells => MSuit::Bells,
        Suit::Red => MSuit::Red,
    }
}

/// Converts a suit from marjapussi's.
#[verifier::external_body]
pub(crate) fn suit_in(s: &MSuit) -> Suit {
    match s {
        MSuit::Green => Suit::Green,
        MSuit::Acorns => Suit::Acorns,
        MSuit::Bells => Suit::Bells,
        MSuit::Red => Suit::Red,
    }
}

/// Converts a card value to marjapussi's.
#[verifier::external_body]
pub(crate) fn value_out(v: Value) -> MValue {
    match v {
        Value::Six => MValue::Six,
        Value::Seven => MValue::Seven,
        Value::Eight => MValue::Eight,
        Value::Nine => MValue::Nine,
        Value::Unter => MValue::Unter,
        Value::Ober => MValue::Ober,
        Value::King => MValue::King,
        Value::Ten => MValue::Ten,
        Value::Ace => MValue::Ace,
    }
}

/// Converts a card value from marjapussi's.
#[verifier::external_body]
pub(crate) fn value_in(v: &MValue) -> Value {
    match v {
        MValue::Six => Value::Six,
        MValue::Seven => Value::Seven,
        MValue::Eight => Value::Eight,
        MValue::Nine => Value::Nine,
        MValue::Unter => Value::Unter,
        MValue::Ober => Value::Ober,
        MValue::King => Value::King,
        MValue::Ten => Value::Ten,
        MValue::Ace => Value::Ace,
    }
}

/// Converts a card to marjapussi's.
#[verifier::external_body]
pub(crate) fn card_out(c: Card) -> MCard {
    MCard { suit: suit_out(c.suit), value: value_out(c.value) }
}

/// Converts a card from marjapussi's.
#[verifier::external_body]
pub(crate) fn card_in(c: &MCard) -> Card {
    Card { suit: suit_in(&c.suit), value: value_in(&c.value) }
}

/// Converts a question to marjapussi's.
#[verifier::external_body]
pub(crate) fn question_out(q: Question) -> QuestionType {
    match q {
        Question::Yours => QuestionType::Yours,
        Question::YourHalf(s) => QuestionType::YourHalf(suit_out(s)),
    }
}

/// Converts a question from marjapussi's.
#[verifier::external_body]
pub(crate) fn question_in(q: &QuestionType) -> Question {
    match q {
        QuestionType::Yours => Question::Yours,
        QuestionType::YourHalf(s) => Question::YourHalf(suit_in(s)),
    }
}

/// Converts an answer to marjapussi's.
#[verifier::external_body]
pub(crate) fn answer_out(a: Answer) -> AnswerType {
    match a {
        Answer::YesPair(s) => AnswerType::YesPair(suit_out(s)),
        Answer::NoPair => AnswerType::NoPair,
        Answer::YesHalf(s) => AnswerType::YesHalf(suit_out(s)),
        Answer::NoHalf(s) => AnswerType::NoHalf(suit_out(s)),
    }
}

/// Converts an answer from marjapussi's.
#[verifier::external_body]
pub(crate) fn answer_in(a: &AnswerType) -> Answer {
    match a {
        AnswerType::YesPair(s) => Answer::YesPair(suit_in(s)),
        AnswerType::NoPair => Answer::NoPair,
        AnswerType::YesHalf(s) => Answer::YesHalf(suit_in(s)),
        AnswerType::NoHalf(s) => Answer::NoHalf(suit_in(s)),
    }
}

/// Converts an action type to marjapussi's.
#[verifier::external_body]
pub(crate) fn kind_out(k: &ActionKind) -> ActionType {
    match k {
        ActionKind::Start => ActionType::Start,
        ActionKind::NewBid(v) => ActionType::NewBid(*v),
        ActionKind::StopBidding => ActionType::StopBidding,
        ActionKind::Pass(cs) => ActionType::Pass(cs.iter().map(|c| card_out(*c)).collect()),
        ActionKind::CardPlayed(c) => ActionType::CardPlayed(card_out(*c)),
        ActionKind::Question(q) => ActionType::Question(question_out(*q)),
        ActionKind::Answer(a) => ActionType::Answer(answer_out(*a)),
        ActionKind::AnnounceTrump(s) => ActionType::AnnounceTrump(suit_out(*s)),
        ActionKind::UndoRequest => ActionType::UndoRequest,
        ActionKind::UndoDecline => ActionType::UndoDecline,
        ActionKind::UndoAccept => ActionType::UndoAccept,
    }
}

/// Converts an action type from marjapussi's.
#[verifier::external_body]
pub(crate) fn kind_in(k: &ActionType) -> ActionKind {
    match k {
        ActionType::Start => ActionKind::Start,
        ActionType::NewBid(v) => ActionKind::NewBid(*v),
        ActionType::StopBidding => ActionKind::StopBidding,
        ActionType::Pass(cs) => ActionKind::Pass(cs.iter().map(card_in).collect()),
        ActionType::CardPlayed(c) => ActionKind::CardPlayed(card_in(c)),
        ActionType::Question(q) => ActionKind::Question(question_in(q)),
        ActionType::Answer(a) => ActionKind::Answer(answer_in(a)),
        ActionType::AnnounceTrump(s) => ActionKind::AnnounceTrump(suit_in(s)),
        ActionType::UndoRequest => ActionKind::UndoRequest,
        ActionType::UndoDecline => ActionKind::UndoDecline,
        ActionType::UndoAccept => ActionKind::UndoAccept,
    }
}

/// Converts an action to marjapussi's.
#[verifier::external_body]
pub(crate) fn action_out(a: &Action) -> GameAction {
    GameAction {
        action_type: kind_out(&a.kind),
        player: marjapussi::game::player::PlaceAtTable(a.player),
    }
}

/// Converts an action from marjapussi's.
#[verifier::external_body]
pub(crate) fn action_in(a: &GameAction) -> Action {
    Action { kind: kind_in(&a.action_type), player: a.player.0 }
}

/// Converts a callback from marjapussi's.
#[verifier::external_body]
pub(crate) fn callback_in(c: &GameCallback) -> Callback {
    match c {
        GameCallback::NewTrump(s) => Callback::NewTrump(suit_in(s)),
        GameCallback::StillTrump(s) => Callback::StillTrump(suit_in(s)),
        GameCallback::NoHalf(s) => Callback::NoHalf(suit_in(s)),
        GameCallback::OnlyHalf(s) => Callback::OnlyHalf(suit_in(s)),
    }
}

/// Converts an event from marjapussi's: its action and callback.
#[verifier::external_body]
pub(crate) fn event_in(e: &GameEvent) -> EventRecord {
    EventRecord { action: action_in(&e.last_action), callback: e.callback.as_ref().map(callback_in) }
}

/// Converts a finished trick from marjapussi's: its winner and points.
#[verifier::external_body]
pub(crate) fn trick_in(t: &FinishedTrick) -> TrickRecord {
    TrickRecord { winner: t.winner.0, points: t.points.0 }
}

/// Converts a game phase from marjapussi's.
#[verifier::external_body]
pub(crate) fn phase_in(p: &GamePhase) -> Phase {
    match p {
        GamePhase::WaitingForStart => Phase::WaitingForStart,
        GamePhase::Bidding => Phase::Bidding,
        GamePhase::PassingForth => Phase::PassingForth,
        GamePhase::PassingBack => Phase::PassingBack,
        GamePhase::Raising => Phase::Raising,
        GamePhase::Trick => Phase::Trick,
        GamePhase::StartTrick => Phase::StartTrick,
        GamePhase::AnsweringPair => Phase::AnsweringPair,
        GamePhase::AnsweringHalf(s) => Phase::AnsweringHalf(suit_in(s)),
        GamePhase::Ended => Phase::Ended,
        GamePhase::PendingUndo(_) => Phase::PendingUndo,
    }
}

/// The game's phase (`Game::state.phase`).
pub uninterp spec fn phase_of(g: Game) -> Phase;

/// The seat of the player to act (`Game::state.player_at_turn`).
pub uninterp spec fn seat_of(g: Game) -> u8;

/// The game's value (`Game::state.value`).
pub uninterp spec fn value_of(g: Game) -> i32;

/// The four hands, by seat (`Game::state.players`).
pub uninterp spec fn hands_of(g: Game) -> Seq<Vec<Card>>;

/// The finished tricks, oldest first (`Game::state.all_tricks`).
pub uninterp spec fn tricks_of(g: Game) -> Seq<TrickRecord>;

/// The event history, oldest first (`Game::all_events`).
pub uninterp spec fn events_of(g: Game) -> Seq<EventRecord>;

/// The bidding history, oldest first (`Game::state.bidding_history`).
pub uninterp spec fn bidding_of(g: Game) -> Seq<Action>;

/// The seat to act in the state kept from before the last action, if one was
/// kept (`Game::last_state`).
pub uninterp spec fn saved_seat_of(g: Game) -> Option<u8>;

/// What `Game::legal_actions` returns on the game.
pub uninterp spec fn legal_of(g: Game) -> Seq<Action>;

/// Whether `Game::apply_action` accepts `a`: it is among the actions the game
/// keeps as legal (`Game::legal_actions`, the field).
pub uninterp spec fn apply_ok(g: Game, a: Action) -> bool;

/// The callback of the event that `Game::apply_action` records for `a`.
pub uninterp spec fn callback_after(g: Game, a: Action) -> Option<Callback>;

/// The seat to act in the game that `Game::apply_action` returns for `a`.
pub uninterp spec fn seat_after(g: Game, a: Action) -> u8;

/// `Game::legal_actions` on the game that `Game::apply_action` returns for `a`.
pub uninterp spec fn legal_after(g: Game, a: Action) -> Seq<Action>;

/// Whether the game that `Game::apply_action` returns for `a` accepts `b` in
/// turn.
pub uninterp spec fn answer_ok_after(g: Game, a: Action, b: Action) -> bool;

/// The callback recorded for `b`, applied after `a`.
pub uninterp spec fn answer_callback_after(g: Game, a: Action, b: Action) -> Option<Callback>;

/// The card `a` plays, if it plays one.
pub open spec fn played_card(a: Action) -> Option<Card> {
    match a.kind {
        ActionKind::CardPlayed(c) => Some(c),
        _ => None,
    }
}

/// How many copies of `x` the hand of seat `k` holds in `g`.
pub open spec fn hand_count(g: Game, k: int, x: Card) -> nat {
    hands_of(g)[k]@.to_multiset().count(x)
}

/// The last element of a history, if any.
pub open spec fn last_of<T>(s: Seq<T>) -> Option<T> {
    if s.len() == 0 { None } else { Some(s.last()) }
}

/// The states on which marjapussi's `Game::legal_actions` returns: the player
/// to act has a seat, a bid can still be raised by 5 within `i32`, an undo
/// request waits only where the state before it was kept with a seated
/// player, and an answer is due only right after a question.
pub open spec fn ready(g: Game) -> bool {
    &&& seat_of(g) < 4
    &&& (phase_of(g) matches Phase::Bidding || phase_of(g) matches Phase::Raising) ==> value_of(g)
        <= i32::MAX - 5
    &&& phase_of(g) matches Phase::PendingUndo ==> (saved_seat_of(g) matches Some(s) && s < 4)
    &&& (phase_of(g) matches Phase::AnsweringPair || phase_of(g) matches Phase::AnsweringHalf(_))
        ==> (last_of(events_of(g)) matches Some(e) && e.action.kind matches ActionKind::Question(_))
}

/// The actions that `game_apply` may hand to the rules: playing a card,
/// asking, answering and announcing a trump, by a player with a seat (the
/// rules index the players by it).
pub open spec fn play_action(a: Action) -> bool {
    &&& a.player < 4
    &&& {
        ||| a.kind matches ActionKind::CardPlayed(_)
        ||| a.kind matches ActionKind::Question(_)
        ||| a.kind matches ActionKind::Answer(_)
        ||| a.kind matches ActionKind::AnnounceTrump(_)
    }
}

/// Reads the game's phase (`Game::state.phase`).
#[verifier::external_body]
pub(crate) fn game_phase(g: &Game) -> (r: Phase)
    ensures
        r == phase_of(*g),
{
    phase_in(&g.state.phase)
}

/// Reads the seat of the player to act (`Game::state.player_at_turn`).
#[verifier::external_body]
pub(crate) fn game_player_at_turn(g: &Game) -> (r: u8)
    ensures
        r == seat_of(*g),
{
    g.state.player_at_turn.0
}

/// Reads the game's value, the highest bid so far (`Game::state.value`).
#[verifier::external_body]
pub(crate) fn game_value(g: &Game) -> (r: i32)
    ensures
        r == value_of(*g),
{
    g.state.value.0
}

/// Reads the four hands, by seat (`Game::state.players`, an array of four).
#[verifier::external_body]
pub(crate) fn game_hands(g: &Game) -> (r: Vec<Vec<Card>>)
    ensures
        r@ == hands_of(*g),
        r@.len() == 4,
{
    g.state.players.iter().map(|p| p.cards.iter().map(card_in).collect()).collect()
}

/// Reads the finished tricks, oldest first (`Game::state.all_tricks`).
#[verifier::external_body]
pub(crate) fn game_tricks(g: &Game) -> (r: Vec<TrickRecord>)
    ensures
        r@ == tricks_of(*g),
{
    g.state.all_tricks.iter().map(trick_in).collect()
}

/// Reads the event history, oldest first (`Game::all_events`).
#[verifier::external_body]
pub(crate) fn game_events(g: &Game) -> (r: Vec<EventRecord>)
    ensures
        r@ == events_of(*g),
{
    g.all_events.iter().map(event_in).collect()
}

/// Reads the last event of the history, if any (`Game::all_events`).
#[verifier::external_body]
pub(crate) fn game_last_event(g: &Game) -> (r: Option<EventRecord>)
    ensures
        r == last_of(events_of(*g)),
{
    g.all_events.last().map(event_in)
}

/// Reads the last finished trick, if any (`Game::state.all_tricks`).
#[verifier::external_body]
pub(crate) fn game_last_trick(g: &Game) -> (r: Option<TrickRecord>)
    ensures
        r == last_of(tricks_of(*g)),
{
    g.state.all_tricks.last().map(trick_in)
}

/// Reads the bidding history, oldest first (`Game::state.bidding_history`).
#[verifier::external_body]
pub(crate) fn game_bidding_history(g: &Game) -> (r: Vec<Action>)
    ensures
        r@ == bidding_of(*g),
{
    g.state.bidding_history.iter().map(|(k, p)| Action { kind: kind_in(k), player: p.0 }).collect()
}

/// Reads the seat to act in the kept state, if any (`Game::last_state`).
#[verifier::external_body]
pub(crate) fn game_saved_seat(g: &Game) -> (r: Option<u8>)
    ensures
        r == saved_seat_of(*g),
{
    g.last_state.as_ref().map(|s| s.player_at_turn.0)
}

/// Relies on `Game::legal_actions`: the actions the rules allow now. It
/// unwraps the saved state, the last event, indexes the players by the seat
/// to act and adds 5 to the value in the bidding, hence `ready`.
#[verifier::external_body]
pub(crate) fn game_legal_actions(g: &Game) -> (r: Vec<Action>)
    requires
        ready(*g),
    ensures
        r@ == legal_of(*g),
{
    g.legal_actions().iter().map(action_in).collect()
}

/// Relies on `Game::apply_action`: the game after `a`, or the rules' refusal,
/// which comes exactly when `a` is not among the actions the game keeps as
/// legal. The game `g` is left as it is. For the actions admitted here the
/// rules record one event for `a`, leave the value and the bidding untouched,
/// take a played card out of its player's hand (every copy of it, by
/// `Player::play_card`) and touch no other hand,
/// finish at most one trick, and reach no phase but a trick, an answer or the
/// end, so the new game is `ready` once its player has a seat. Bids, passes
/// and undo steps, whose handling can loop or unwrap, are not handed over.
/// The new game also carries the time of day, which no name here reads.
#[verifier::external_body]
pub(crate) fn game_apply(g: &Game, a: &Action) -> (r: Result<Game, GameError>)
    requires
        ready(*g),
        play_action(*a),
    ensures
        r is Ok <==> apply_ok(*g, *a),
        r matches Ok(g2) ==> {
            &&& events_of(g2) == events_of(*g).push(
                (EventRecord { action: *a, callback: callback_after(*g, *a) }),
            )
            &&& value_of(g2) == value_of(*g)
            &&& bidding_of(g2) == bidding_of(*g)
            &&& tricks_of(g2) == tricks_of(*g) || tricks_of(g2) == tricks_of(*g).push(
                tricks_of(g2).last(),
            )
            &&& seat_of(g2) == seat_after(*g, *a)
            &&& hands_of(g2).len() == hands_of(*g).len()
            &&& forall|k: int, x: Card|
                0 <= k < hands_of(*g).len() ==> #[trigger] hand_count(g2, k, x) == if played_card(*a)
                    == Some(x) && k == a.player as int {
                    0
                } else {
                    hand_count(*g, k, x)
                }
            &&& ready(g2) <==> seat_of(g2) < 4
            &&& legal_of(g2) == legal_after(*g, *a)
            &&& forall|b: Action|
                #![trigger apply_ok(g2, b)]
                #![trigger callback_after(g2, b)]
                apply_ok(g2, b) == answer_ok_after(*g, *a, b) && callback_after(g2, b)
                    == answer_callback_after(*g, *a, b)
        },
{
    g.apply_action(action_out(a))
}

/// Whether `g` is `ready`.
pub fn is_ready(g: &Game) -> (r: bool)
    ensures
        r == ready(*g),
{
    if game_player_at_turn(g) >= 4 {
        return false;
    }
    match game_phase(g) {
        Phase::PendingUndo => match game_saved_seat(g) {
            Some(seat) => seat < 4,
            None => false,
        },
        Phase::Bidding | Phase::Raising => game_value(g) <= i32::MAX - 5,
        Phase::AnsweringPair | Phase::AnsweringHalf(_) => match game_last_event(g) {
            Some(e) => matches!(e.action.kind, ActionKind::Question(_)),
            None => false,
        },
        _ => true,
    }
}

/// Whether `game_apply` may hand `a` to the rules.
pub fn is_play_action(a: &Action) -> (r: bool)
    ensures
        r == play_action(*a),
{
    a.player < 4 && matches!(
        a.kind,
        ActionKind::CardPlayed(_) | ActionKind::Question(_) | ActionKind::Answer(_)
            | ActionKind::AnnounceTrump(_)
    )
}

/// Relies on marjapussi's `cards::pairs`: the suits, in the order Green,
/// Acorns, Bells, Red, of which `cards` holds both the ober and the king.
#[verifier::external_body]
pub(crate) fn pairs_of(cards: &Vec<Card>) -> (r: Vec<Suit>)
    ensures
        r@ == pairs_in(cards@),
{
    let cards: Vec<MCard> = cards.iter().map(|c| card_out(*c)).collect();
    marjapussi::game::cards::pairs(cards).iter().map(suit_in).collect()
}

/// Relies on marjapussi's `cards::halves`: the suits, in the order Green,
/// Acorns, Bells, Red, of which `cards` holds the ober or the king.
#[verifier::external_body]
pub(crate) fn halves_of(cards: &Vec<Card>) -> (r: Vec<Suit>)
    ensures
        r@ == halves_in(cards@),
{
    let cards: Vec<MCard> = cards.iter().map(|c| card_out(*c)).collect();
    marjapussi::game::cards::halves(cards).iter().map(suit_in).collect()
}

} // verus!
