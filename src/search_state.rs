//! The search node for a Marjapussi deal: a snapshot of the game, the moves
//! worth searching from it, and the bookkeeping the evaluation reads.

use vstd::prelude::*;
use marjapussi::game::Game;
use crate::alpha_beta::State;
use crate::bookkeeping::{
    HISTORY_LIMIT, advance_tally, advanced, cards_in_hands, copy_cards, count_tally, describes,
    join_hands, points_after, position_of, tricks_after, within_limits,
};
use crate::evaluation::{Tally, evaluate_tally, evaluation_of, tally_wf};
use crate::model::{Action, ActionKind, Answer, Callback, Card, EventRecord, Phase, TrickRecord};
use crate::rules::{
    answer_callback_after, answer_ok_after, apply_ok, callback_after, events_of, game_apply,
    game_events, game_hands, game_last_event, game_last_trick, game_legal_actions, game_phase,
    game_player_at_turn, game_tricks, game_value, hands_of, is_play_action, is_ready, last_of,
    legal_after, legal_of, phase_of, play_action, ready, seat_after, seat_of, tricks_of, value_of,
    hand_count, played_card,
};
use crate::bookkeeping::{lemma_advance_matches_recount, tricks_then};

verus! {

/// Whether the answer event `e` establishes a new trump: an announced pair or
/// half on which the rules report a new trump.
pub open spec fn sets_trump(e: EventRecord) -> bool {
    &&& (e.action.kind matches ActionKind::Answer(Answer::YesPair(_))
        || e.action.kind matches ActionKind::Answer(Answer::YesHalf(_)))
    &&& e.callback matches Some(Callback::NewTrump(_))
}

/// A question is useless when it leaves the responder exactly one answer and
/// that answer does not establish a new trump. `forced` is the event the one
/// answer produces (`None` where it could not be played out).
pub open spec fn useless(answer_count: nat, forced: Option<EventRecord>) -> bool {
    answer_count == 1 && (forced matches Some(e) && !sets_trump(e))
}

/// Decides whether a question can be left out of the search: the responder has
/// `answer_count` legal answers and, where there is one, it produces `forced`.
pub fn question_is_useless(answer_count: usize, forced: &Option<EventRecord>) -> (r: bool)
    ensures
        r == useless(answer_count as nat, *forced),
        answer_count > 1 ==> !r,
{
    if answer_count != 1 {
        return false;
    }
    match forced {
        None => false,
        Some(e) => {
            let yes_pair = matches!(e.action.kind, ActionKind::Answer(Answer::YesPair(_)));
            let yes_half = matches!(e.action.kind, ActionKind::Answer(Answer::YesHalf(_)));
            let new_trump = matches!(e.callback, Some(Callback::NewTrump(_)));
            !((yes_pair || yes_half) && new_trump)
        },
    }
}

/// Whether the search considers an action: undo requests and bids are never
/// searched, nor are useless questions.
pub open spec fn searched(kind: ActionKind, useless_question: bool) -> bool {
    !(kind matches ActionKind::UndoRequest) && !(kind matches ActionKind::NewBid(_)) && !useless_question
}

/// The actions of `actions` that the search considers, in their order;
/// `flags[i]` tells whether `actions[i]` is a useless question.
pub open spec fn searched_actions(actions: Seq<Action>, flags: Seq<bool>) -> Seq<Action>
    decreases actions.len(),
{
    if actions.len() == 0 {
        seq![]
    } else {
        let rest = searched_actions(actions.drop_last(), flags.take(actions.len() - 1));
        if searched(actions.last().kind, flags[actions.len() - 1]) {
            rest.push(actions.last())
        } else {
            rest
        }
    }
}

/// No undo request and no bid is ever searched.
pub open spec fn playable(a: Action) -> bool {
    !(a.kind matches ActionKind::UndoRequest) && !(a.kind matches ActionKind::NewBid(_))
}

proof fn lemma_searched_actions_playable(actions: Seq<Action>, flags: Seq<bool>)
    requires
        flags.len() == actions.len(),
    ensures
        forall|i: int|
            0 <= i < searched_actions(actions, flags).len() ==> playable(
                #[trigger] searched_actions(actions, flags)[i],
            ),
    decreases actions.len(),
{
    if actions.len() > 0 {
        let rest = searched_actions(actions.drop_last(), flags.take(actions.len() - 1));
        lemma_searched_actions_playable(actions.drop_last(), flags.take(actions.len() - 1));
        let all = searched_actions(actions, flags);
        assert forall|i: int| 0 <= i < all.len() implies playable(#[trigger] all[i]) by {
            if i < rest.len() {
                assert(all[i] == rest[i]);
            }
        }
    }
}

/// The filter only keeps actions, it invents none.
pub proof fn lemma_searched_in(actions: Seq<Action>, flags: Seq<bool>)
    requires
        flags.len() == actions.len(),
    ensures
        forall|i: int|
            0 <= i < searched_actions(actions, flags).len() ==> actions.contains(
                #[trigger] searched_actions(actions, flags)[i],
            ),
    decreases actions.len(),
{
    if actions.len() > 0 {
        let rest = searched_actions(actions.drop_last(), flags.take(actions.len() - 1));
        lemma_searched_in(actions.drop_last(), flags.take(actions.len() - 1));
        let all = searched_actions(actions, flags);
        assert forall|i: int| 0 <= i < all.len() implies actions.contains(#[trigger] all[i]) by {
            if i < rest.len() {
                assert(all[i] == rest[i]);
                let k = choose|k: int| 0 <= k < actions.drop_last().len() && actions.drop_last()[k] == rest[i];
                assert(actions[k] == rest[i]);
            } else {
                assert(all[i] == actions[actions.len() - 1]);
            }
        }
    }
}

/// Keeps the actions that the search considers, in their order.
pub fn filter_actions(actions: Vec<Action>, flags: &Vec<bool>) -> (r: Vec<Action>)
    requires
        flags@.len() == actions@.len(),
    ensures
        r@ == searched_actions(actions@, flags@),
{
    let ghost all = actions@;
    let total: usize = actions.len();
    let mut rest = actions;
    let mut r: Vec<Action> = Vec::new();
    let mut i: usize = 0;
    while rest.len() > 0
        invariant
            flags@.len() == all.len(),
            total == all.len(),
            i + rest@.len() == all.len(),
            rest@ == all.skip(i as int),
            r@ == searched_actions(all.take(i as int), flags@.take(i as int)),
        decreases rest.len(),
    {
        let a = rest.remove(0);
        proof {
            assert(all.take(i as int + 1).drop_last() =~= all.take(i as int));
            assert(flags@.take(i as int + 1).take(i as int) =~= flags@.take(i as int));
            assert(all.skip(i as int + 1) =~= all.skip(i as int).remove(0));
        }
        if !matches!(a.kind, ActionKind::UndoRequest) && !matches!(a.kind, ActionKind::NewBid(_))
            && !flags[i] {
            r.push(a);
        }
        i = i + 1;
    }
    proof {
        assert(all.take(i as int) =~= all);
        assert(flags@.take(i as int) =~= flags@);
    }
    r
}

/// Phases in which a search may start: cards are being played, or the
/// trump-defining exchanges are under way.
pub open spec fn searchable_phase(p: Phase) -> bool {
    !(p matches Phase::WaitingForStart) && !(p matches Phase::Bidding)
        && !(p matches Phase::PassingForth) && !(p matches Phase::PassingBack)
        && !(p matches Phase::Ended)
}

/// Whether a search may start in phase `p`.
pub fn is_searchable_phase(p: Phase) -> (r: bool)
    ensures
        r == searchable_phase(p),
{
    match p {
        Phase::WaitingForStart | Phase::Bidding | Phase::PassingForth | Phase::PassingBack
        | Phase::Ended => false,
        _ => true,
    }
}

/// The position in `s` of the first card equal to `c`.
pub open spec fn first_index(s: Seq<Card>, c: Card) -> int {
    choose|i: int| 0 <= i < s.len() && s[i] == c && forall|j: int| 0 <= j < i ==> s[j] != c
}

proof fn lemma_first_index_exists(s: Seq<Card>, c: Card, k: int)
    requires
        0 <= k < s.len(),
        s[k] == c,
    ensures
        0 <= first_index(s, c) < s.len(),
        s[first_index(s, c)] == c,
    decreases k,
{
    if exists|j: int| 0 <= j < k && s[j] == c {
        let j = choose|j: int| 0 <= j < k && s[j] == c;
        lemma_first_index_exists(s, c, j);
    } else {
        assert(0 <= k < s.len() && s[k] == c && forall|j: int| 0 <= j < k ==> s[j] != c);
    }
}

proof fn lemma_first_index(s: Seq<Card>, c: Card, i: int)
    requires
        0 <= i < s.len(),
        s[i] == c,
        forall|j: int| 0 <= j < i ==> s[j] != c,
    ensures
        first_index(s, c) == i,
{
    let k = first_index(s, c);
    assert(0 <= k < s.len() && s[k] == c && forall|j: int| 0 <= j < k ==> s[j] != c);
    if k < i {
        assert(s[k] != c);
    } else if k > i {
        assert(s[i] != c);
    }
}

/// The pool of unplayed cards after the event `e`: a played card leaves it
/// (its first copy); `None` where the card was not in it.
pub open spec fn pool_after(pool: Seq<Card>, e: EventRecord) -> Option<Seq<Card>> {
    match e.action.kind {
        ActionKind::CardPlayed(c) => if pool.contains(c) {
            Some(pool.remove(first_index(pool, c)))
        } else {
            None
        },
        _ => Some(pool),
    }
}

/// Phases that follow the last card of a trick.
pub open spec fn finishing(p: Phase) -> bool {
    p == Phase::StartTrick || p == Phase::Ended
}

/// The trick a step finished: the last trick in a finishing phase, none
/// otherwise; `None` where a finishing phase shows no trick.
pub open spec fn trick_after(phase: Phase, last_trick: Option<TrickRecord>) -> Option<Option<TrickRecord>> {
    if finishing(phase) {
        match last_trick {
            Some(t) => Some(Some(t)),
            None => None,
        }
    } else {
        Some(None)
    }
}

/// Whether the bookkeeping cannot follow a step: no event, a played card not
/// in the pool, a finishing phase without a trick, or a count past its limit.
pub open spec fn step_fails(
    pool: Seq<Card>,
    t: Tally,
    last: Option<EventRecord>,
    phase: Phase,
    last_trick: Option<TrickRecord>,
) -> bool {
    match (last, trick_after(phase, last_trick)) {
        (Some(e), Some(trick)) => pool_after(pool, e) is None || !(within_limits(
            points_after(t, e, trick, phase == Phase::Ended, 0),
            tricks_after(t, trick, 0),
        ) && within_limits(
            points_after(t, e, trick, phase == Phase::Ended, 1),
            tricks_after(t, trick, 1),
        )),
        _ => true,
    }
}

/// `pool2` and `t2` are `pool` and `t` after the step that produced the event
/// `last` and left the game in `phase` with `last_trick` as its last trick.
pub open spec fn stepped(
    pool: Seq<Card>,
    t: Tally,
    last: Option<EventRecord>,
    phase: Phase,
    last_trick: Option<TrickRecord>,
    pool2: Seq<Card>,
    t2: Tally,
) -> bool {
    &&& last matches Some(e)
    &&& pool_after(pool, e) == Some(pool2)
    &&& trick_after(phase, last_trick) matches Some(trick)
    &&& advanced(t, e, trick, phase == Phase::Ended, t2)
}

/// Updates the pool of unplayed cards and the tally by one step of play: the
/// step's event `last`, the phase it left and the last finished trick.
pub fn advance_bookkeeping(
    pool: &Vec<Card>,
    t: &Tally,
    last: Option<EventRecord>,
    phase: Phase,
    last_trick: Option<TrickRecord>,
) -> (r: Option<(Vec<Card>, Tally)>)
    requires
        tally_wf(*t),
    ensures
        r is None <==> step_fails(pool@, *t, last, phase, last_trick),
        r matches Some(x) ==> stepped(pool@, *t, last, phase, last_trick, x.0@, x.1) && tally_wf(x.1),
{
    let e = match last {
        Some(e) => e,
        None => {
            return None;
        },
    };
    let mut pool2 = copy_cards(pool);
    if let ActionKind::CardPlayed(c) = e.action.kind {
        match position_of(&pool2, c) {
            Some(i) => {
                proof {
                    lemma_first_index(pool@, c, i as int);
                }
                pool2.remove(i);
            },
            None => {
                return None;
            },
        }
    }
    let ended = phase == Phase::Ended;
    let trick = if ended || phase == Phase::StartTrick {
        match last_trick {
            Some(tr) => Some(tr),
            None => {
                return None;
            },
        }
    } else {
        None
    };
    match advance_tally(t, &e, trick, ended) {
        Some(n) => Some((pool2, n)),
        None => None,
    }
}

/// Whether `a`, taken in `g`, is a useless question: a question the rules
/// accept, after which the responder (seated) has exactly one legal answer,
/// which the rules accept and which establishes no new trump.
pub open spec fn useless_of(g: Game, a: Action) -> bool {
    &&& a.kind matches ActionKind::Question(_)
    &&& play_action(a)
    &&& apply_ok(g, a)
    &&& seat_after(g, a) < 4
    &&& legal_after(g, a).len() == 1
    &&& play_action(legal_after(g, a)[0])
    &&& answer_ok_after(g, a, legal_after(g, a)[0])
    &&& !sets_trump(
        (EventRecord {
            action: legal_after(g, a)[0],
            callback: answer_callback_after(g, a, legal_after(g, a)[0]),
        }),
    )
}

/// For each legal action of `g`, whether it is a useless question.
pub open spec fn useless_flags(g: Game) -> Seq<bool> {
    Seq::new(legal_of(g).len(), |i: int| useless_of(g, legal_of(g)[i]))
}

/// The moves a node searches: the legal actions of its game but undo
/// requests, bids and useless questions, in the rules' order.
pub open spec fn searched_from(moves: Seq<Action>, g: Game) -> bool {
    &&& moves == searched_actions(legal_of(g), useless_flags(g))
    &&& forall|i: int| 0 <= i < moves.len() ==> playable(#[trigger] moves[i])
}

/// How many copies of `x` the four hands of `g` hold together.
pub open spec fn total_count(g: Game, x: Card) -> nat {
    hand_count(g, 0, x) + hand_count(g, 1, x) + hand_count(g, 2, x) + hand_count(g, 3, x)
}

/// The pool holds, card by card, what the four hands of `g` hold.
pub open spec fn pool_matches(pool: Seq<Card>, g: Game) -> bool {
    &&& hands_of(g).len() == 4
    &&& forall|x: Card| #[trigger] pool.to_multiset().count(x) == total_count(g, x)
}

proof fn lemma_pool_of_hands(hands: Seq<Vec<Card>>)
    requires
        hands.len() == 4,
    ensures
        forall|x: Card|
            #[trigger] cards_in_hands(hands).to_multiset().count(x) == hands[0]@.to_multiset().count(x)
                + hands[1]@.to_multiset().count(x) + hands[2]@.to_multiset().count(x)
                + hands[3]@.to_multiset().count(x),
{
    let h1 = hands.drop_last();
    let h2 = h1.drop_last();
    let h3 = h2.drop_last();
    let h4 = h3.drop_last();
    assert(h4.len() == 0);
    assert(cards_in_hands(h4) =~= seq![]);
    assert(cards_in_hands(h3) == cards_in_hands(h4) + hands[0]@);
    assert(cards_in_hands(h3) =~= hands[0]@);
    assert(cards_in_hands(h2) == cards_in_hands(h3) + hands[1]@);
    assert(cards_in_hands(h1) == cards_in_hands(h2) + hands[2]@);
    assert(cards_in_hands(hands) == cards_in_hands(h1) + hands[3]@);
    vstd::seq_lib::lemma_multiset_commutative(hands[0]@, hands[1]@);
    vstd::seq_lib::lemma_multiset_commutative(hands[0]@ + hands[1]@, hands[2]@);
    vstd::seq_lib::lemma_multiset_commutative(hands[0]@ + hands[1]@ + hands[2]@, hands[3]@);
}

/// Number of copies of `c` in `cards`.
fn count_card(cards: &Vec<Card>, c: Card) -> (r: usize)
    ensures
        r == cards@.to_multiset().count(c),
{
    let mut n: usize = 0;
    let mut i: usize = 0;
    proof {
        cards@.take(0).to_multiset_ensures();
        assert(!cards@.take(0).contains(c));
    }
    while i < cards.len()
        invariant
            0 <= i <= cards@.len(),
            n <= i,
            n == cards@.take(i as int).to_multiset().count(c),
        decreases cards.len() - i,
    {
        proof {
            assert(cards@.take(i as int + 1) =~= cards@.take(i as int).push(cards@[i as int]));
            vstd::seq_lib::to_multiset_build(cards@.take(i as int), cards@[i as int]);
        }
        if cards[i] == c {
            n = n + 1;
        }
        i = i + 1;
    }
    proof {
        assert(cards@.take(i as int) =~= cards@);
    }
    n
}

/// A node of the search over a Marjapussi deal, seen from the seat
/// `owning_player`: it is the maximising player's node whenever a player of
/// that seat's party is to act.
pub struct AlphaBetaGameState {
    owning_player: u8,
    game: Game,
    moves: Vec<Action>,
    phase: Phase,
    player_at_turn: u8,
    value: i32,
    remaining_cards: Vec<Card>,
    tally: Tally,
    tricks_seen: usize,
}

impl AlphaBetaGameState {
    #[verifier::type_invariant]
    spec fn wf(&self) -> bool {
        &&& tally_wf(self.tally)
        &&& ready(self.game)
        &&& self.value == value_of(self.game)
        &&& self.tricks_seen == tricks_of(self.game).len()
        &&& describes(self.tally, tricks_of(self.game), events_of(self.game), self.value)
        &&& pool_matches(self.remaining_cards@, self.game)
        &&& self.phase == phase_of(self.game)
        &&& self.player_at_turn == seat_of(self.game)
        &&& searched_from(self.moves@, self.game)
    }

    pub closed spec fn owner(&self) -> u8 {
        self.owning_player
    }

    pub closed spec fn game_view(&self) -> Game {
        self.game
    }

    pub closed spec fn moves_view(&self) -> Seq<Action> {
        self.moves@
    }

    pub closed spec fn phase_view(&self) -> Phase {
        self.phase
    }

    pub closed spec fn player_view(&self) -> u8 {
        self.player_at_turn
    }

    pub closed spec fn value_view(&self) -> i32 {
        self.value
    }

    pub closed spec fn tally_view(&self) -> Tally {
        self.tally
    }

    pub closed spec fn remaining_view(&self) -> Seq<Card> {
        self.remaining_cards@
    }

    /// Builds the root node of a search from `game`, for the seat
    /// `owning_player`: the pool of unplayed cards and the tally are counted
    /// from the game's hands and histories. Only a game in the card play or
    /// the raising can be searched. Fails (`None`) on a game the rules cannot
    /// list actions for, and on a history too long to count.
    pub fn new(owning_player: u8, game: Game) -> (r: Option<Self>)
        requires
            searchable_phase(phase_of(game)),
        ensures
            r is Some <==> ready(game) && tricks_of(game).len() <= HISTORY_LIMIT
                && events_of(game).len() <= HISTORY_LIMIT,
            r matches Some(n) ==> {
                &&& n.owner() == owning_player
                &&& n.game_view() == game
                &&& n.phase_view() == phase_of(game)
                &&& n.player_view() == seat_of(game)
                &&& n.value_view() == value_of(game)
                &&& n.remaining_view() == cards_in_hands(hands_of(game))
                &&& describes(n.tally_view(), tricks_of(game), events_of(game), value_of(game))
                &&& searched_from(n.moves_view(), game)
            },
    {
        let phase = game_phase(&game);
        if !is_ready(&game) {
            return None;
        }
        let hands = game_hands(&game);
        let tricks = game_tricks(&game);
        let events = game_events(&game);
        let value = game_value(&game);
        let tally = match count_tally(&tricks, &events, value) {
            Some(t) => t,
            None => {
                return None;
            },
        };
        let remaining_cards = join_hands(&hands);
        proof {
            lemma_pool_of_hands(hands@);
        }
        let player_at_turn = game_player_at_turn(&game);
        let moves = searchable_moves(&game);
        let tricks_seen = tricks.len();
        Some(AlphaBetaGameState {
            owning_player,
            game,
            moves,
            phase,
            player_at_turn,
            value,
            remaining_cards,
            tally,
            tricks_seen,
        })
    }

    /// The game this node stands for.
    pub fn game(&self) -> (r: &Game)
        ensures
            *r == self.game_view(),
    {
        &self.game
    }

    /// The points and tricks of each party, and the playing party.
    pub fn tally(&self) -> (r: Tally)
        ensures
            r == self.tally_view(),
    {
        self.tally
    }

    /// The cards not yet played.
    pub fn remaining_cards(&self) -> (r: &Vec<Card>)
        ensures
            r@ == self.remaining_view(),
    {
        &self.remaining_cards
    }

    /// The searched moves, by number.
    pub fn moves(&self) -> (r: &Vec<Action>)
        ensures
            r@ == self.moves_view(),
    {
        &self.moves
    }

    /// Takes the move numbered `i` out of the node.
    pub fn take_move(self, i: usize) -> (r: Option<Action>)
        ensures
            r is Some <==> i < self.moves_view().len(),
            r matches Some(a) ==> a == self.moves_view()[i as int],
    {
        let mut moves = self.moves;
        if i < moves.len() {
            Some(moves.remove(i))
        } else {
            None
        }
    }

    /// The node after `game`, the game of this node after the action `m`:
    /// its bookkeeping is this node's advanced by the last event and trick of
    /// `game`. Fails (`None`) where `advance_bookkeeping` fails, on a game the
    /// rules cannot list actions for, and where the tricks do not follow the
    /// step as a deal does (one more trick exactly in a finishing phase, at
    /// most nine, the end exactly at the ninth).
    fn successor(&self, game: Game, m: Ghost<Action>) -> (r: Option<Self>)
        requires
            play_action(m@),
            events_of(game) == events_of(self.game_view()).push(
                (EventRecord { action: m@, callback: callback_after(self.game_view(), m@) }),
            ),
            value_of(game) == value_of(self.game_view()),
            tricks_of(game) == tricks_of(self.game_view()) || tricks_of(game) == tricks_of(
                self.game_view(),
            ).push(tricks_of(game).last()),
            hands_of(game).len() == hands_of(self.game_view()).len(),
            forall|k: int, x: Card|
                0 <= k < hands_of(self.game_view()).len() ==> #[trigger] hand_count(game, k, x) == if played_card(m@)
                    == Some(x) && k == m@.player as int {
                    0
                } else {
                    hand_count(self.game_view(), k, x)
                },
        ensures
            r matches Some(n) ==> self.child_of(n) && n.game_view() == game,
    {
        proof {
            use_type_invariant(self);
        }
        if !is_ready(&game) {
            return None;
        }
        let last = game_last_event(&game);
        if let Some(e) = &last {
            if let ActionKind::CardPlayed(c) = e.action.kind {
                // The rules take every copy of the card from the hand, the pool
                // one: they agree only on a card held once.
                let hands = game_hands(&self.game);
                if count_card(&hands[e.action.player as usize], c) != 1 {
                    return None;
                }
            }
        }
        let phase = game_phase(&game);
        let last_trick = game_last_trick(&game);
        let tricks_seen = game_tricks(&game).len();
        let finishing_phase = phase == Phase::Ended || phase == Phase::StartTrick;
        if tricks_seen > 9 || (phase == Phase::Ended) != (tricks_seen == 9) {
            return None;
        }
        if finishing_phase {
            if self.tricks_seen >= 9 || tricks_seen != self.tricks_seen + 1 {
                return None;
            }
        } else if tricks_seen != self.tricks_seen {
            return None;
        }
        let (remaining_cards, tally) = match advance_bookkeeping(
            &self.remaining_cards,
            &self.tally,
            last,
            phase,
            last_trick,
        ) {
            Some(x) => x,
            None => {
                return None;
            },
        };
        proof {
            let ts = tricks_of(self.game);
            let ts2 = tricks_of(game);
            let e = EventRecord { action: m@, callback: callback_after(self.game, m@) };
            let trick: Option<TrickRecord> = if finishing_phase { Some(ts2.last()) } else { None };
            assert(last_of(events_of(game)) == Some(e));
            if finishing_phase {
                assert(ts2.len() == ts.len() + 1);
                assert(ts2 == ts.push(ts2.last()));
                assert(last_of(ts2) == Some(ts2.last()));
            } else {
                assert(ts2.len() == ts.len());
                assert(ts2 == ts);
            }
            assert(tricks_then(ts, trick) == ts2);
            let pool = self.remaining_cards@;
            let pool2 = remaining_cards@;
            assert forall|x: Card| #[trigger] pool2.to_multiset().count(x) == total_count(game, x) by {
                match played_card(m@) {
                    Some(c) => {
                        assert(pool.contains(c));
                        let k = choose|k: int| 0 <= k < pool.len() && pool[k] == c;
                        lemma_first_index_exists(pool, c, k);
                        let i = first_index(pool, c);
                        vstd::seq_lib::to_multiset_remove(pool, i);
                        assert(pool2 == pool.remove(i));
                        assert(pool[i] == c);
                        assert(hand_count(self.game, m@.player as int, c) == 1);
                    },
                    None => {
                        assert(pool2 == pool);
                    },
                }
            }
            lemma_advance_matches_recount(
                self.tally,
                ts,
                events_of(self.game),
                self.value,
                e,
                trick,
                phase == Phase::Ended,
                tally,
            );
        }
        let moves = searchable_moves(&game);
        let player_at_turn = game_player_at_turn(&game);
        Some(AlphaBetaGameState {
            owning_player: self.owning_player,
            game,
            moves,
            phase,
            player_at_turn,
            value: self.value,
            remaining_cards,
            tally,
            tricks_seen,
        })
    }

    /// `n` follows this node by one step of play in the game of `n`; its
    /// bookkeeping is this node's advanced by that step, and equals a recount
    /// of its game (points, tricks and, card by card, the unplayed cards).
    pub open spec fn child_of(&self, n: Self) -> bool {
        let g = n.game_view();
        &&& n.owner() == self.owner()
        &&& n.value_view() == self.value_view()
        &&& n.tally_view().playing_party == self.tally_view().playing_party
        &&& n.phase_view() == phase_of(g)
        &&& n.player_view() == seat_of(g)
        &&& ready(g)
        &&& searched_from(n.moves_view(), g)
        &&& describes(n.tally_view(), tricks_of(g), events_of(g), value_of(g))
        &&& pool_matches(n.remaining_view(), g)
        &&& stepped(
            self.remaining_view(),
            self.tally_view(),
            last_of(events_of(g)),
            phase_of(g),
            last_of(tricks_of(g)),
            n.remaining_view(),
            n.tally_view(),
        )
    }
}

/// Whether `action`, taken in `game`, is a useless question: it is a question,
/// the responder then has one legal answer, and that answer establishes no new
/// trump. A question the rules refuse is kept.
fn is_useless_question(game: &Game, action: &Action) -> (r: bool)
    requires
        ready(*game),
    ensures
        r == useless_of(*game, *action),
{
    if !matches!(action.kind, ActionKind::Question(_)) || !is_play_action(action) {
        return false;
    }
    let after_question = match game_apply(game, action) {
        Ok(g) => g,
        Err(_) => {
            return false;
        },
    };
    let ghost g2 = after_question;
    if !is_ready(&after_question) {
        return false;
    }
    let answers = game_legal_actions(&after_question);
    let forced: Option<EventRecord> = if answers.len() == 1 && is_play_action(&answers[0]) {
        match game_apply(&after_question, &answers[0]) {
            Ok(g) => game_last_event(&g),
            Err(_) => None,
        }
    } else {
        None
    };
    proof {
        if answers@.len() == 1 && play_action(answers@[0]) {
            let b = answers@[0];
            assert(apply_ok(g2, b) == answer_ok_after(*game, *action, b));
            assert(callback_after(g2, b) == answer_callback_after(*game, *action, b));
        }
    }
    question_is_useless(answers.len(), &forced)
}

/// The legal actions in `game` that the search considers, in the rules' order.
fn searchable_moves(game: &Game) -> (r: Vec<Action>)
    requires
        ready(*game),
    ensures
        searched_from(r@, *game),
{
    let actions = game_legal_actions(game);
    let mut flags: Vec<bool> = Vec::new();
    let mut i: usize = 0;
    while i < actions.len()
        invariant
            ready(*game),
            actions@ == legal_of(*game),
            0 <= i <= actions@.len(),
            flags@.len() == i,
            forall|j: int| 0 <= j < i ==> flags@[j] == useless_of(*game, actions@[j]),
        decreases actions.len() - i,
    {
        let flag = is_useless_question(game, &actions[i]);
        flags.push(flag);
        i = i + 1;
    }
    proof {
        lemma_searched_actions_playable(actions@, flags@);
    }
    let r = filter_actions(actions, &flags);
    proof {
        assert(flags@ =~= useless_flags(*game));
    }
    r
}

impl State<usize> for AlphaBetaGameState {
    open spec fn moves_spec(&self) -> Seq<usize> {
        Seq::new(self.moves_view().len(), |i: int| i as usize)
    }

    /// Successors come from the rule engine, whose results carry the time of
    /// day; no spec function describes them (see `modelled`). What holds of a
    /// successor is stated on `apply_move` itself.
    open spec fn child_spec(&self, m: usize) -> Option<Self> {
        None
    }

    open spec fn leaf_spec(&self) -> bool {
        self.phase_view() == Phase::Ended
    }

    open spec fn maximizing_spec(&self) -> bool {
        self.player_view() % 2 == self.owner() % 2
    }

    open spec fn value_spec(&self) -> i32 {
        evaluation_of(self.tally_view(), self.owner(), self.value_view()) as i32
    }

    open spec fn modelled(&self) -> bool {
        false
    }

    fn legal_moves(&self) -> (r: Vec<usize>) {
        let n = self.moves.len();
        let mut r: Vec<usize> = Vec::new();
        let mut i: usize = 0;
        while i < n
            invariant
                n == self.moves_view().len(),
                0 <= i <= n,
                r@ == Seq::new(i as nat, |k: int| k as usize),
            decreases n - i,
        {
            r.push(i);
            proof {
                assert(r@ =~= Seq::new((i + 1) as nat, |k: int| k as usize));
            }
            i = i + 1;
        }
        r
    }

    /// Applies the searched move numbered `next_move` to the game and follows
    /// the bookkeeping. Fails (`None`) on a number out of range, on a move the
    /// rules refuse or that `game_apply` does not hand over, and where the
    /// successor fails.
    fn apply_move(&self, next_move: &usize) -> (r: Option<Self>)
        ensures
            *next_move >= self.moves_view().len() ==> r is None,
            *next_move < self.moves_view().len() ==> ({
                let m = self.moves_view()[*next_move as int];
                &&& !play_action(m) || !apply_ok(self.game_view(), m) ==> r is None
                &&& r matches Some(n) ==> {
                    &&& self.child_of(n)
                    &&& events_of(n.game_view()) == events_of(self.game_view()).push(
                        (EventRecord { action: m, callback: callback_after(self.game_view(), m) }),
                    )
                }
            }),
    {
        proof {
            use_type_invariant(self);
        }
        if *next_move >= self.moves.len() {
            return None;
        }
        if !is_play_action(&self.moves[*next_move]) {
            return None;
        }
        let ghost m = self.moves@[*next_move as int];
        match game_apply(&self.game, &self.moves[*next_move]) {
            Ok(g) => self.successor(g, Ghost(m)),
            Err(_) => None,
        }
    }

    fn is_leaf(&self) -> (r: bool) {
        self.phase == Phase::Ended
    }

    fn is_maximizing(&self) -> (r: bool) {
        self.player_at_turn % 2 == self.owning_player % 2
    }

    fn evaluate(&self) -> (r: i32) {
        proof {
            use_type_invariant(self);
        }
        evaluate_tally(&self.tally, self.owning_player, self.value)
    }
}

} // verus!
