//! An agent that plays with full knowledge of the deal: it bids with the
//! bidding advisor and plays by a depth-bounded alpha-beta search.

use vstd::prelude::*;
use marjapussi::game::Game;
use crate::ai::{AgentError, MarjapussiCheater};
use crate::alpha_beta::{State, alpha_beta_search};
use crate::alpha_beta::SearchStats;
use crate::bidding::{BiddingInfos, bid_decision, next_bidding_step, partner_of, queue_for};
use crate::model::{Action, ActionKind, Phase};
use crate::bookkeeping::HISTORY_LIMIT;
use crate::rules::{
    events_of, tricks_of,
    bidding_of, game_bidding_history, game_hands, game_legal_actions, game_phase, game_player_at_turn,
    hands_of, is_ready, legal_of, phase_of, ready, seat_of,
};
use crate::search_state::{
    AlphaBetaGameState, lemma_searched_in, playable, searched_actions, useless_flags,
};

verus! {

pub struct CheaterV1 {
    pub name: String,
    pub position: u8,
    to_communicate: Vec<BiddingInfos>,
    search_depth: u32,
    /// Work done by this agent's searches: their number, the nodes they
    /// entered and scored, and the moves listed at expanded nodes, added up
    /// (saturating).
    pub searches: u64,
    pub nodes: u64,
    pub evaluations: u64,
    pub children: u64,
}

/// The actions of `actions` that are no undo requests, in their order.
pub open spec fn without_undo(actions: Seq<Action>) -> Seq<Action>
    decreases actions.len(),
{
    if actions.len() == 0 {
        seq![]
    } else if (actions.last().kind matches ActionKind::UndoRequest) {
        without_undo(actions.drop_last())
    } else {
        without_undo(actions.drop_last()).push(actions.last())
    }
}

/// The action a bid decision asks for: a new bid of `step`, or stopping at 0.
pub open spec fn wanted(kind: ActionKind, step: i32) -> bool {
    if step == 0 {
        kind matches ActionKind::StopBidding
    } else {
        kind matches ActionKind::NewBid(v) && v == step
    }
}

/// Leaves out the undo requests.
pub fn drop_undo_requests(actions: Vec<Action>) -> (r: Vec<Action>)
    ensures
        r@ == without_undo(actions@),
{
    let ghost all = actions@;
    let total: usize = actions.len();
    let mut rest = actions;
    let mut r: Vec<Action> = Vec::new();
    let mut i: usize = 0;
    while rest.len() > 0
        invariant
            total == all.len(),
            i + rest@.len() == all.len(),
            rest@ == all.skip(i as int),
            r@ == without_undo(all.take(i as int)),
        decreases rest.len(),
    {
        let a = rest.remove(0);
        proof {
            assert(all.take(i as int + 1).drop_last() =~= all.take(i as int));
            assert(all.skip(i as int + 1) =~= all.skip(i as int).remove(0));
        }
        if !matches!(a.kind, ActionKind::UndoRequest) {
            r.push(a);
        }
        i = i + 1;
    }
    proof {
        assert(all.take(i as int) =~= all);
    }
    r
}

/// The position of the first action in `legal` that carries out `step`.
pub open spec fn first_wanted(legal: Seq<Action>, step: i32) -> int {
    choose|i: int|
        0 <= i < legal.len() && wanted(legal[i].kind, step) && forall|j: int|
            0 <= j < i ==> !wanted(#[trigger] legal[j].kind, step)
}

/// The first legal action that carries out the bid decision `step`.
pub open spec fn bid_pick(legal: Seq<Action>, step: i32) -> Result<Action, AgentError> {
    if exists|i: int| 0 <= i < legal.len() && wanted(#[trigger] legal[i].kind, step) {
        Ok(legal[first_wanted(legal, step)])
    } else {
        Err(AgentError::BidNotAvailable)
    }
}

/// Picks the first legal action that carries out the bid decision `step`.
pub fn pick_bid(legal_actions: Vec<Action>, step: i32) -> (r: Result<Action, AgentError>)
    ensures
        r == bid_pick(legal_actions@, step),
{
    let mut i: usize = 0;
    while i < legal_actions.len()
        invariant
            0 <= i <= legal_actions@.len(),
            forall|j: int| 0 <= j < i ==> !wanted(#[trigger] legal_actions@[j].kind, step),
        decreases legal_actions.len() - i,
    {
        let hit = match legal_actions[i].kind {
            ActionKind::StopBidding => step == 0,
            ActionKind::NewBid(v) => step != 0 && v == step,
            _ => false,
        };
        if hit {
            proof {
                let l = legal_actions@;
                assert(wanted(l[i as int].kind, step));
                let k = first_wanted(l, step);
                assert(0 <= k < l.len() && wanted(l[k].kind, step));
                if k < i {
                    assert(!wanted(l[k].kind, step));
                } else if k > i {
                    assert(!wanted(l[i as int].kind, step));
                }
            }
            let mut legal_actions = legal_actions;
            let a = legal_actions.remove(i);
            return Ok(a);
        }
        i = i + 1;
    }
    Err(AgentError::BidNotAvailable)
}

/// What the agent's bidding yields on `game` with the queue `queued` and the
/// legal actions `legal`.
pub open spec fn bid_outcome(queued: Seq<BiddingInfos>, game: Game, legal: Seq<Action>) -> Result<Action, AgentError> {
    let seat = seat_of(game);
    let d = bid_decision(
        seat,
        hands_of(game)[seat as int]@,
        hands_of(game)[partner_of(seat) as int]@,
        bidding_of(game),
        queued,
    );
    match d.0 {
        None => Err(AgentError::UnreadableBiddingHistory),
        Some(step) => bid_pick(legal, step as i32),
    }
}

/// What is left in the queue after the agent's bidding on `game`.
pub open spec fn queue_after_bid(queued: Seq<BiddingInfos>, game: Game) -> Seq<BiddingInfos> {
    let seat = seat_of(game);
    let hand = hands_of(game)[seat as int]@;
    let d = bid_decision(seat, hand, hands_of(game)[partner_of(seat) as int]@, bidding_of(game), queued);
    queue_for(queued, bidding_of(game), hand).take(d.1 as int)
}

/// An action of `actions` that is no undo request is among what
/// `without_undo` keeps.
pub proof fn lemma_without_undo_keeps(actions: Seq<Action>, a: Action)
    requires
        actions.contains(a),
        !(a.kind matches ActionKind::UndoRequest),
    ensures
        without_undo(actions).contains(a),
    decreases actions.len(),
{
    let k = choose|k: int| 0 <= k < actions.len() && actions[k] == a;
    if k == actions.len() - 1 {
        assert(without_undo(actions).last() == a);
        assert(without_undo(actions)[without_undo(actions).len() - 1] == a);
    } else {
        assert(actions.drop_last()[k] == a);
        lemma_without_undo_keeps(actions.drop_last(), a);
        let w = without_undo(actions.drop_last());
        let j = choose|j: int| 0 <= j < w.len() && w[j] == a;
        if !(actions.last().kind matches ActionKind::UndoRequest) {
            assert(without_undo(actions)[j] == a);
        }
    }
}

/// Whether a search can be made for the seat `position` on `game`: its
/// histories can be counted, that seat's party is to act, and a move is left.
pub open spec fn search_possible(position: u8, game: Game) -> bool {
    &&& tricks_of(game).len() <= HISTORY_LIMIT
    &&& events_of(game).len() <= HISTORY_LIMIT
    &&& seat_of(game) % 2 == position % 2
    &&& searched_actions(legal_of(game), useless_flags(game)).len() > 0
}

pub open spec fn search_phase(p: Phase) -> bool {
    p == Phase::StartTrick || p == Phase::Trick || p == Phase::Raising
}

impl CheaterV1 {
    pub fn new(name: &str, position: u8, search_depth: u32) -> (r: Self)
        ensures
            r.name_view() == name@,
            r.seat() == position,
            r.search_depth() == search_depth,
            r.queued()@.len() == 0,
            r.counters() == (0u64, 0u64, 0u64, 0u64),
    {
        CheaterV1 {
            name: name.to_owned(),
            position,
            to_communicate: Vec::new(),
            search_depth,
            searches: 0,
            nodes: 0,
            evaluations: 0,
            children: 0,
        }
    }

    pub closed spec fn name_view(&self) -> Seq<char> {
        self.name@
    }

    pub closed spec fn seat(&self) -> u8 {
        self.position
    }

    /// The searches made, the nodes they entered and scored, and the moves
    /// listed at expanded nodes.
    pub closed spec fn counters(&self) -> (u64, u64, u64, u64) {
        (self.searches, self.nodes, self.evaluations, self.children)
    }

    pub closed spec fn search_depth(&self) -> u32 {
        self.search_depth
    }

    pub closed spec fn queued(&self) -> Vec<BiddingInfos> {
        self.to_communicate
    }

    /// Chooses a bid with the bidding advisor and finds it among the legal
    /// actions.
    fn bid(&mut self, game: &Game, legal_actions: Vec<Action>) -> (r: Result<Action, AgentError>)
        requires
            ready(*game),
        ensures
            r == bid_outcome(old(self).queued()@, *game, legal_actions@),
            final(self).queued()@ == queue_after_bid(old(self).queued()@, *game),
            final(self).searches == old(self).searches,
            final(self).nodes == old(self).nodes,
            final(self).evaluations == old(self).evaluations,
            final(self).children == old(self).children,
            final(self).search_depth() == old(self).search_depth(),
            final(self).seat() == old(self).seat(),
    {
        let seat = game_player_at_turn(game);
        let partner: u8 = (seat + 2) % 4;
        let history = game_bidding_history(game);
        let hands = game_hands(game);
        let step = next_bidding_step(
            seat,
            &hands[seat as usize],
            &hands[partner as usize],
            &history,
            &mut self.to_communicate,
        );
        match step {
            None => Err(AgentError::UnreadableBiddingHistory),
            Some(v) => pick_bid(legal_actions, v),
        }
    }

    /// Adds the work of one search to the agent's totals, saturating.
    fn record(&mut self, stats: &SearchStats)
        ensures
            final(self).queued() == old(self).queued(),
            final(self).seat() == old(self).seat(),
            final(self).searches >= old(self).searches,
            final(self).nodes >= old(self).nodes,
            final(self).evaluations >= old(self).evaluations,
            old(self).searches < u64::MAX ==> final(self).searches == old(self).searches + 1,
            old(self).nodes <= u64::MAX - stats.nodes ==> final(self).nodes == old(self).nodes + stats.nodes,
            old(self).evaluations <= u64::MAX - stats.evaluations
                ==> final(self).evaluations == old(self).evaluations + stats.evaluations,
    {
        self.searches = self.searches.saturating_add(1);
        self.nodes = self.nodes.saturating_add(stats.nodes);
        self.evaluations = self.evaluations.saturating_add(stats.evaluations);
        self.children = self.children.saturating_add(stats.children);
    }

    /// Plays by searching the game from here, `search_depth` plies deep.
    fn search(&mut self, game: Game) -> (r: Result<Action, AgentError>)
        requires
            ready(game),
            search_phase(phase_of(game)),
        ensures
            r is Ok <==> search_possible(old(self).seat(), game),
            r matches Ok(a) ==> without_undo(legal_of(game)).contains(a),
            r matches Err(e) ==> e == AgentError::SearchNotPossible,
            final(self).queued() == old(self).queued(),
            final(self).seat() == old(self).seat(),
    {
        let ghost g = game;
        let node = match AlphaBetaGameState::new(self.position, game) {
            Some(n) => n,
            None => {
                return Err(AgentError::SearchNotPossible);
            },
        };
        if !node.is_maximizing() || node.is_leaf() || node.moves().len() == 0 {
            return Err(AgentError::SearchNotPossible);
        }
        let result = alpha_beta_search(&node, Some(self.search_depth));
        self.record(&result.stats);
        proof {
            assert(node.moves_spec()[result.best_move as int] == result.best_move);
            let flags = useless_flags(g);
            lemma_searched_in(legal_of(g), flags);
            let a = node.moves_view()[result.best_move as int];
            assert(playable(a));
            lemma_without_undo_keeps(legal_of(g), a);
        }
        match node.take_move(result.best_move) {
            Some(a) => Ok(a),
            None => Err(AgentError::SearchNotPossible),
        }
    }
}

impl MarjapussiCheater for CheaterV1 {
    /// Chooses the action for the player at this agent's seat. With one legal
    /// action (undo requests aside) that one is taken; otherwise the advisor
    /// bids during the bidding, the search plays in the card play and the
    /// raising, and in other phases the first legal action is taken.
    fn select_action(&mut self, game: Game) -> (r: Result<Action, AgentError>)
        ensures
            !ready(game) <==> r == Err::<Action, AgentError>(AgentError::GameNotReady),
            !ready(game) || without_undo(legal_of(game)).len() <= 1 || phase_of(game) != Phase::Bidding
                ==> final(self).queued() == old(self).queued(),
            ready(game) ==> ({
                let legal = without_undo(legal_of(game));
                let phase = phase_of(game);
                &&& legal.len() == 0 <==> r == Err::<Action, AgentError>(AgentError::NoLegalActions)
                &&& legal.len() == 1 ==> r == Ok::<Action, AgentError>(legal[0])
                &&& legal.len() >= 2 && phase == Phase::Bidding ==> r == bid_outcome(
                    old(self).queued()@,
                    game,
                    legal,
                ) && final(self).queued()@ == queue_after_bid(old(self).queued()@, game)
                &&& legal.len() >= 2 && search_phase(phase) ==> {
                    &&& r is Ok <==> search_possible(old(self).seat(), game)
                    &&& r matches Ok(a) ==> legal.contains(a)
                    &&& r matches Err(e) ==> e == AgentError::SearchNotPossible
                }
                &&& legal.len() >= 2 && phase != Phase::Bidding && !search_phase(phase) ==> r
                    == Ok::<Action, AgentError>(legal[0])
            }),
    {
        if !is_ready(&game) {
            return Err(AgentError::GameNotReady);
        }
        let mut legal_actions = drop_undo_requests(game_legal_actions(&game));
        if legal_actions.len() == 0 {
            return Err(AgentError::NoLegalActions);
        }
        if legal_actions.len() == 1 {
            return Ok(legal_actions.remove(0));
        }
        match game_phase(&game) {
            Phase::Bidding => self.bid(&game, legal_actions),
            Phase::StartTrick | Phase::Trick | Phase::Raising => {
                self.search(game)
            },
            _ => Ok(legal_actions.remove(0)),
        }
    }
}

} // verus!
