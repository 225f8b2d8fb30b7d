//! Game-agnostic minimax search with alpha-beta pruning.
//!
//! On every state the search returns one of the legal moves. On a state
//! whose successors a spec function describes (`modelled`), it is proved to
//! return exactly the depth-bounded minimax value (`minimax`) and the first
//! move that reaches it: pruning never changes the outcome, it only skips
//! work.

use vstd::prelude::*;

verus! {

/// A node of a game tree, as seen by the search.
///
/// The spec functions describe the tree; the exec methods must agree with them.
pub trait State<M>: Sized {
    /// The moves available at this node, in the order the search tries them.
    spec fn moves_spec(&self) -> Seq<M>;

    /// The node reached by a move, or `None` where the move cannot be applied.
    spec fn child_spec(&self, m: M) -> Option<Self>;

    /// Whether the game has ended at this node.
    spec fn leaf_spec(&self) -> bool;

    /// Whether the player to act is the one whose score is maximised.
    spec fn maximizing_spec(&self) -> bool;

    /// The score of this node, from the maximising player's point of view.
    spec fn value_spec(&self) -> i32;

    /// Whether `apply_move` is described by `child_spec`, here and below.
    /// A node whose successors come from outside code that no spec function
    /// describes is not modelled; the search still works on it, but its
    /// result is only known to be one of the legal moves.
    spec fn modelled(&self) -> bool;

    fn legal_moves(&self) -> (r: Vec<M>)
        requires
            !self.leaf_spec(),
        ensures
            r@ == self.moves_spec(),
    ;

    fn apply_move(&self, next_move: &M) -> (r: Option<Self>)
        requires
            !self.leaf_spec(),
            self.moves_spec().contains(*next_move),
        ensures
            self.modelled() ==> r == self.child_spec(*next_move),
            self.modelled() ==> (r matches Some(c) ==> c.modelled()),
    ;

    fn is_leaf(&self) -> (r: bool)
        ensures
            r == self.leaf_spec(),
    ;

    fn is_maximizing(&self) -> (r: bool)
        ensures
            r == self.maximizing_spec(),
    ;

    fn evaluate(&self) -> (r: i32)
        ensures
            r == self.value_spec(),
    ;
}

pub open spec fn max_int(a: int, b: int) -> int {
    if a >= b { a } else { b }
}

pub open spec fn min_int(a: int, b: int) -> int {
    if a <= b { a } else { b }
}

/// Minimax value of `s`, looking at most `depth` plies ahead: a leaf, or a node
/// at the depth bound, is scored by its own value.
pub open spec fn minimax<M, S: State<M>>(s: S, depth: nat) -> int
    decreases depth + 1, 0nat,
{
    if s.leaf_spec() || depth == 0 {
        s.value_spec() as int
    } else {
        best_of(s, s.moves_spec(), depth)
    }
}

/// Best value for the player to act at `s` over the moves `ms`, each child
/// searched to `depth - 1` plies; moves that cannot be applied are skipped.
/// With no applicable move it is the worst value for that player.
pub open spec fn best_of<M, S: State<M>>(s: S, ms: Seq<M>, depth: nat) -> int
    decreases depth, ms.len(),
{
    if ms.len() == 0 || depth == 0 {
        if s.maximizing_spec() { i32::MIN as int } else { i32::MAX as int }
    } else {
        let rest = best_of(s, ms.drop_last(), depth);
        match s.child_spec(ms.last()) {
            None => rest,
            Some(c) => {
                let v = minimax(c, (depth - 1) as nat);
                if s.maximizing_spec() { max_int(rest, v) } else { min_int(rest, v) }
            },
        }
    }
}

/// What fail-soft alpha-beta guarantees of a result `r` for the true value `v`
/// searched in the window (`alpha`, `beta`): a result at or below `alpha` is an
/// upper bound, one at or above `beta` a lower bound, and one inside is exact.
pub open spec fn within_window(r: int, v: int, alpha: int, beta: int) -> bool {
    &&& r <= alpha ==> v <= r
    &&& r >= beta ==> v >= r
    &&& alpha < r < beta ==> v == r
}

/// Every minimax value is an `i32`.
pub proof fn lemma_minimax_bounds<M, S: State<M>>(s: S, depth: nat)
    ensures
        i32::MIN <= minimax(s, depth) <= i32::MAX,
    decreases depth + 1, 0nat,
{
    if !(s.leaf_spec() || depth == 0) {
        lemma_best_of_bounds(s, s.moves_spec(), depth);
    }
}

pub proof fn lemma_best_of_bounds<M, S: State<M>>(s: S, ms: Seq<M>, depth: nat)
    ensures
        i32::MIN <= best_of(s, ms, depth) <= i32::MAX,
    decreases depth, ms.len(),
{
    if ms.len() > 0 && depth > 0 {
        lemma_best_of_bounds(s, ms.drop_last(), depth);
        match s.child_spec(ms.last()) {
            None => {},
            Some(c) => {
                lemma_minimax_bounds(c, (depth - 1) as nat);
            },
        }
    }
}

/// Adding moves never makes the best value worse for the player to act.
pub proof fn lemma_best_of_prefix<M, S: State<M>>(s: S, ms: Seq<M>, i: int, depth: nat)
    requires
        0 <= i <= ms.len(),
    ensures
        s.maximizing_spec() ==> best_of(s, ms.take(i), depth) <= best_of(s, ms, depth),
        !s.maximizing_spec() ==> best_of(s, ms.take(i), depth) >= best_of(s, ms, depth),
    decreases ms.len(),
{
    if i < ms.len() {
        lemma_best_of_prefix(s, ms.drop_last(), i, depth);
        assert(ms.drop_last().take(i) =~= ms.take(i));
    } else {
        assert(ms.take(i) =~= ms);
    }
}

/// Every line of play from `s` reaches a leaf within `d` plies.
pub open spec fn ends_within<M, S: State<M>>(s: S, d: nat) -> bool
    decreases d,
{
    s.leaf_spec() || (d > 0 && forall|m: M|
        #![trigger s.child_spec(m)]
        s.moves_spec().contains(m) ==> (s.child_spec(m) matches Some(c) ==> ends_within(c, (d - 1) as nat)))
}

/// On a tree whose every line ends within `d` plies, the minimax value no
/// longer depends on the depth bound once the bound reaches `d`: it is the
/// value of the full game tree. So the search without a bound computes the
/// full minimax value of any tree that ends within `u32::MAX + 1` plies.
pub proof fn lemma_minimax_full_depth<M, S: State<M>>(s: S, d: nat, d1: nat, d2: nat)
    requires
        ends_within(s, d),
        d <= d1,
        d <= d2,
    ensures
        minimax(s, d1) == minimax(s, d2),
    decreases d1 + 1, 0nat,
{
    if !s.leaf_spec() {
        lemma_best_of_full_depth(s, s.moves_spec(), d, d1, d2);
    }
}

proof fn lemma_best_of_full_depth<M, S: State<M>>(s: S, ms: Seq<M>, d: nat, d1: nat, d2: nat)
    requires
        ends_within(s, d),
        !s.leaf_spec(),
        d <= d1,
        d <= d2,
        forall|i: int| 0 <= i < ms.len() ==> s.moves_spec().contains(#[trigger] ms[i]),
    ensures
        best_of(s, ms, d1) == best_of(s, ms, d2),
    decreases d1, ms.len(),
{
    if ms.len() > 0 {
        lemma_best_of_full_depth(s, ms.drop_last(), d, d1, d2);
        let m = ms.last();
        assert(s.moves_spec().contains(ms[ms.len() - 1]));
        match s.child_spec(m) {
            None => {},
            Some(c) => {
                assert(ends_within(c, (d - 1) as nat));
                lemma_minimax_full_depth(c, (d - 1) as nat, (d1 - 1) as nat, (d2 - 1) as nat);
            },
        }
    }
}

/// Number of nodes of the tree below `s`, cut at `depth` plies, that a full
/// minimax would score: the leaves and the nodes at the depth bound.
pub open spec fn frontier_size<M, S: State<M>>(s: S, depth: nat) -> nat
    decreases depth + 1, 0nat,
{
    if s.leaf_spec() || depth == 0 {
        1
    } else {
        frontier_of(s, s.moves_spec(), depth)
    }
}

pub open spec fn frontier_of<M, S: State<M>>(s: S, ms: Seq<M>, depth: nat) -> nat
    decreases depth, ms.len(),
{
    if ms.len() == 0 || depth == 0 {
        0
    } else {
        frontier_of(s, ms.drop_last(), depth) + match s.child_spec(ms.last()) {
            Some(c) => frontier_size(c, (depth - 1) as nat),
            None => 0,
        }
    }
}

proof fn lemma_frontier_prefix<M, S: State<M>>(s: S, ms: Seq<M>, i: int, depth: nat)
    requires
        0 <= i <= ms.len(),
    ensures
        frontier_of(s, ms.take(i), depth) <= frontier_of(s, ms, depth),
    decreases ms.len(),
{
    if i < ms.len() {
        lemma_frontier_prefix(s, ms.drop_last(), i, depth);
        assert(ms.drop_last().take(i) =~= ms.take(i));
    } else {
        assert(ms.take(i) =~= ms);
    }
}

/// The alpha-beta traversal below `s` in the window (`alpha`, `beta`), at
/// most `depth` plies deep: the value it returns and the number of nodes it
/// scores. Children are taken in the order of the moves; a maximising node
/// raises `alpha` and stops once `beta <= alpha`, a minimising node lowers
/// `beta` and stops likewise.
pub open spec fn ab_search<M, S: State<M>>(s: S, alpha: int, beta: int, depth: nat) -> (int, nat)
    decreases depth + 1, 0nat,
{
    if s.leaf_spec() || depth == 0 {
        (s.value_spec() as int, 1)
    } else if s.maximizing_spec() {
        ab_max(s, s.moves_spec(), 0, alpha, beta, i32::MIN as int, 0, depth)
    } else {
        ab_min(s, s.moves_spec(), 0, alpha, beta, i32::MAX as int, 0, depth)
    }
}

/// The maximising loop of `ab_search` from the move `ms[i]` on, with the
/// running `alpha`, best value and count so far.
pub open spec fn ab_max<M, S: State<M>>(
    s: S,
    ms: Seq<M>,
    i: nat,
    alpha: int,
    beta: int,
    best: int,
    evals: nat,
    depth: nat,
) -> (int, nat)
    decreases depth, ms.len() - i,
{
    if i >= ms.len() || depth == 0 {
        (best, evals)
    } else {
        let (alpha2, best2, evals2) = match s.child_spec(ms[i as int]) {
            None => (alpha, best, evals),
            Some(c) => {
                let (v, e) = ab_search(c, alpha, beta, (depth - 1) as nat);
                (max_int(alpha, v), max_int(best, v), evals + e)
            },
        };
        if beta <= alpha2 {
            (best2, evals2)
        } else {
            ab_max(s, ms, i + 1, alpha2, beta, best2, evals2, depth)
        }
    }
}

/// The minimising loop of `ab_search` from the move `ms[i]` on.
pub open spec fn ab_min<M, S: State<M>>(
    s: S,
    ms: Seq<M>,
    i: nat,
    alpha: int,
    beta: int,
    best: int,
    evals: nat,
    depth: nat,
) -> (int, nat)
    decreases depth, ms.len() - i,
{
    if i >= ms.len() || depth == 0 {
        (best, evals)
    } else {
        let (beta2, best2, evals2) = match s.child_spec(ms[i as int]) {
            None => (beta, best, evals),
            Some(c) => {
                let (v, e) = ab_search(c, alpha, beta, (depth - 1) as nat);
                (min_int(beta, v), min_int(best, v), evals + e)
            },
        };
        if beta2 <= alpha {
            (best2, evals2)
        } else {
            ab_min(s, ms, i + 1, alpha, beta2, best2, evals2, depth)
        }
    }
}

/// The root loop of `alpha_beta_search` from the move `ms[i]` on: each child
/// is searched with the best value so far as `alpha`; the best value and the
/// number of nodes scored.
pub open spec fn ab_root<M, S: State<M>>(s: S, ms: Seq<M>, i: nat, best: int, evals: nat, depth: nat) -> (
    int,
    nat,
)
    decreases ms.len() - i,
{
    if i >= ms.len() {
        (best, evals)
    } else {
        match s.child_spec(ms[i as int]) {
            None => ab_root(s, ms, i + 1, best, evals, depth),
            Some(c) => {
                let (v, e) = ab_search(c, best, i32::MAX as int, depth);
                ab_root(s, ms, i + 1, max_int(best, v), evals + e, depth)
            },
        }
    }
}

/// Counters of the work a search did.
pub struct SearchStats {
    /// Nodes the search entered, the root's children included.
    pub nodes: u64,
    /// Nodes scored by `evaluate`.
    pub evaluations: u64,
    /// Moves listed at the nodes the search expanded.
    pub children: u64,
}

fn bump(x: u64) -> (r: u64)
    ensures
        x <= r <= x + 1,
        x < u64::MAX ==> r == x + 1,
{
    if x < u64::MAX { x + 1 } else { x }
}

/// Alpha-beta search below `node`, at most `depth` plies deep.
fn recursive_minimax<M, S: State<M>>(
    node: &S,
    alpha: i32,
    beta: i32,
    depth: u32,
    stats: &mut SearchStats,
) -> (r: i32)
    ensures
        node.leaf_spec() || depth == 0 ==> r == node.value_spec(),
        node.modelled() && alpha < beta ==> within_window(
            r as int,
            minimax(*node, depth as nat),
            alpha as int,
            beta as int,
        ),
        final(stats).nodes >= old(stats).nodes,
        final(stats).evaluations >= old(stats).evaluations,
        final(stats).children >= old(stats).children,
        node.modelled() ==> final(stats).evaluations <= old(stats).evaluations + frontier_size(
            *node,
            depth as nat,
        ),
        node.modelled() ==> r == ab_search(*node, alpha as int, beta as int, depth as nat).0,
        node.modelled() && old(stats).evaluations + ab_search(
            *node,
            alpha as int,
            beta as int,
            depth as nat,
        ).1 <= u64::MAX ==> final(stats).evaluations == old(stats).evaluations + ab_search(
            *node,
            alpha as int,
            beta as int,
            depth as nat,
        ).1,
    decreases depth,
{
    stats.nodes = bump(stats.nodes);
    if node.is_leaf() || depth == 0 {
        stats.evaluations = bump(stats.evaluations);
        return node.evaluate();
    }
    let moves = node.legal_moves();
    stats.children = stats.children.saturating_add(moves.len() as u64);
    let ghost ms = moves@;
    let ghost d = depth as nat;
    let ghost evals0 = stats.evaluations;
    proof {
        assert(minimax(*node, d) == best_of(*node, ms, d));
    }
    if node.is_maximizing() {
        let mut alpha_run: i32 = alpha;
        let mut max_eval: i32 = i32::MIN;
        let mut i: usize = 0;
        let ghost mut acc: nat = 0;
        while i < moves.len()
            invariant
                node.modelled() ==> ab_search(*node, alpha as int, beta as int, d) == ab_max(
                    *node,
                    ms,
                    i as nat,
                    alpha_run as int,
                    beta as int,
                    max_eval as int,
                    acc,
                    d,
                ),
                node.modelled() && evals0 + acc <= u64::MAX ==> stats.evaluations == evals0 + acc,
                !(beta <= alpha_run) || i == 0,
                ms == moves@,
                ms == node.moves_spec(),
                node.maximizing_spec(),
                !node.leaf_spec(),
                d == depth as nat,
                d > 0,
                0 <= i <= moves.len(),
                alpha < beta ==> alpha_run < beta,
                alpha_run as int == max_int(alpha as int, max_eval as int),
                node.modelled() && alpha < beta ==> {
                    let v = best_of(*node, ms.take(i as int), d);
                    &&& max_eval <= alpha ==> v <= max_eval
                    &&& alpha < max_eval < beta ==> v == max_eval
                    &&& max_eval >= beta ==> v >= max_eval
                },
                stats.nodes >= old(stats).nodes,
                stats.evaluations >= old(stats).evaluations,
                stats.children >= old(stats).children,
                evals0 == old(stats).evaluations,
                node.modelled() ==> stats.evaluations <= evals0 + frontier_of(*node, ms.take(i as int), d),
            decreases moves.len() - i,
        {
            proof {
                assert(ms.take(i as int + 1).drop_last() =~= ms.take(i as int));
                assert(ms.take(i as int + 1).last() == ms[i as int]);
            }
            proof {
                assert(ms.contains(ms[i as int]));
            }
            let ghost a0 = alpha_run as int;
            let ghost b0 = max_eval as int;
            let ghost acc0 = acc;
            let ghost ev0 = stats.evaluations;
            match node.apply_move(&moves[i]) {
                None => {},
                Some(child) => {
                    let eval = recursive_minimax(&child, alpha_run, beta, depth - 1, stats);
                    proof {
                        lemma_minimax_bounds(child, (d - 1) as nat);
                        acc = acc + ab_search(child, a0, beta as int, (d - 1) as nat).1;
                    }
                    if eval > max_eval {
                        max_eval = eval;
                    }
                    if eval > alpha_run {
                        alpha_run = eval;
                    }
                },
            }
            proof {
                if node.modelled() {
                    let (alpha2, best2, evals2) = match node.child_spec(ms[i as int]) {
                        None => (a0, b0, acc0),
                        Some(c) => {
                            let (v, e) = ab_search(c, a0, beta as int, (d - 1) as nat);
                            (max_int(a0, v), max_int(b0, v), acc0 + e)
                        },
                    };
                    assert(alpha2 == alpha_run && best2 == max_eval && evals2 == acc);
                    assert(ab_max(*node, ms, i as nat, a0, beta as int, b0, acc0, d) == if beta
                        <= alpha2 {
                        (best2, evals2)
                    } else {
                        ab_max(*node, ms, (i + 1) as nat, alpha2, beta as int, best2, evals2, d)
                    });
                }
            }
            i = i + 1;
            if beta <= alpha_run {
                proof {
                    if node.modelled() && alpha < beta {
                        lemma_best_of_prefix(*node, ms, i as int, d);
                    }
                    if node.modelled() {
                        lemma_frontier_prefix(*node, ms, i as int, d);
                    }
                }
                return max_eval;
            }
        }
        proof {
            assert(ms.take(i as int) =~= ms);
        }
        max_eval
    } else {
        let mut beta_run: i32 = beta;
        let mut min_eval: i32 = i32::MAX;
        let mut i: usize = 0;
        let ghost mut acc: nat = 0;
        while i < moves.len()
            invariant
                node.modelled() ==> ab_search(*node, alpha as int, beta as int, d) == ab_min(
                    *node,
                    ms,
                    i as nat,
                    alpha as int,
                    beta_run as int,
                    min_eval as int,
                    acc,
                    d,
                ),
                node.modelled() && evals0 + acc <= u64::MAX ==> stats.evaluations == evals0 + acc,
                !(beta_run <= alpha) || i == 0,
                ms == moves@,
                ms == node.moves_spec(),
                !node.maximizing_spec(),
                !node.leaf_spec(),
                d == depth as nat,
                d > 0,
                0 <= i <= moves.len(),
                alpha < beta ==> alpha < beta_run,
                beta_run as int == min_int(beta as int, min_eval as int),
                node.modelled() && alpha < beta ==> {
                    let v = best_of(*node, ms.take(i as int), d);
                    &&& min_eval >= beta ==> v >= min_eval
                    &&& alpha < min_eval < beta ==> v == min_eval
                    &&& min_eval <= alpha ==> v <= min_eval
                },
                stats.nodes >= old(stats).nodes,
                stats.evaluations >= old(stats).evaluations,
                stats.children >= old(stats).children,
                evals0 == old(stats).evaluations,
                node.modelled() ==> stats.evaluations <= evals0 + frontier_of(*node, ms.take(i as int), d),
            decreases moves.len() - i,
        {
            proof {
                assert(ms.take(i as int + 1).drop_last() =~= ms.take(i as int));
                assert(ms.take(i as int + 1).last() == ms[i as int]);
            }
            proof {
                assert(ms.contains(ms[i as int]));
            }
            let ghost b0 = beta_run as int;
            let ghost m0 = min_eval as int;
            let ghost acc0 = acc;
            match node.apply_move(&moves[i]) {
                None => {},
                Some(child) => {
                    let eval = recursive_minimax(&child, alpha, beta_run, depth - 1, stats);
                    proof {
                        lemma_minimax_bounds(child, (d - 1) as nat);
                        acc = acc + ab_search(child, alpha as int, b0, (d - 1) as nat).1;
                    }
                    if eval < min_eval {
                        min_eval = eval;
                    }
                    if eval < beta_run {
                        beta_run = eval;
                    }
                },
            }
            proof {
                if node.modelled() {
                    let (beta2, best2, evals2) = match node.child_spec(ms[i as int]) {
                        None => (b0, m0, acc0),
                        Some(c) => {
                            let (v, e) = ab_search(c, alpha as int, b0, (d - 1) as nat);
                            (min_int(b0, v), min_int(m0, v), acc0 + e)
                        },
                    };
                    assert(beta2 == beta_run && best2 == min_eval && evals2 == acc);
                    assert(ab_min(*node, ms, i as nat, alpha as int, b0, m0, acc0, d) == if beta2
                        <= alpha {
                        (best2, evals2)
                    } else {
                        ab_min(*node, ms, (i + 1) as nat, alpha as int, beta2, best2, evals2, d)
                    });
                }
            }
            i = i + 1;
            if beta_run <= alpha {
                proof {
                    if node.modelled() && alpha < beta {
                        lemma_best_of_prefix(*node, ms, i as int, d);
                    }
                    if node.modelled() {
                        lemma_frontier_prefix(*node, ms, i as int, d);
                    }
                }
                return min_eval;
            }
        }
        proof {
            assert(ms.take(i as int) =~= ms);
        }
        min_eval
    }
}

/// What a search returns: the chosen move, its value, and the work done.
pub struct SearchResult<M> {
    pub best_move: M,
    pub value: i32,
    pub stats: SearchStats,
}

/// Depth to which the root's children are searched: a bound of `b` plies stops
/// `b - 1` plies below them (a bound of 0 acts as 1); no bound searches as deep
/// as a `u32` counts.
pub open spec fn child_depth(max_depth: Option<u32>) -> nat {
    match max_depth {
        Some(b) => if b == 0 { 0 } else { (b - 1) as nat },
        None => u32::MAX as nat,
    }
}

/// Minimax value of the child that `m` leads to, if it can be applied.
pub open spec fn child_value<M, S: State<M>>(s: S, m: M, depth: nat) -> Option<int> {
    match s.child_spec(m) {
        Some(c) => Some(minimax(c, depth)),
        None => None,
    }
}

/// `ms[i]` reaches the value `v` and no earlier move reaches it.
pub open spec fn first_best<M, S: State<M>>(s: S, ms: Seq<M>, i: int, depth: nat, v: int) -> bool {
    &&& 0 <= i < ms.len()
    &&& child_value(s, ms[i], depth) matches Some(w) ==> w == v
    &&& forall|j: int|
        0 <= j < i ==> (#[trigger] child_value(s, ms[j], depth) matches Some(w) ==> w < v)
}

/// Finds the best move for the maximising player at `start_state`, searching
/// at most `max_depth` plies (the root's children are at ply 1).
///
/// The value is the exact minimax value; among moves of equal value the first
/// one wins.
pub fn alpha_beta_search<M, S: State<M>>(
    start_state: &S,
    max_depth: Option<u32>,
) -> (r: SearchResult<M>)
    requires
        start_state.maximizing_spec(),
        !start_state.leaf_spec(),
        start_state.moves_spec().len() > 0,
    ensures
        start_state.moves_spec().contains(r.best_move),
        start_state.modelled() ==> r.value == minimax(*start_state, child_depth(max_depth) + 1),
        start_state.modelled() ==> r.stats.evaluations <= frontier_size(
            *start_state,
            child_depth(max_depth) + 1,
        ),
        start_state.modelled() && ab_root(
            *start_state,
            start_state.moves_spec(),
            0,
            i32::MIN as int,
            0,
            child_depth(max_depth),
        ).1 <= u64::MAX ==> r.stats.evaluations == ab_root(
            *start_state,
            start_state.moves_spec(),
            0,
            i32::MIN as int,
            0,
            child_depth(max_depth),
        ).1,
        start_state.modelled() ==> exists|i: int|
            first_best(
                *start_state,
                start_state.moves_spec(),
                i,
                child_depth(max_depth),
                r.value as int,
            ) && start_state.moves_spec()[i] == r.best_move,
{
    let depth: u32 = match max_depth {
        Some(b) => if b == 0 { 0 } else { b - 1 },
        None => u32::MAX,
    };
    let ghost d = depth as nat;
    let ghost root_d = d + 1;
    let mut stats = SearchStats { nodes: 0, evaluations: 0, children: 0 };
    let beta: i32 = i32::MAX;
    let mut max_eval: i32 = i32::MIN;
    let mut best_index: usize = 0;
    let mut moves = start_state.legal_moves();
    let ghost ms = moves@;
    let mut i: usize = 0;
    let ghost mut acc: nat = 0;
    while i < moves.len()
        invariant
            start_state.modelled() ==> ab_root(*start_state, ms, 0, i32::MIN as int, 0, d) == ab_root(
                *start_state,
                ms,
                i as nat,
                max_eval as int,
                acc,
                d,
            ),
            start_state.modelled() && acc <= u64::MAX ==> stats.evaluations == acc,
            ms == moves@,
            ms == start_state.moves_spec(),
            start_state.maximizing_spec(),
            !start_state.leaf_spec(),
            d == child_depth(max_depth),
            d == depth as nat,
            beta == i32::MAX,
            root_d == d + 1,
            ms.len() > 0,
            0 <= i <= ms.len(),
            best_index < ms.len(),
            best_index == 0 || best_index < i,
            start_state.modelled() ==> stats.evaluations <= frontier_of(
                *start_state,
                ms.take(i as int),
                root_d,
            ),
            start_state.modelled() ==> max_eval as int == best_of(
                *start_state,
                ms.take(i as int),
                root_d,
            ),
            start_state.modelled() ==> (best_index < i ==> (child_value(
                *start_state,
                ms[best_index as int],
                d,
            ) matches Some(w) ==> w == max_eval)),
            start_state.modelled() ==> forall|j: int|
                0 <= j < best_index ==> (#[trigger] child_value(*start_state, ms[j], d) matches Some(
                    w,
                ) ==> w < max_eval),
            start_state.modelled() ==> forall|j: int|
                0 <= j < i ==> (#[trigger] child_value(*start_state, ms[j], d) matches Some(w)
                    ==> w <= max_eval),
        decreases ms.len() - i,
    {
        proof {
            assert(ms.take(i as int + 1).drop_last() =~= ms.take(i as int));
            assert(ms.take(i as int + 1).last() == ms[i as int]);
        }
        proof {
            assert(ms.contains(ms[i as int]));
        }
        match start_state.apply_move(&moves[i]) {
            None => {},
            Some(child) => {
                let ghost before = max_eval as int;
                let ghost acc0 = acc;
                let eval = recursive_minimax(&child, max_eval, beta, depth, &mut stats);
                proof {
                    acc = acc + ab_search(child, before, i32::MAX as int, d).1;
                    if start_state.modelled() {
                        assert(ab_root(*start_state, ms, i as nat, before, acc0, d) == ab_root(
                            *start_state,
                            ms,
                            (i + 1) as nat,
                            max_int(before, ab_search(child, before, i32::MAX as int, d).0),
                            acc,
                            d,
                        ));
                    }
                }
                proof {
                    if start_state.modelled() {
                        lemma_minimax_bounds(child, d);
                        let v = minimax(child, d);
                        assert(child_value(*start_state, ms[i as int], d) == Some(v));
                        if before < i32::MAX {
                            if eval > before {
                                assert(v == eval);
                            } else {
                                assert(v <= before);
                            }
                        } else {
                            assert(v <= before);
                        }
                    }
                }
                if eval > max_eval {
                    max_eval = eval;
                    best_index = i;
                }
            },
        }
        i = i + 1;
    }
    proof {
        assert(ms.take(i as int) =~= ms);
        if start_state.modelled() {
            assert(frontier_size(*start_state, root_d) == frontier_of(*start_state, ms, root_d));
            assert(first_best(*start_state, ms, best_index as int, d, max_eval as int));
        }
    }
    let best_move = moves.remove(best_index);
    SearchResult { best_move, value: max_eval, stats }
}

} // verus!
