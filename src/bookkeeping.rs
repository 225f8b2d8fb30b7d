//! What a search node keeps track of besides the game itself: the cards not
//! yet played, and each party's points and tricks. It is counted once from a
//! game's history and then updated move by move; the two always agree.

use vstd::prelude::*;
use crate::evaluation::{POINTS_LIMIT, Tally, tally_wf};
use crate::model::{ActionKind, Callback, Card, EventRecord, Suit, TrickRecord};

verus! {

/// Longest trick or event history a tally is counted from.
pub const HISTORY_LIMIT: usize = 4096;

/// Bonus for winning the last trick of a deal.
pub const LAST_TRICK_BONUS: i64 = 20;

/// Points for announcing the pair (king and ober) of a suit.
pub open spec fn pair_value(s: Suit) -> int {
    match s {
        Suit::Red => 100,
        Suit::Bells => 80,
        Suit::Acorns => 60,
        Suit::Green => 40,
    }
}

/// Card points of the tricks in `ts` that `party` won.
pub open spec fn trick_points(ts: Seq<TrickRecord>, party: int) -> int
    decreases ts.len(),
{
    if ts.len() == 0 {
        0
    } else {
        trick_points(ts.drop_last(), party) + if ts.last().winner % 2 == party {
            ts.last().points as int
        } else {
            0
        }
    }
}

/// Number of tricks in `ts` that `party` won.
pub open spec fn trick_count(ts: Seq<TrickRecord>, party: int) -> int
    decreases ts.len(),
{
    if ts.len() == 0 {
        0
    } else {
        trick_count(ts.drop_last(), party) + if ts.last().winner % 2 == party { 1int } else { 0 }
    }
}

/// The last-trick bonus, once all nine tricks are played, for the party that
/// won the last one.
pub open spec fn last_trick_bonus(ts: Seq<TrickRecord>, party: int) -> int {
    if ts.len() == 9 && ts.last().winner % 2 == party { LAST_TRICK_BONUS as int } else { 0 }
}

/// Points the pairs announced by `party` in `es` are worth: an event whose
/// callback sets a new trump credits that pair to the actor's party.
pub open spec fn pair_points(es: Seq<EventRecord>, party: int) -> int
    decreases es.len(),
{
    if es.len() == 0 {
        0
    } else {
        pair_points(es.drop_last(), party) + match es.last().callback {
            Some(Callback::NewTrump(s)) => if es.last().action.player % 2 == party {
                pair_value(s)
            } else {
                0
            },
            _ => 0,
        }
    }
}

/// The party of the player whose bid set the game's value `value`: the last
/// event in `es` that bids exactly `value`, if any.
pub open spec fn playing_party_of(es: Seq<EventRecord>, value: i32) -> Option<u8>
    decreases es.len(),
{
    if es.len() == 0 {
        None
    } else {
        match es.last().action.kind {
            ActionKind::NewBid(v) if v == value => Some((es.last().action.player % 2) as u8),
            _ => playing_party_of(es.drop_last(), value),
        }
    }
}

/// All points `party` has: its tricks, the last-trick bonus, and its pairs.
pub open spec fn party_points(ts: Seq<TrickRecord>, es: Seq<EventRecord>, party: int) -> int {
    trick_points(ts, party) + last_trick_bonus(ts, party) + pair_points(es, party)
}

/// `t` is what the trick history `ts` and the event history `es` of a game
/// of value `value` add up to.
pub open spec fn describes(t: Tally, ts: Seq<TrickRecord>, es: Seq<EventRecord>, value: i32) -> bool {
    &&& t.points[0] == party_points(ts, es, 0)
    &&& t.points[1] == party_points(ts, es, 1)
    &&& t.tricks[0] == trick_count(ts, 0)
    &&& t.tricks[1] == trick_count(ts, 1)
    &&& t.playing_party == playing_party_of(es, value)
}

/// Points of `party` after the event `e`, the trick `trick` it finished (if
/// any), and the end of the deal (if `ended`).
pub open spec fn points_after(
    t: Tally,
    e: EventRecord,
    trick: Option<TrickRecord>,
    ended: bool,
    party: int,
) -> int {
    t.points[party] as int + match trick {
        Some(tr) => if tr.winner % 2 == party {
            tr.points as int + if ended { LAST_TRICK_BONUS as int } else { 0 }
        } else {
            0
        },
        None => 0,
    } + match e.callback {
        Some(Callback::NewTrump(s)) => if e.action.player % 2 == party { pair_value(s) } else { 0 },
        _ => 0,
    }
}

/// Tricks of `party` after `trick` (if any) is finished.
pub open spec fn tricks_after(t: Tally, trick: Option<TrickRecord>, party: int) -> int {
    t.tricks[party] as int + match trick {
        Some(tr) => if tr.winner % 2 == party { 1int } else { 0 },
        None => 0,
    }
}

pub open spec fn within_limits(points: int, tricks: int) -> bool {
    -POINTS_LIMIT <= points <= POINTS_LIMIT && 0 <= tricks <= POINTS_LIMIT
}

/// `n` is `t` updated by one step of play.
pub open spec fn advanced(t: Tally, e: EventRecord, trick: Option<TrickRecord>, ended: bool, n: Tally) -> bool {
    &&& n.points[0] == points_after(t, e, trick, ended, 0)
    &&& n.points[1] == points_after(t, e, trick, ended, 1)
    &&& n.tricks[0] == tricks_after(t, trick, 0)
    &&& n.tricks[1] == tricks_after(t, trick, 1)
    &&& n.playing_party == t.playing_party
}

/// Relies on marjapussi's `points_pair`: the four fixed pair values.
#[verifier::external_body]
pub(crate) fn pair_points_of(s: Suit) -> (r: i32)
    ensures
        r == pair_value(s),
{
    marjapussi::game::points::points_pair(crate::rules::suit_out(s)).0
}

proof fn lemma_pair_value_bounds(s: Suit)
    ensures
        40 <= pair_value(s) <= 100,
{
}

/// Counts a tally from a game's trick and event histories.
///
/// Fails (`None`) only on a history longer than `HISTORY_LIMIT`.
pub fn count_tally(tricks: &Vec<TrickRecord>, events: &Vec<EventRecord>, value: i32) -> (r: Option<Tally>)
    ensures
        r is Some <==> tricks@.len() <= HISTORY_LIMIT && events@.len() <= HISTORY_LIMIT,
        r matches Some(t) ==> describes(t, tricks@, events@, value) && tally_wf(t),
{
    if tricks.len() > HISTORY_LIMIT || events.len() > HISTORY_LIMIT {
        return None;
    }
    let mut points: [i64; 2] = [0, 0];
    let mut won: [i64; 2] = [0, 0];
    let mut i: usize = 0;
    while i < tricks.len()
        invariant
            0 <= i <= tricks@.len() <= HISTORY_LIMIT,
            points[0] == trick_points(tricks@.take(i as int), 0),
            points[1] == trick_points(tricks@.take(i as int), 1),
            won[0] == trick_count(tricks@.take(i as int), 0),
            won[1] == trick_count(tricks@.take(i as int), 1),
            -(i as int) * 0x8000_0000 <= points[0] <= (i as int) * 0x8000_0000,
            -(i as int) * 0x8000_0000 <= points[1] <= (i as int) * 0x8000_0000,
            0 <= won[0] <= i,
            0 <= won[1] <= i,
        decreases tricks.len() - i,
    {
        proof {
            assert(tricks@.take(i as int + 1).drop_last() =~= tricks@.take(i as int));
        }
        let tr = tricks[i];
        let party: usize = (tr.winner % 2) as usize;
        points.set(party, points[party] + tr.points as i64);
        won.set(party, won[party] + 1);
        i = i + 1;
    }
    proof {
        assert(tricks@.take(i as int) =~= tricks@);
    }
    if tricks.len() == 9 {
        let party: usize = (tricks[8].winner % 2) as usize;
        points.set(party, points[party] + LAST_TRICK_BONUS);
    }
    let ghost trick_part = points;
    let mut playing_party: Option<u8> = None;
    let mut j: usize = 0;
    while j < events.len()
        invariant
            0 <= j <= events@.len() <= HISTORY_LIMIT,
            tricks@.len() <= HISTORY_LIMIT,
            trick_part[0] == trick_points(tricks@, 0) + last_trick_bonus(tricks@, 0),
            trick_part[1] == trick_points(tricks@, 1) + last_trick_bonus(tricks@, 1),
            -(HISTORY_LIMIT as int) * 0x8000_0000 - 20 <= trick_part[0],
            trick_part[0] <= (HISTORY_LIMIT as int) * 0x8000_0000 + 20,
            -(HISTORY_LIMIT as int) * 0x8000_0000 - 20 <= trick_part[1],
            trick_part[1] <= (HISTORY_LIMIT as int) * 0x8000_0000 + 20,
            points[0] == trick_part[0] + pair_points(events@.take(j as int), 0),
            points[1] == trick_part[1] + pair_points(events@.take(j as int), 1),
            0 <= pair_points(events@.take(j as int), 0) <= 100 * j,
            0 <= pair_points(events@.take(j as int), 1) <= 100 * j,
            playing_party == playing_party_of(events@.take(j as int), value),
            playing_party matches Some(p) ==> p < 2,
            won[0] == trick_count(tricks@, 0),
            won[1] == trick_count(tricks@, 1),
            0 <= won[0] <= HISTORY_LIMIT,
            0 <= won[1] <= HISTORY_LIMIT,
        decreases events.len() - j,
    {
        proof {
            assert(events@.take(j as int + 1).drop_last() =~= events@.take(j as int));
        }
        let e = &events[j];
        if let ActionKind::NewBid(v) = e.action.kind {
            if v == value {
                playing_party = Some(e.action.player % 2);
            }
        }
        if let Some(Callback::NewTrump(s)) = e.callback {
            let party: usize = (e.action.player % 2) as usize;
            let bonus = pair_points_of(s);
            proof {
                lemma_pair_value_bounds(s);
            }
            points.set(party, points[party] + bonus as i64);
        }
        j = j + 1;
    }
    proof {
        assert(events@.take(j as int) =~= events@);
    }
    Some(Tally { points, tricks: won, playing_party })
}

/// The trick history after a step that finished `trick`, if any.
pub open spec fn tricks_then(ts: Seq<TrickRecord>, trick: Option<TrickRecord>) -> Seq<TrickRecord> {
    match trick {
        Some(tr) => ts.push(tr),
        None => ts,
    }
}

/// Updates a tally by one step of play: the event `e` that just happened, the
/// trick it finished (if any), and whether the deal ended with it.
///
/// Fails (`None`) only where a count would leave the tally's limits.
pub fn advance_tally(t: &Tally, e: &EventRecord, trick: Option<TrickRecord>, ended: bool) -> (r: Option<Tally>)
    requires
        tally_wf(*t),
    ensures
        r is Some <==> within_limits(points_after(*t, *e, trick, ended, 0), tricks_after(*t, trick, 0))
            && within_limits(points_after(*t, *e, trick, ended, 1), tricks_after(*t, trick, 1)),
        r matches Some(n) ==> advanced(*t, *e, trick, ended, n) && tally_wf(n),
{
    let mut points: [i64; 2] = t.points;
    let mut won: [i64; 2] = t.tricks;
    if let Some(tr) = trick {
        let party: usize = (tr.winner % 2) as usize;
        let bonus: i64 = if ended { LAST_TRICK_BONUS } else { 0 };
        points.set(party, points[party] + tr.points as i64 + bonus);
        won.set(party, won[party] + 1);
    }
    if let Some(Callback::NewTrump(s)) = e.callback {
        let party: usize = (e.action.player % 2) as usize;
        let bonus = pair_points_of(s);
        proof {
            lemma_pair_value_bounds(s);
        }
        points.set(party, points[party] + bonus as i64);
    }
    if points[0] < -POINTS_LIMIT || points[0] > POINTS_LIMIT || points[1] < -POINTS_LIMIT
        || points[1] > POINTS_LIMIT || won[0] > POINTS_LIMIT || won[1] > POINTS_LIMIT {
        return None;
    }
    Some(Tally { points, tricks: won, playing_party: t.playing_party })
}

/// Updating a tally step by step gives what counting the whole history anew
/// gives: if `t` describes the histories before a step, the tally advanced by
/// that step describes the histories after it.
///
/// The step is one of play, so it is no bid of the game's value, and a deal
/// ends exactly when its ninth trick is finished.
pub proof fn lemma_advance_matches_recount(
    t: Tally,
    ts: Seq<TrickRecord>,
    es: Seq<EventRecord>,
    value: i32,
    e: EventRecord,
    trick: Option<TrickRecord>,
    ended: bool,
    n: Tally,
)
    requires
        describes(t, ts, es, value),
        e.action.kind matches ActionKind::NewBid(v) ==> v != value,
        tricks_then(ts, trick).len() <= 9,
        ended <==> tricks_then(ts, trick).len() == 9,
        ended ==> trick is Some,
        advanced(t, e, trick, ended, n),
    ensures
        describes(n, tricks_then(ts, trick), es.push(e), value),
{
    let ts2 = tricks_then(ts, trick);
    let es2 = es.push(e);
    assert(es2.drop_last() =~= es);
    assert(es2.last() == e);
    if let Some(tr) = trick {
        assert(ts2.drop_last() =~= ts);
        assert(ts2.last() == tr);
    }
}

/// Index of the first card in `cards` equal to `c`, if any.
pub fn position_of(cards: &Vec<Card>, c: Card) -> (r: Option<usize>)
    ensures
        r matches Some(i) ==> i < cards@.len() && cards@[i as int] == c
            && forall|j: int| 0 <= j < i ==> cards@[j] != c,
        r is None ==> !cards@.contains(c),
{
    let mut i: usize = 0;
    while i < cards.len()
        invariant
            0 <= i <= cards@.len(),
            forall|j: int| 0 <= j < i ==> cards@[j] != c,
        decreases cards.len() - i,
    {
        if cards[i] == c {
            return Some(i);
        }
        i = i + 1;
    }
    None
}

/// Removing a played card from the pool of unplayed cards keeps the pool equal,
/// as a multiset, to the cards still in the hands.
pub proof fn lemma_remaining_after_play(
    remaining: Seq<Card>,
    i: int,
    hands_before: Seq<Card>,
    hands_after: Seq<Card>,
)
    requires
        0 <= i < remaining.len(),
        remaining.to_multiset() == hands_before.to_multiset(),
        hands_after.to_multiset() == hands_before.to_multiset().remove(remaining[i]),
    ensures
        remaining.remove(i).to_multiset() == hands_after.to_multiset(),
{
    vstd::seq_lib::to_multiset_remove(remaining, i);
}

/// The cards of all hands, seat by seat.
pub open spec fn cards_in_hands(hands: Seq<Vec<Card>>) -> Seq<Card>
    decreases hands.len(),
{
    if hands.len() == 0 {
        seq![]
    } else {
        cards_in_hands(hands.drop_last()) + hands.last()@
    }
}

/// Joins the hands into one pool of cards, seat by seat.
pub fn join_hands(hands: &Vec<Vec<Card>>) -> (r: Vec<Card>)
    ensures
        r@ == cards_in_hands(hands@),
{
    let mut r: Vec<Card> = Vec::new();
    let mut k: usize = 0;
    while k < hands.len()
        invariant
            0 <= k <= hands@.len(),
            r@ == cards_in_hands(hands@.take(k as int)),
        decreases hands.len() - k,
    {
        proof {
            assert(hands@.take(k as int + 1).drop_last() =~= hands@.take(k as int));
        }
        let hand = &hands[k];
        let ghost before = r@;
        let mut i: usize = 0;
        while i < hand.len()
            invariant
                0 <= i <= hand@.len(),
                r@ == before + hand@.take(i as int),
            decreases hand.len() - i,
        {
            r.push(hand[i]);
            proof {
                assert(hand@.take(i as int + 1) =~= hand@.take(i as int).push(hand@[i as int]));
            }
            i = i + 1;
        }
        proof {
            assert(hand@.take(i as int) =~= hand@);
        }
        k = k + 1;
    }
    proof {
        assert(hands@.take(k as int) =~= hands@);
    }
    r
}

/// A copy of a pool of cards.
pub(crate) fn copy_cards(cards: &Vec<Card>) -> (r: Vec<Card>)
    ensures
        r@ == cards@,
{
    let mut r: Vec<Card> = Vec::new();
    let mut i: usize = 0;
    while i < cards.len()
        invariant
            0 <= i <= cards@.len(),
            r@ == cards@.take(i as int),
        decreases cards.len() - i,
    {
        r.push(cards[i]);
        proof {
            assert(cards@.take(i as int + 1) =~= cards@.take(i as int).push(cards@[i as int]));
        }
        i = i + 1;
    }
    proof {
        assert(cards@.take(i as int) =~= cards@);
    }
    r
}

} // verus!
