//! Scoring of a (finished or cut-off) deal from one party's point of view.

use vstd::prelude::*;

verus! {

/// Number of tricks in a deal.
pub const TRICKS_PER_GAME: i64 = 9;

/// Points and tricks each party has collected so far, and which party, if
/// any, won the bidding.
#[derive(Clone, Copy, Debug)]
pub struct Tally {
    pub points: [i64; 2],
    pub tricks: [i64; 2],
    pub playing_party: Option<u8>,
}

/// The largest magnitude an evaluation can take; larger scores are clamped.
pub open spec fn clamp_i32(x: int) -> int {
    if x < i32::MIN { i32::MIN as int } else if x > i32::MAX { i32::MAX as int } else { x }
}

/// Whether one party won every trick (party 0 won none or all nine).
pub open spec fn is_shutout(tricks_party_zero: int) -> bool {
    tricks_party_zero == 0 || tricks_party_zero == TRICKS_PER_GAME
}

/// The point differential for the party `own` (0 or 1), before clamping.
///
/// `own_pts` and `opp_pts` are the two parties' points, `value` the final bid,
/// `playing` the party that won the bidding (0 or 1), if any.
pub open spec fn score(
    own: int,
    own_pts: int,
    opp_pts: int,
    tricks_party_zero: int,
    value: int,
    playing: Option<int>,
) -> int {
    let shutout = is_shutout(tricks_party_zero);
    match playing {
        None => own_pts - opp_pts,
        Some(p) => if p == own {
            if !shutout {
                if own_pts >= value { value - opp_pts } else { -value - opp_pts }
            } else if opp_pts == 0 {
                value + 2 * value
            } else {
                -2 * value - opp_pts
            }
        } else {
            if !shutout {
                if opp_pts >= value { own_pts - value } else { own_pts + value }
            } else if opp_pts == 0 {
                value + 2 * value
            } else {
                -2 * value - value
            }
        },
    }
}

/// Largest magnitude of a party's points, or of its trick count, that a
/// tally holds.
pub const POINTS_LIMIT: i64 = 0x1000_0000_0000;

/// The counts are within `POINTS_LIMIT` and the playing party is 0 or 1.
pub open spec fn tally_wf(t: Tally) -> bool {
    &&& -POINTS_LIMIT <= t.points[0] <= POINTS_LIMIT
    &&& -POINTS_LIMIT <= t.points[1] <= POINTS_LIMIT
    &&& 0 <= t.tricks[0] <= POINTS_LIMIT
    &&& 0 <= t.tricks[1] <= POINTS_LIMIT
    &&& t.playing_party matches Some(p) ==> p < 2
}

/// The score of `t` for the party of seat `owner`, clamped to `i32`.
pub open spec fn evaluation_of(t: Tally, owner: u8, value: i32) -> int {
    clamp_i32(raw_score(t, owner, value))
}

/// The score of `t` for the party of seat `owner`, before clamping.
pub open spec fn raw_score(t: Tally, owner: u8, value: i32) -> int {
    let own = (owner % 2) as int;
    let opp = ((owner + 1) % 2) as int;
    score(
        own,
        t.points[own] as int,
        t.points[opp] as int,
        t.tricks[0] as int,
        value as int,
        match t.playing_party {
            Some(p) => Some(p as int),
            None => None,
        },
    )
}

/// Scores the tally for the party of seat `owner`, with `value` the final bid.
pub fn evaluate_tally(t: &Tally, owner: u8, value: i32) -> (r: i32)
    requires
        tally_wf(*t),
    ensures
        r as int == evaluation_of(*t, owner, value),
{
    let own: usize = (owner % 2) as usize;
    let opp: usize = ((owner % 2 + 1) % 2) as usize;
    let own_pts: i64 = t.points[own];
    let opp_pts: i64 = t.points[opp];
    let value: i64 = value as i64;
    let shutout: bool = t.tricks[0] == 0 || t.tricks[0] == TRICKS_PER_GAME;
    let raw: i64 = match t.playing_party {
        None => own_pts - opp_pts,
        Some(p) => if p as usize == own {
            if !shutout {
                if own_pts >= value { value - opp_pts } else { -value - opp_pts }
            } else if opp_pts == 0 {
                value + value + value
            } else {
                -value - value - opp_pts
            }
        } else {
            if !shutout {
                if opp_pts >= value { own_pts - value } else { own_pts + value }
            } else if opp_pts == 0 {
                value + value + value
            } else {
                -value - value - value
            }
        },
    };
    if raw < i32::MIN as i64 {
        i32::MIN
    } else if raw > i32::MAX as i64 {
        i32::MAX
    } else {
        raw as i32
    }
}

/// Without a shutout, the two parties' scores of the same tally are opposite:
/// what one party gains the other loses. (Clamping to `i32` would break this
/// only for scores beyond `i32`, which are left out.)
pub proof fn lemma_evaluation_antisymmetric(t: Tally, owner_a: u8, owner_b: u8, value: i32)
    requires
        tally_wf(t),
        owner_a % 2 != owner_b % 2,
        !is_shutout(t.tricks[0] as int),
        -i32::MAX <= raw_score(t, owner_a, value) <= i32::MAX,
    ensures
        evaluation_of(t, owner_a, value) == -evaluation_of(t, owner_b, value),
{
    assert(raw_score(t, owner_a, value) == -raw_score(t, owner_b, value));
}

/// A shutout won by the playing party scores three times the bid for it.
pub proof fn lemma_shutout_by_playing_party(t: Tally, owner: u8, value: i32)
    requires
        tally_wf(t),
        t.playing_party == Some((owner % 2) as u8),
        is_shutout(t.tricks[0] as int),
        t.points[((owner + 1) % 2) as int] == 0,
        0 <= value <= 0x1000_0000,
    ensures
        evaluation_of(t, owner, value) == 3 * value,
{
}

} // verus!
