//! The bidding advisor: what a hand is worth telling the partner, and which
//! bid tells the next item of it.

use vstd::prelude::*;
use crate::bookkeeping::copy_cards;
use crate::model::{Action, ActionKind, Card, Suit, Value};
use crate::rules::{halves_of, pairs_of};

verus! {

/// An item of information a bid can convey to the partner.
#[derive(Clone, Copy, Debug, PartialEq, Eq, Structural)]
pub enum BiddingInfos {
    Ace,
    BigPair,
    SmallPair,
    Halves3_4,
    Halves2,
}

/// The value of a game before anyone has bid.
pub const OPENING_VALUE: i32 = 115;

/// From this value on, a game must be won with a pair announced.
pub const PAIR_THRESHOLD: i64 = 140;

/// The highest value a game can have.
pub const MAX_VALUE: i64 = 420;

pub open spec fn holds(cards: Seq<Card>, suit: Suit, value: Value) -> bool {
    cards.contains(Card { suit, value })
}

pub open spec fn has_pair(cards: Seq<Card>, s: Suit) -> bool {
    holds(cards, s, Value::Ober) && holds(cards, s, Value::King)
}

pub open spec fn has_half(cards: Seq<Card>, s: Suit) -> bool {
    holds(cards, s, Value::Ober) || holds(cards, s, Value::King)
}

pub open spec fn if_then(b: bool, s: Suit) -> Seq<Suit> {
    if b { seq![s] } else { seq![] }
}

/// The suits, in the order Green, Acorns, Bells, Red, of which `cards` holds
/// a pair (ober and king).
pub open spec fn pairs_in(cards: Seq<Card>) -> Seq<Suit> {
    if_then(has_pair(cards, Suit::Green), Suit::Green)
        + if_then(has_pair(cards, Suit::Acorns), Suit::Acorns)
        + if_then(has_pair(cards, Suit::Bells), Suit::Bells)
        + if_then(has_pair(cards, Suit::Red), Suit::Red)
}

/// The suits, in the same order, of which `cards` holds a half (ober or king).
pub open spec fn halves_in(cards: Seq<Card>) -> Seq<Suit> {
    if_then(has_half(cards, Suit::Green), Suit::Green)
        + if_then(has_half(cards, Suit::Acorns), Suit::Acorns)
        + if_then(has_half(cards, Suit::Bells), Suit::Bells)
        + if_then(has_half(cards, Suit::Red), Suit::Red)
}

pub open spec fn single_half(cards: Seq<Card>, s: Suit) -> int {
    if has_half(cards, s) && !has_pair(cards, s) { 1 } else { 0 }
}

/// Number of suits of which `cards` holds one half but not the pair.
pub open spec fn single_halves(cards: Seq<Card>) -> int {
    single_half(cards, Suit::Green) + single_half(cards, Suit::Acorns)
        + single_half(cards, Suit::Bells) + single_half(cards, Suit::Red)
}

pub open spec fn pair_info(s: Suit) -> BiddingInfos {
    match s {
        Suit::Red | Suit::Bells => BiddingInfos::BigPair,
        Suit::Acorns | Suit::Green => BiddingInfos::SmallPair,
    }
}

/// The items a hand has to tell, in the order they are told: an ace, then one
/// item per pair from the strongest suit down, then the unpaired halves.
pub open spec fn told_in_order(cards: Seq<Card>) -> Seq<BiddingInfos> {
    let ace: Seq<BiddingInfos> = if exists|i: int| 0 <= i < cards.len() && cards[i].value == Value::Ace {
        seq![BiddingInfos::Ace]
    } else {
        seq![]
    };
    let pairs: Seq<BiddingInfos> = pairs_in(cards).reverse().map_values(|s: Suit| pair_info(s));
    let halves: Seq<BiddingInfos> = if single_halves(cards) >= 3 {
        seq![BiddingInfos::Halves3_4]
    } else if single_halves(cards) == 2 {
        seq![BiddingInfos::Halves2]
    } else {
        seq![]
    };
    ace + pairs + halves
}

/// Assesses a hand for the bidding: the items it has to tell, the first one
/// last, so that popping the queue yields them in order.
pub fn assess_hand(cards: &Vec<Card>) -> (r: Vec<BiddingInfos>)
    ensures
        r@ == told_in_order(cards@).reverse(),
{
    let mut items: Vec<BiddingInfos> = Vec::new();
    let mut has_ace = false;
    let mut i: usize = 0;
    while i < cards.len()
        invariant
            0 <= i <= cards@.len(),
            has_ace <==> exists|j: int| 0 <= j < i && cards@[j].value == Value::Ace,
        decreases cards.len() - i,
    {
        if cards[i].value == Value::Ace {
            has_ace = true;
        }
        i = i + 1;
    }
    if has_ace {
        items.push(BiddingInfos::Ace);
    }
    let own_pairs = pairs_of(cards);
    let ghost start = items@;
    let mut k: usize = own_pairs.len();
    while k > 0
        invariant
            0 <= k <= own_pairs@.len(),
            items@ == start + own_pairs@.skip(k as int).reverse().map_values(|s: Suit| pair_info(s)),
        decreases k,
    {
        k = k - 1;
        let info = match own_pairs[k] {
            Suit::Red | Suit::Bells => BiddingInfos::BigPair,
            Suit::Acorns | Suit::Green => BiddingInfos::SmallPair,
        };
        proof {
            assert(own_pairs@.skip(k as int).reverse() =~= own_pairs@.skip(k as int + 1).reverse().push(
                own_pairs@[k as int],
            ));
            assert(own_pairs@.skip(k as int).reverse().map_values(|s: Suit| pair_info(s))
                =~= own_pairs@.skip(k as int + 1).reverse().map_values(|s: Suit| pair_info(s)).push(info));
        }
        items.push(info);
    }
    proof {
        assert(own_pairs@.skip(0) =~= own_pairs@);
    }
    let halves = halves_of(cards);
    let mut count: usize = 0;
    let mut h: usize = 0;
    while h < halves.len()
        invariant
            0 <= h <= halves@.len(),
            halves@ == halves_in(cards@),
            own_pairs@ == pairs_in(cards@),
            count == count_single(halves@.take(h as int), cards@),
            count <= h,
        decreases halves.len() - h,
    {
        proof {
            assert(halves@.take(h as int + 1).drop_last() =~= halves@.take(h as int));
        }
        if !contains_suit(&own_pairs, halves[h]) {
            count = count + 1;
        }
        h = h + 1;
    }
    proof {
        assert(halves@.take(h as int) =~= halves@);
        lemma_single_halves(cards@);
    }
    if count >= 3 {
        items.push(BiddingInfos::Halves3_4);
    } else if count == 2 {
        items.push(BiddingInfos::Halves2);
    }
    let r = reversed(items);
    proof {
        assert(r@ =~= told_in_order(cards@).reverse());
    }
    r
}

/// Number of suits of `hs` of which `cards` holds no pair.
pub open spec fn count_single(hs: Seq<Suit>, cards: Seq<Card>) -> int
    decreases hs.len(),
{
    if hs.len() == 0 {
        0
    } else {
        count_single(hs.drop_last(), cards) + if pairs_in(cards).contains(hs.last()) { 0int } else { 1 }
    }
}

proof fn lemma_single_halves(cards: Seq<Card>)
    ensures
        count_single(halves_in(cards), cards) == single_halves(cards),
{
    let ps = pairs_in(cards);
    let hs = halves_in(cards);
    assert(forall|s: Suit| #[trigger] ps.contains(s) <==> has_pair(cards, s)) by {
        assert forall|s: Suit| #[trigger] ps.contains(s) <==> has_pair(cards, s) by {
            if has_pair(cards, s) {
                match s {
                    Suit::Green => assert(ps[0] == s),
                    Suit::Acorns => {
                        let before = if_then(has_pair(cards, Suit::Green), Suit::Green);
                        assert(ps[before.len() as int] == s);
                    },
                    Suit::Bells => assert(ps[(if_then(has_pair(cards, Suit::Green), Suit::Green)
                        + if_then(has_pair(cards, Suit::Acorns), Suit::Acorns)).len() as int] == s),
                    Suit::Red => assert(ps[ps.len() - 1] == s),
                }
            }
            if ps.contains(s) {
                let i = choose|i: int| 0 <= i < ps.len() && ps[i] == s;
            }
        }
    }
    let g = if_then(has_half(cards, Suit::Green), Suit::Green);
    let a = if_then(has_half(cards, Suit::Acorns), Suit::Acorns);
    let b = if_then(has_half(cards, Suit::Bells), Suit::Bells);
    let r = if_then(has_half(cards, Suit::Red), Suit::Red);
    lemma_count_single_concat(g, a, cards);
    lemma_count_single_concat(g + a, b, cards);
    lemma_count_single_concat(g + a + b, r, cards);
    reveal_with_fuel(count_single, 2);
}

proof fn lemma_count_single_concat(x: Seq<Suit>, y: Seq<Suit>, cards: Seq<Card>)
    ensures
        count_single(x + y, cards) == count_single(x, cards) + count_single(y, cards),
    decreases y.len(),
{
    if y.len() > 0 {
        lemma_count_single_concat(x, y.drop_last(), cards);
        assert((x + y).drop_last() =~= x + y.drop_last());
    } else {
        assert(x + y =~= x);
    }
}

fn contains_suit(suits: &Vec<Suit>, s: Suit) -> (r: bool)
    ensures
        r == suits@.contains(s),
{
    let mut i: usize = 0;
    while i < suits.len()
        invariant
            0 <= i <= suits@.len(),
            forall|j: int| 0 <= j < i ==> suits@[j] != s,
        decreases suits.len() - i,
    {
        if suits[i] == s {
            return true;
        }
        i = i + 1;
    }
    false
}

fn reversed(v: Vec<BiddingInfos>) -> (r: Vec<BiddingInfos>)
    ensures
        r@ == v@.reverse(),
{
    let mut r: Vec<BiddingInfos> = Vec::new();
    let mut i: usize = v.len();
    while i > 0
        invariant
            0 <= i <= v@.len(),
            r@ == v@.skip(i as int).reverse(),
        decreases i,
    {
        i = i - 1;
        proof {
            assert(v@.skip(i as int).reverse() =~= v@.skip(i as int + 1).reverse().push(v@[i as int]));
        }
        r.push(v[i]);
    }
    proof {
        assert(v@.skip(0) =~= v@);
    }
    r
}

/// An entry of the bidding history as the ace detector reads it.
#[derive(Clone, Copy, Debug, PartialEq, Eq, Structural)]
pub enum BidEntry {
    Bid(i32),
    Stop,
    Other,
}

pub open spec fn entry_of(kind: ActionKind) -> BidEntry {
    match kind {
        ActionKind::NewBid(v) => BidEntry::Bid(v),
        ActionKind::StopBidding => BidEntry::Stop,
        _ => BidEntry::Other,
    }
}

/// Entry `k` of the history `h` preceded by an imagined opening bid of 115
/// by seat 0.
pub open spec fn entry_at(h: Seq<Action>, k: int) -> BidEntry {
    if k == 0 { BidEntry::Bid(OPENING_VALUE) } else { entry_of(h[k - 1].kind) }
}

pub open spec fn seat_at(h: Seq<Action>, k: int) -> u8 {
    if k == 0 { 0 } else { h[k - 1].player }
}

/// The raise that the window of four entries starting at `k` shows for its
/// last entry: 0 for a pass, the difference to the bid before it otherwise;
/// `None` for a window the detector cannot read.
pub open spec fn window_step(h: Seq<Action>, k: int) -> Option<int> {
    match (entry_at(h, k), entry_at(h, k + 1), entry_at(h, k + 2), entry_at(h, k + 3)) {
        (_, _, _, BidEntry::Stop) => Some(0),
        (_, BidEntry::Bid(b1), BidEntry::Stop, BidEntry::Bid(b2)) => Some(b2 - b1),
        (BidEntry::Bid(b1), BidEntry::Stop, BidEntry::Stop, BidEntry::Bid(b2)) => Some(b2 - b1),
        (_, _, BidEntry::Bid(b1), BidEntry::Bid(b2)) => Some(b2 - b1),
        _ => None,
    }
}

/// Window `k` shows `player` raising by exactly 5, which is read as an ace.
pub open spec fn announces_ace(h: Seq<Action>, player: u8, k: int) -> bool {
    0 <= k && k + 3 <= h.len() && seat_at(h, k + 3) == player && window_step(h, k) == Some(5int)
}

pub open spec fn announced_ace(h: Seq<Action>, player: u8) -> bool {
    exists|k: int| announces_ace(h, player, k)
}

/// Every window before the first one that shows `player` announcing an ace
/// can be read.
pub open spec fn readable_for(h: Seq<Action>, player: u8) -> bool {
    forall|k: int|
        0 <= k && k + 3 <= h.len() && #[trigger] window_step(h, k) is None
            ==> exists|j: int| 0 <= j < k && announces_ace(h, player, j)
}

fn entry(h: &Vec<Action>, k: usize) -> (r: BidEntry)
    requires
        k <= h@.len(),
    ensures
        r == entry_at(h@, k as int),
{
    if k == 0 {
        return BidEntry::Bid(OPENING_VALUE);
    }
    match h[k - 1].kind {
        ActionKind::NewBid(v) => BidEntry::Bid(v),
        ActionKind::StopBidding => BidEntry::Stop,
        _ => BidEntry::Other,
    }
}

fn step_of(h: &Vec<Action>, k: usize) -> (r: Option<i64>)
    requires
        k + 3 <= h@.len(),
    ensures
        r is Some <==> window_step(h@, k as int) is Some,
        r matches Some(x) ==> window_step(h@, k as int) == Some(x as int),
{
    if h.len() - k < 3 {
        return None;
    }
    match (entry(h, k), entry(h, k + 1), entry(h, k + 2), entry(h, k + 3)) {
        (_, _, _, BidEntry::Stop) => Some(0),
        (_, BidEntry::Bid(b1), BidEntry::Stop, BidEntry::Bid(b2)) => Some(b2 as i64 - b1 as i64),
        (BidEntry::Bid(b1), BidEntry::Stop, BidEntry::Stop, BidEntry::Bid(b2)) => Some(b2 as i64 - b1 as i64),
        (_, _, BidEntry::Bid(b1), BidEntry::Bid(b2)) => Some(b2 as i64 - b1 as i64),
        _ => None,
    }
}

/// Whether `player` announced an ace in the bidding: the history, preceded by
/// an imagined opening bid of 115, holds a window of four entries whose last
/// one is a raise by exactly 5 by that player.
///
/// This is a heuristic and misreads some histories. Windows it cannot read
/// may not come before the answer is known.
pub fn player_announced_ace(bidding_history: &Vec<Action>, player: u8) -> (r: bool)
    requires
        readable_for(bidding_history@, player),
    ensures
        r == announced_ace(bidding_history@, player),
{
    let h = bidding_history;
    let n = h.len();
    if n < 3 {
        return false;
    }
    let mut k: usize = 0;
    while k <= n - 3
        invariant
            h == bidding_history,
            n == h@.len(),
            n >= 3,
            readable_for(h@, player),
            forall|j: int| 0 <= j < k ==> !announces_ace(h@, player, j),
        decreases n + 1 - k,
    {
        let step = step_of(h, k);
        proof {
            if step is None {
                assert(window_step(h@, k as int) is None);
            }
        }
        if let Some(x) = step {
            if h[k + 2].player == player && x == 5 {
                proof {
                    assert(announces_ace(h@, player, k as int));
                    assert(announced_ace(h@, player));
                }
                return true;
            }
        }
        k = k + 1;
    }
    proof {
        assert forall|j: int| !announces_ace(h@, player, j) by {
            if 0 <= j < k {
            }
        }
    }
    false
}

/// Whether the ace detector can answer for `player` on this history: no window
/// it cannot read comes before the first one that shows that player's ace.
pub fn bidding_history_readable(bidding_history: &Vec<Action>, player: u8) -> (r: bool)
    ensures
        r == readable_for(bidding_history@, player),
{
    let h = bidding_history;
    let n = h.len();
    if n < 3 {
        return true;
    }
    let mut k: usize = 0;
    while k <= n - 3
        invariant
            h == bidding_history,
            n == h@.len(),
            n >= 3,
            forall|j: int| 0 <= j < k ==> window_step(h@, j) is Some,
            forall|j: int| 0 <= j < k ==> !announces_ace(h@, player, j),
        decreases n + 1 - k,
    {
        match step_of(h, k) {
            None => {
                proof {
                    assert(!(exists|j: int| 0 <= j < k && announces_ace(h@, player, j)));
                }
                return false;
            },
            Some(x) => {
                if h[k + 2].player == player && x == 5 {
                    proof {
                        assert(announces_ace(h@, player, k as int));
                        assert forall|j: int|
                            0 <= j && j + 3 <= h@.len() && #[trigger] window_step(h@, j) is None
                                implies exists|i: int| 0 <= i < j && announces_ace(h@, player, i) by {
                            assert(j > k);
                            assert(announces_ace(h@, player, k as int));
                        }
                    }
                    return true;
                }
            },
        }
        k = k + 1;
    }
    true
}

/// The value of the game: the last bid in the history, or the opening value.
pub open spec fn last_bid(h: Seq<Action>) -> int
    decreases h.len(),
{
    if h.len() == 0 {
        OPENING_VALUE as int
    } else {
        match h.last().kind {
            ActionKind::NewBid(v) => v as int,
            _ => last_bid(h.drop_last()),
        }
    }
}

pub open spec fn increment(info: BiddingInfos) -> int {
    match info {
        BiddingInfos::Ace => 5,
        BiddingInfos::BigPair => 15,
        BiddingInfos::SmallPair => 10,
        BiddingInfos::Halves3_4 => 10,
        BiddingInfos::Halves2 => 5,
    }
}

/// The bid that tells `info` after a game value of `current`; a raise across
/// 140 costs 5 more.
pub open spec fn raised_value(current: int, info: BiddingInfos) -> int {
    let next = current + increment(info);
    if current < PAIR_THRESHOLD && next >= PAIR_THRESHOLD { next + 5 } else { next }
}

/// Items not worth telling: an ace the partner has announced already, and two
/// halves while nobody in the party has announced an ace.
pub open spec fn skipped(info: BiddingInfos, partner_ace: bool, own_ace: bool) -> bool {
    (info == BiddingInfos::Ace && partner_ace) || (info == BiddingInfos::Halves2 && !partner_ace && !own_ace)
}

pub open spec fn partner_of(seat: u8) -> u8 {
    ((seat + 2) % 4) as u8
}

/// Deciding on `info` needs the ace detector on a history it cannot read: an
/// ace or two halves ask about the partner, and two halves about the player
/// too where the partner showed no ace.
pub open spec fn blocked(info: BiddingInfos, h: Seq<Action>, own: u8) -> bool {
    let partner = partner_of(own);
    ||| (info == BiddingInfos::Ace || info == BiddingInfos::Halves2) && !readable_for(h, partner)
    ||| info == BiddingInfos::Halves2 && readable_for(h, partner) && !announced_ace(h, partner)
        && !readable_for(h, own)
}

/// The bid chosen from the queue `q` (popped from its end) for the seat
/// `own` after the history `h`, and the number of items left in the queue:
/// `Some(0)` means stop bidding, `None` that the ace detector could not read
/// the history. A bid of 140 or more is only made when the party holds a pair
/// (`secure`); past 420 bidding stops.
pub open spec fn decide(q: Seq<BiddingInfos>, h: Seq<Action>, own: u8, current: int, secure: bool) -> (
    Option<int>,
    nat,
)
    decreases q.len(),
{
    if q.len() == 0 {
        (Some(0), 0)
    } else {
        let info = q.last();
        let rest = q.drop_last();
        if blocked(info, h, own) {
            (None, rest.len())
        } else if skipped(info, announced_ace(h, partner_of(own)), announced_ace(h, own)) {
            decide(rest, h, own, current, secure)
        } else {
            let next = raised_value(current, info);
            if next > MAX_VALUE {
                (Some(0), rest.len())
            } else if next < PAIR_THRESHOLD || secure {
                (Some(next), rest.len())
            } else {
                decide(rest, h, own, current, secure)
            }
        }
    }
}

/// The queue of items to tell when a player is about to bid: on the first
/// round (fewer than four entries in the history) the hand's assessment is
/// put on top of what was queued.
pub open spec fn queue_for(queued: Seq<BiddingInfos>, h: Seq<Action>, hand: Seq<Card>) -> Seq<BiddingInfos> {
    if h.len() < 4 { queued + told_in_order(hand).reverse() } else { queued }
}

/// The decision of `next_bidding_step` for the seat `own` holding `hand`, with
/// partner's hand `partner`, the history `h` and the queue `queued`.
pub open spec fn bid_decision(
    own: u8,
    hand: Seq<Card>,
    partner: Seq<Card>,
    h: Seq<Action>,
    queued: Seq<BiddingInfos>,
) -> (Option<int>, nat) {
    decide(queue_for(queued, h, hand), h, own, last_bid(h), pairs_in(hand + partner).len() > 0)
}

/// Chooses the next bid for the player at seat `own_position`: the value to
/// bid, or 0 to stop bidding; `None` where the ace detector cannot read the
/// history at an item that needs it. Items are taken from `to_communicate`,
/// which keeps what is left to tell.
pub fn next_bidding_step(
    own_position: u8,
    hand_cards: &Vec<Card>,
    partner_cards: &Vec<Card>,
    bidding_history: &Vec<Action>,
    to_communicate: &mut Vec<BiddingInfos>,
) -> (r: Option<i32>)
    requires
        own_position < 4,
    ensures
        ({
            let q = queue_for(old(to_communicate)@, bidding_history@, hand_cards@);
            let d = bid_decision(own_position, hand_cards@, partner_cards@, bidding_history@, old(to_communicate)@);
            &&& (match r {
                Some(v) => Some(v as int),
                None => None,
            }) == d.0
            &&& final(to_communicate)@ == q.take(d.1 as int)
        }),
{
    if bidding_history.len() < 4 {
        let assessed = assess_hand(hand_cards);
        let mut i: usize = 0;
        let ghost before = to_communicate@;
        while i < assessed.len()
            invariant
                0 <= i <= assessed@.len(),
                to_communicate@ == before + assessed@.take(i as int),
            decreases assessed.len() - i,
        {
            to_communicate.push(assessed[i]);
            proof {
                assert(assessed@.take(i as int + 1) =~= assessed@.take(i as int).push(assessed@[i as int]));
            }
            i = i + 1;
        }
        proof {
            assert(assessed@.take(i as int) =~= assessed@);
        }
    }
    let ghost q = to_communicate@;
    let partner: u8 = (own_position + 2) % 4;
    let current = current_value(bidding_history);
    let mut together = copy_cards(hand_cards);
    let mut j: usize = 0;
    let ghost hand_part = together@;
    while j < partner_cards.len()
        invariant
            0 <= j <= partner_cards@.len(),
            hand_part == hand_cards@,
            together@ == hand_part + partner_cards@.take(j as int),
        decreases partner_cards.len() - j,
    {
        together.push(partner_cards[j]);
        proof {
            assert(partner_cards@.take(j as int + 1) =~= partner_cards@.take(j as int).push(
                partner_cards@[j as int],
            ));
        }
        j = j + 1;
    }
    proof {
        assert(partner_cards@.take(j as int) =~= partner_cards@);
    }
    let secure = pairs_of(&together).len() > 0;
    let ghost cur = current as int;
    let ghost h = bidding_history@;
    while to_communicate.len() > 0
        invariant
            q == queue_for(old(to_communicate)@, bidding_history@, hand_cards@),
            h == bidding_history@,
            own_position < 4,
            partner == partner_of(own_position),
            secure == (pairs_in(hand_cards@ + partner_cards@).len() > 0),
            cur == last_bid(bidding_history@),
            to_communicate@.len() <= q.len(),
            to_communicate@ == q.take(to_communicate@.len() as int),
            decide(q, h, own_position, cur, secure) == decide(to_communicate@, h, own_position, cur, secure),
            cur == current as int,
        decreases to_communicate@.len(),
    {
        let ghost before = to_communicate@;
        let info = to_communicate.pop().unwrap();
        proof {
            assert(to_communicate@ =~= before.drop_last());
            assert(q.take(to_communicate@.len() as int) =~= before.take(to_communicate@.len() as int));
        }
        if info == BiddingInfos::Ace || info == BiddingInfos::Halves2 {
            if !bidding_history_readable(bidding_history, partner) {
                return None;
            }
            let partner_ace = player_announced_ace(bidding_history, partner);
            if info == BiddingInfos::Ace && partner_ace {
                continue;
            }
            if info == BiddingInfos::Halves2 && !partner_ace {
                if !bidding_history_readable(bidding_history, own_position) {
                    return None;
                }
                if !player_announced_ace(bidding_history, own_position) {
                    continue;
                }
            }
        }
        let step: i64 = match info {
            BiddingInfos::Ace => 5,
            BiddingInfos::BigPair => 15,
            BiddingInfos::SmallPair => 10,
            BiddingInfos::Halves3_4 => 10,
            BiddingInfos::Halves2 => 5,
        };
        let mut next: i64 = current as i64 + step;
        if (current as i64) < PAIR_THRESHOLD && next >= PAIR_THRESHOLD {
            next = next + 5;
        }
        proof {
            assert(next == raised_value(cur, info));
            assert(before.last() == info);
        }
        if next > MAX_VALUE {
            return Some(0);
        }
        if next < PAIR_THRESHOLD || secure {
            return Some(next as i32);
        }
    }
    Some(0)
}

/// The game's value: the last bid in the history, or the opening value.
fn current_value(h: &Vec<Action>) -> (r: i32)
    ensures
        r as int == last_bid(h@),
{
    let mut k: usize = h.len();
    proof {
        assert(h@.take(k as int) =~= h@);
    }
    while k > 0
        invariant
            0 <= k <= h@.len(),
            last_bid(h@) == last_bid(h@.take(k as int)),
        decreases k,
    {
        proof {
            assert(h@.take(k as int).drop_last() =~= h@.take(k as int - 1));
        }
        if let ActionKind::NewBid(v) = h[k - 1].kind {
            return v;
        }
        k = k - 1;
    }
    OPENING_VALUE
}

} // verus!
