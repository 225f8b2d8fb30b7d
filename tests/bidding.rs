use marjapussi_cheater::bidding::{
    BiddingInfos, assess_hand, bidding_history_readable, next_bidding_step, player_announced_ace,
};
use marjapussi_cheater::model::{Action, ActionKind, Card, Suit, Value};

fn card(suit: Suit, value: Value) -> Card {
    Card { suit, value }
}

fn bid(v: i32, player: u8) -> Action {
    Action { kind: ActionKind::NewBid(v), player }
}

fn stop(player: u8) -> Action {
    Action { kind: ActionKind::StopBidding, player }
}

/// One ace, the red pair, and single halves in three other suits.
fn strong_hand() -> Vec<Card> {
    vec![
        card(Suit::Green, Value::Ace),
        card(Suit::Red, Value::Ober),
        card(Suit::Red, Value::King),
        card(Suit::Acorns, Value::Ober),
        card(Suit::Bells, Value::King),
        card(Suit::Green, Value::Ober),
        card(Suit::Green, Value::Six),
        card(Suit::Acorns, Value::Seven),
        card(Suit::Bells, Value::Eight),
    ]
}

#[test]
fn assess_hand_orders_ace_pair_halves() {
    let items = assess_hand(&strong_hand());
    // Popped from the end: the ace first, then the pair, then the halves.
    assert_eq!(items, vec![BiddingInfos::Halves3_4, BiddingInfos::BigPair, BiddingInfos::Ace]);
}

#[test]
fn assess_hand_pairs_strongest_first_and_two_halves() {
    let hand = vec![
        card(Suit::Green, Value::Ober),
        card(Suit::Green, Value::King),
        card(Suit::Bells, Value::Ober),
        card(Suit::Bells, Value::King),
        card(Suit::Acorns, Value::King),
        card(Suit::Red, Value::Ober),
        card(Suit::Red, Value::Six),
        card(Suit::Acorns, Value::Ten),
        card(Suit::Green, Value::Nine),
    ];
    let items = assess_hand(&hand);
    assert_eq!(items, vec![BiddingInfos::Halves2, BiddingInfos::SmallPair, BiddingInfos::BigPair]);
}

#[test]
fn assess_hand_of_nothing() {
    let hand = vec![card(Suit::Green, Value::Six), card(Suit::Red, Value::Seven)];
    assert_eq!(assess_hand(&hand), vec![]);
}

#[test]
fn first_bid_tells_the_ace() {
    let mut queue = vec![];
    let partner = vec![card(Suit::Red, Value::Six)];
    let step = next_bidding_step(0, &strong_hand(), &partner, &vec![], &mut queue);
    assert_eq!(step, Some(120));
    assert_eq!(queue, vec![BiddingInfos::Halves3_4, BiddingInfos::BigPair]);
}

#[test]
fn second_bid_tells_the_pair_across_140() {
    // After 120 the pair adds 15; crossing 140 costs 5 more. The party holds
    // a pair (the red one), so 140 may be passed.
    let mut queue = vec![BiddingInfos::Halves3_4, BiddingInfos::BigPair];
    let history = vec![bid(120, 0), stop(1), bid(130, 2), bid(135, 3)];
    let partner = vec![card(Suit::Red, Value::Six)];
    let step = next_bidding_step(0, &strong_hand(), &partner, &history, &mut queue);
    assert_eq!(step, Some(155));
    assert_eq!(queue, vec![BiddingInfos::Halves3_4]);
}

#[test]
fn no_bid_over_140_without_a_pair() {
    let hand = vec![card(Suit::Green, Value::Ace)];
    let partner = vec![card(Suit::Red, Value::Six)];
    let mut queue = vec![BiddingInfos::Ace, BiddingInfos::SmallPair];
    let history = vec![bid(130, 1), bid(135, 2), stop(3)];
    let step = next_bidding_step(0, &hand, &partner, &history, &mut queue);
    // On the first round the hand's ace is queued on top; every item would
    // reach 140 or more, and nobody in the party holds a pair.
    assert_eq!(step, Some(0));
    assert_eq!(queue, vec![]);
}

#[test]
fn stop_past_the_highest_value() {
    let hand = vec![card(Suit::Red, Value::Ober), card(Suit::Red, Value::King)];
    let mut queue = vec![BiddingInfos::Halves3_4, BiddingInfos::BigPair];
    let history = vec![bid(395, 1), stop(2), stop(3), bid(410, 1)];
    let step = next_bidding_step(0, &hand, &vec![], &history, &mut queue);
    assert_eq!(step, Some(0));
    assert_eq!(queue, vec![BiddingInfos::Halves3_4]);
}

#[test]
fn partner_ace_is_not_told_again() {
    // Seat 2 raised from 120 to 125: read as an ace. Seat 0's own ace is
    // skipped, and its two halves are told since the party has an ace.
    let history = vec![bid(120, 0), stop(1), bid(125, 2), stop(3)];
    assert!(player_announced_ace(&history, 2));
    assert!(!player_announced_ace(&history, 0));
    let mut queue = vec![BiddingInfos::Halves2, BiddingInfos::Ace];
    let step = next_bidding_step(0, &vec![], &vec![], &history, &mut queue);
    assert_eq!(step, Some(130));
    assert_eq!(queue, vec![]);
}

#[test]
fn two_halves_wait_for_an_ace() {
    let mut queue = vec![BiddingInfos::Halves2];
    let history = vec![stop(1), bid(130, 2), stop(3)];
    let step = next_bidding_step(0, &vec![], &vec![], &history, &mut queue);
    assert_eq!(step, Some(0));
}

#[test]
fn ace_detector_reads_windows() {
    let history = vec![bid(120, 0), bid(125, 1), stop(2), bid(130, 3)];
    assert!(player_announced_ace(&history, 3));
    assert!(!player_announced_ace(&history, 0));
    assert!(!player_announced_ace(&history, 1));
    assert!(!player_announced_ace(&history, 2));
    assert!(!player_announced_ace(&vec![bid(125, 0)], 0));
}

#[test]
fn unreadable_history_is_reported() {
    let history = vec![stop(0), stop(1), stop(2), bid(130, 3)];
    assert!(!bidding_history_readable(&history, 3));
    assert!(bidding_history_readable(&vec![bid(120, 0), stop(1)], 0));
}

#[test]
fn unreadable_history_stops_at_an_ace_item() {
    // Three passes before a bid cannot be read; an ace item needs the reading.
    let history = vec![stop(0), stop(1), stop(2), bid(130, 3)];
    let mut queue = vec![BiddingInfos::Ace];
    assert_eq!(next_bidding_step(1, &vec![], &vec![], &history, &mut queue), None);
    assert_eq!(queue, vec![]);
    // A pair item does not need it.
    let mut queue = vec![BiddingInfos::SmallPair];
    assert_eq!(next_bidding_step(1, &vec![], &vec![], &history, &mut queue), Some(0));
}
