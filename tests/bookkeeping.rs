use marjapussi_cheater::bookkeeping::{advance_tally, count_tally, join_hands, position_of};
use marjapussi_cheater::model::{
    Action, ActionKind, Answer, Callback, Card, EventRecord, Suit, TrickRecord, Value,
};

fn event(kind: ActionKind, player: u8, callback: Option<Callback>) -> EventRecord {
    EventRecord { action: Action { kind, player }, callback }
}

fn card(suit: Suit, value: Value) -> Card {
    Card { suit, value }
}

#[test]
fn count_tally_adds_tricks_pairs_and_playing_party() {
    let tricks = vec![
        TrickRecord { winner: 0, points: 20 },
        TrickRecord { winner: 3, points: 15 },
        TrickRecord { winner: 2, points: 11 },
    ];
    let events = vec![
        event(ActionKind::NewBid(120), 1, None),
        event(ActionKind::NewBid(125), 2, None),
        event(ActionKind::StopBidding, 3, None),
        event(ActionKind::AnnounceTrump(Suit::Red), 2, Some(Callback::NewTrump(Suit::Red))),
        event(
            ActionKind::Answer(Answer::YesPair(Suit::Green)),
            1,
            Some(Callback::NewTrump(Suit::Green)),
        ),
    ];
    let t = count_tally(&tricks, &events, 125).unwrap();
    assert_eq!(t.points, [20 + 11 + 100, 15 + 40]);
    assert_eq!(t.tricks, [2, 1]);
    assert_eq!(t.playing_party, Some(0));
    let none_played = count_tally(&tricks, &events, 300).unwrap();
    assert_eq!(none_played.playing_party, None);
}

#[test]
fn pair_values_by_suit() {
    let suits = [(Suit::Red, 100), (Suit::Bells, 80), (Suit::Acorns, 60), (Suit::Green, 40)];
    for (s, v) in suits.iter() {
        let events = vec![event(ActionKind::AnnounceTrump(*s), 1, Some(Callback::NewTrump(*s)))];
        let t = count_tally(&vec![], &events, 115).unwrap();
        assert_eq!(t.points, [0, *v]);
    }
}

#[test]
fn last_trick_bonus_after_nine_tricks() {
    let mut tricks = vec![TrickRecord { winner: 1, points: 10 }; 8];
    tricks.push(TrickRecord { winner: 2, points: 4 });
    let t = count_tally(&tricks, &vec![], 115).unwrap();
    assert_eq!(t.points, [4 + 20, 80]);
    assert_eq!(t.tricks, [1, 8]);
}

#[test]
fn incremental_update_matches_recount() {
    let mut tricks = vec![TrickRecord { winner: 0, points: 14 }; 7];
    let mut events = vec![
        event(ActionKind::NewBid(140), 3, None),
        event(ActionKind::AnnounceTrump(Suit::Bells), 3, Some(Callback::NewTrump(Suit::Bells))),
    ];
    let before = count_tally(&tricks, &events, 140).unwrap();

    // A card that finishes the eighth trick.
    let step = event(ActionKind::CardPlayed(card(Suit::Red, Value::Ace)), 1, None);
    let trick = TrickRecord { winner: 1, points: 25 };
    let after = advance_tally(&before, &step, Some(trick), false).unwrap();
    tricks.push(trick);
    events.push(step);
    let recount = count_tally(&tricks, &events, 140).unwrap();
    assert_eq!(after.points, recount.points);
    assert_eq!(after.tricks, recount.tricks);
    assert_eq!(after.playing_party, recount.playing_party);

    // An announced pair, no trick finished.
    let step = event(ActionKind::AnnounceTrump(Suit::Acorns), 0, Some(Callback::NewTrump(Suit::Acorns)));
    let after2 = advance_tally(&after, &step, None, false).unwrap();
    events.push(step);
    let recount = count_tally(&tricks, &events, 140).unwrap();
    assert_eq!(after2.points, recount.points);

    // The last trick ends the deal.
    let step = event(ActionKind::CardPlayed(card(Suit::Green, Value::Six)), 2, None);
    let trick = TrickRecord { winner: 2, points: 3 };
    let after3 = advance_tally(&after2, &step, Some(trick), true).unwrap();
    tricks.push(trick);
    events.push(step);
    let recount = count_tally(&tricks, &events, 140).unwrap();
    assert_eq!(after3.points, recount.points);
    assert_eq!(after3.tricks, recount.tricks);
    assert_eq!(after3.points, [7 * 14 + 60 + 3 + 20, 80 + 25]);
}

#[test]
fn played_card_leaves_the_pool() {
    let hands = vec![
        vec![card(Suit::Red, Value::Ace), card(Suit::Green, Value::Six)],
        vec![card(Suit::Bells, Value::Ten)],
        vec![],
        vec![card(Suit::Acorns, Value::King)],
    ];
    let mut pool = join_hands(&hands);
    assert_eq!(pool.len(), 4);
    let i = position_of(&pool, card(Suit::Bells, Value::Ten)).unwrap();
    assert_eq!(i, 2);
    pool.remove(i);
    assert_eq!(position_of(&pool, card(Suit::Bells, Value::Ten)), None);
    assert_eq!(pool[2], card(Suit::Acorns, Value::King));
}
