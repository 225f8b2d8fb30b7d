use marjapussi::game::Game;
use marjapussi::game::cards::Card as MCard;
use marjapussi::game::gamestate::GamePhase;
use marjapussi::game::player::PlaceAtTable;
use marjapussi_cheater::ai::MarjapussiCheater;
use marjapussi_cheater::alpha_beta::{State, alpha_beta_search};
use marjapussi_cheater::cheater::{CheaterV1, drop_undo_requests, pick_bid};
use marjapussi_cheater::ai::AgentError;
use marjapussi_cheater::model::{Action, ActionKind, Answer, Callback, EventRecord, Question, Suit};
use marjapussi_cheater::search_state::{
    AlphaBetaGameState, advance_bookkeeping, is_searchable_phase, question_is_useless,
};
use marjapussi_cheater::evaluation::Tally;
use marjapussi_cheater::model::{Card, Phase, TrickRecord, Value};

fn hand(cards: &[&str]) -> Vec<MCard> {
    cards.iter().map(|c| c.parse().unwrap()).collect()
}

fn deal() -> [Vec<MCard>; 4] {
    [
        hand(&["r-O", "r-K", "g-A", "g-Z", "g-9", "s-6", "s-7", "e-6", "e-7"]),
        hand(&["r-A", "r-Z", "r-U", "r-9", "r-8", "r-7", "r-6", "s-A", "s-Z"]),
        hand(&["s-K", "s-O", "s-U", "s-9", "s-8", "g-K", "g-O", "g-U", "g-8"]),
        hand(&["e-A", "e-Z", "e-K", "e-O", "e-U", "e-9", "e-8", "g-7", "g-6"]),
    ]
}

fn new_game() -> Game {
    let names = ["S1".to_string(), "S2".to_string(), "S3".to_string(), "S4".to_string()];
    Game::new(String::from("Search"), names, Some(deal()))
}

/// A deal set straight into the card play, seat 0 to lead.
fn game_in_play() -> Game {
    let mut game = new_game();
    game.state.started = true;
    game.state.phase = GamePhase::StartTrick;
    game.state.player_at_turn = PlaceAtTable(0);
    game.legal_actions = game.legal_actions();
    game
}

fn answer_event(answer: Answer, callback: Option<Callback>) -> EventRecord {
    EventRecord { action: Action { kind: ActionKind::Answer(answer), player: 2 }, callback }
}

#[test]
fn forced_answer_without_new_trump_makes_a_useless_question() {
    let no_pair = answer_event(Answer::NoPair, None);
    assert!(question_is_useless(1, &Some(no_pair.clone())));
    assert!(!question_is_useless(2, &Some(no_pair)));
    assert!(!question_is_useless(3, &None));
    let pair = answer_event(Answer::YesPair(Suit::Red), Some(Callback::NewTrump(Suit::Red)));
    assert!(!question_is_useless(1, &Some(pair)));
    let half = answer_event(Answer::YesHalf(Suit::Green), Some(Callback::NewTrump(Suit::Green)));
    assert!(!question_is_useless(1, &Some(half)));
    let half_no_trump = answer_event(Answer::YesHalf(Suit::Green), Some(Callback::OnlyHalf(Suit::Green)));
    assert!(question_is_useless(1, &Some(half_no_trump)));
    // Only a new trump makes the one answer worth searching.
    let pair_no_trump = answer_event(Answer::YesPair(Suit::Red), None);
    assert!(question_is_useless(1, &Some(pair_no_trump)));
}

#[test]
fn undo_requests_are_dropped() {
    let actions = vec![
        Action { kind: ActionKind::UndoRequest, player: 1 },
        Action { kind: ActionKind::Question(Question::Yours), player: 0 },
        Action { kind: ActionKind::UndoRequest, player: 0 },
        Action { kind: ActionKind::StopBidding, player: 0 },
    ];
    let kept = drop_undo_requests(actions);
    assert_eq!(kept.len(), 2);
    assert!(matches!(kept[0].kind, ActionKind::Question(Question::Yours)));
    assert!(matches!(kept[1].kind, ActionKind::StopBidding));
}

#[test]
fn bid_is_found_among_legal_actions() {
    let legal = vec![
        Action { kind: ActionKind::StopBidding, player: 2 },
        Action { kind: ActionKind::NewBid(120), player: 2 },
        Action { kind: ActionKind::NewBid(125), player: 2 },
    ];
    let a = pick_bid(legal.clone(), 125).unwrap();
    assert!(matches!(a.kind, ActionKind::NewBid(125)));
    let a = pick_bid(legal.clone(), 0).unwrap();
    assert!(matches!(a.kind, ActionKind::StopBidding));
    assert_eq!(pick_bid(legal, 130).unwrap_err(), AgentError::BidNotAvailable);
}

#[test]
fn search_node_from_a_game_in_play() {
    let node = AlphaBetaGameState::new(0, game_in_play()).unwrap();
    assert!(node.is_maximizing());
    assert!(!node.is_leaf());
    assert!(node.moves().len() > 0);
    for a in node.moves().iter() {
        assert_eq!(a.player, 0);
        assert!(!matches!(a.kind, ActionKind::UndoRequest | ActionKind::NewBid(_)));
    }
    // Nothing is played yet and no one has bid: the score is even.
    assert_eq!(node.evaluate(), 0);
    let result = alpha_beta_search(&node, Some(2));
    assert!(result.best_move < node.moves().len());
    assert!(result.stats.nodes > 0);
}

#[test]
fn cheater_plays_a_legal_action() {
    let game = game_in_play();
    let mut agent = CheaterV1::new("cheater", 0, 2);
    let action = agent.select_action(game).unwrap();
    assert_eq!(action.player, 0);
    assert!(!matches!(action.kind, ActionKind::UndoRequest | ActionKind::NewBid(_)));
}

fn same_cards(a: &[marjapussi_cheater::model::Card], b: &[marjapussi_cheater::model::Card]) -> bool {
    a.len() == b.len()
        && a.iter().all(|c| a.iter().filter(|d| *d == c).count() == b.iter().filter(|d| *d == c).count())
}

#[test]
fn incremental_bookkeeping_matches_recount_over_a_deal() {
    let mut node = AlphaBetaGameState::new(1, game_in_play()).unwrap();
    let mut steps = 0;
    while !node.is_leaf() {
        assert!(steps < 200);
        let moves = node.legal_moves();
        assert!(!moves.is_empty());
        // Play the last searched move, so that questions and trumps occur too.
        let child = node.apply_move(moves.last().unwrap()).unwrap();
        if !child.is_leaf() {
            let recount = AlphaBetaGameState::new(1, child.game().clone()).unwrap();
            assert_eq!(child.tally().points, recount.tally().points);
            assert_eq!(child.tally().tricks, recount.tally().tricks);
            assert_eq!(child.tally().playing_party, recount.tally().playing_party);
            assert!(same_cards(child.remaining_cards(), recount.remaining_cards()));
        } else {
            // The deal is over: nine tricks, every card played.
            let t = child.tally();
            assert_eq!(t.tricks[0] + t.tricks[1], 9);
            assert!(child.remaining_cards().is_empty());
        }
        node = child;
        steps += 1;
    }
    assert!(steps >= 36);
}

#[test]
fn cheater_bids_what_its_hand_tells() {
    let mut game = new_game();
    for _ in 0..4 {
        let start = game.legal_actions.last().unwrap().clone();
        game = game.apply_action(start).unwrap();
    }
    assert_eq!(game.state.phase, GamePhase::Bidding);
    let seat = game.state.player_at_turn.0;
    let mut agent = CheaterV1::new("bidder", seat, 2);
    let action = agent.select_action(game).unwrap();
    assert_eq!(action.player, seat);
    // Seat 2 holds two pairs and no ace: the bells pair is told first (+15).
    // Every other seat holds an ace, told first (+5).
    let expected = if seat == 2 { 130 } else { 120 };
    assert!(matches!(action.kind, ActionKind::NewBid(v) if v == expected));
}

#[test]
fn bookkeeping_follows_a_step() {
    let ace = Card { suit: Suit::Red, value: Value::Ace };
    let six = Card { suit: Suit::Green, value: Value::Six };
    let pool = vec![six, ace, ace];
    let t = Tally { points: [10, 20], tricks: [1, 1], playing_party: Some(1) };
    let played = EventRecord { action: Action { kind: ActionKind::CardPlayed(ace), player: 3 }, callback: None };
    let trick = TrickRecord { winner: 3, points: 25 };
    let (pool2, t2) =
        advance_bookkeeping(&pool, &t, Some(played.clone()), Phase::StartTrick, Some(trick)).unwrap();
    assert_eq!(pool2, vec![six, ace]);
    assert_eq!(t2.points, [10, 45]);
    assert_eq!(t2.tricks, [1, 2]);
    assert_eq!(t2.playing_party, Some(1));
    // Mid-trick: no trick is credited.
    let (_, t3) = advance_bookkeeping(&pool, &t, Some(played.clone()), Phase::Trick, None).unwrap();
    assert_eq!(t3.points, [10, 20]);
    // Failures: no event, a card not in the pool, a finished trick not shown.
    assert!(advance_bookkeeping(&pool, &t, None, Phase::Trick, None).is_none());
    assert!(advance_bookkeeping(&vec![six], &t, Some(played.clone()), Phase::Trick, None).is_none());
    assert!(advance_bookkeeping(&pool, &t, Some(played), Phase::Ended, None).is_none());
}

#[test]
fn cheater_reports_a_game_it_cannot_read() {
    let mut game = game_in_play();
    game.state.player_at_turn = PlaceAtTable(7);
    let mut agent = CheaterV1::new("cheater", 0, 2);
    assert_eq!(agent.select_action(game).unwrap_err(), AgentError::GameNotReady);
}

#[test]
fn searchable_phases_are_the_card_play_and_raising() {
    assert!(is_searchable_phase(Phase::StartTrick));
    assert!(is_searchable_phase(Phase::Trick));
    assert!(is_searchable_phase(Phase::Raising));
    assert!(is_searchable_phase(Phase::AnsweringPair));
    assert!(!is_searchable_phase(Phase::Bidding));
    assert!(!is_searchable_phase(Phase::PassingForth));
    assert!(!is_searchable_phase(Phase::WaitingForStart));
    assert!(!is_searchable_phase(Phase::Ended));
}
