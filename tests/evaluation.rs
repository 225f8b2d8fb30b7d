use marjapussi_cheater::evaluation::{Tally, evaluate_tally};

#[test]
fn shutout_by_playing_party_scores_three_times_the_bid() {
    let t = Tally { points: [160, 0], tricks: [9, 0], playing_party: Some(0) };
    assert_eq!(evaluate_tally(&t, 0, 150), 450);
    assert_eq!(evaluate_tally(&t, 2, 150), 450);
}

#[test]
fn shutout_against_the_playing_party() {
    // Party 1 played, party 0 took every trick.
    let t = Tally { points: [160, 0], tricks: [9, 0], playing_party: Some(1) };
    assert_eq!(evaluate_tally(&t, 1, 150), -2 * 150 - 160);
    assert_eq!(evaluate_tally(&t, 0, 150), 150 + 2 * 150);
}

#[test]
fn no_bid_scores_the_point_difference() {
    let t = Tally { points: [70, 50], tricks: [5, 4], playing_party: None };
    assert_eq!(evaluate_tally(&t, 0, 115), 20);
    assert_eq!(evaluate_tally(&t, 1, 115), -20);
}

#[test]
fn played_game_won_and_lost() {
    let won = Tally { points: [130, 30], tricks: [6, 3], playing_party: Some(0) };
    assert_eq!(evaluate_tally(&won, 0, 120), 120 - 30);
    assert_eq!(evaluate_tally(&won, 1, 120), 30 - 120);
    let lost = Tally { points: [100, 60], tricks: [6, 3], playing_party: Some(0) };
    assert_eq!(evaluate_tally(&lost, 0, 120), -120 - 60);
    assert_eq!(evaluate_tally(&lost, 1, 120), 60 + 120);
}

#[test]
fn evaluation_is_antisymmetric_without_shutout() {
    let tallies = [
        Tally { points: [80, 60], tricks: [5, 4], playing_party: None },
        Tally { points: [150, 10], tricks: [8, 1], playing_party: Some(0) },
        Tally { points: [90, 70], tricks: [4, 5], playing_party: Some(1) },
    ];
    for t in tallies.iter() {
        assert_eq!(evaluate_tally(t, 0, 140), -evaluate_tally(t, 1, 140));
        assert_eq!(evaluate_tally(t, 3, 140), -evaluate_tally(t, 2, 140));
    }
}

#[test]
fn shutout_with_opponent_points_is_doubled_loss() {
    // Party 0 played and won no trick, but the zero-trick side has points
    // from a pair.
    let t = Tally { points: [40, 160], tricks: [0, 9], playing_party: Some(0) };
    assert_eq!(evaluate_tally(&t, 0, 200), -2 * 200 - 160);
    assert_eq!(evaluate_tally(&t, 1, 200), -2 * 200 - 200);
}

#[test]
fn huge_scores_are_clamped() {
    let t = Tally { points: [0x1000_0000_0000, 0], tricks: [5, 4], playing_party: None };
    assert_eq!(evaluate_tally(&t, 0, 115), i32::MAX);
    assert_eq!(evaluate_tally(&t, 1, 115), i32::MIN);
}
