use marjapussi_cheater::alpha_beta::alpha_beta_search;
use marjapussi_cheater::tree::{Branch, TreeNode};

/// Scores of the example tree of height 4, in breadth-first order. Inner nodes
/// score 0; the leaves that alpha-beta prunes score `i32::MIN`.
fn example_scores() -> Vec<i32> {
    let mut scores = vec![0; 15];
    scores.extend(vec![
        8,
        5,
        6,
        -4,
        3,
        8,
        4,
        -6,
        1,
        i32::MIN,
        5,
        2,
        i32::MIN,
        i32::MIN,
        i32::MIN,
        i32::MIN,
    ]);
    scores
}

#[test]
fn test_alpha_beta() {
    let scores = example_scores();
    let start_state = TreeNode::root(&scores, 4);
    let chosen_move = alpha_beta_search(&start_state, None).best_move;
    assert!(matches!(chosen_move, Branch::Left));
}

#[test]
fn alpha_beta_value_and_pruning_on_example_tree() {
    let scores = example_scores();
    let start_state = TreeNode::root(&scores, 4);
    let result = alpha_beta_search(&start_state, None);
    assert_eq!(result.best_move, Branch::Left);
    assert_eq!(result.value, 3);
    // 11 of the 16 leaves are scored; a full minimax would score all 16.
    assert_eq!(result.stats.evaluations, 11);
    assert_eq!(result.stats.nodes, 22);
    // 11 nodes were expanded, each listing two moves.
    assert_eq!(result.stats.children, 22);
}

#[test]
fn depth_bound_scores_cut_off_nodes_directly() {
    // Height 4, but searched 2 plies deep: the nodes at depth 2 (indices 3 to
    // 6) are scored; every deeper node would score i32::MIN.
    let mut scores = vec![0, 0, 0, 7, 2, 9, 1];
    scores.extend(vec![i32::MIN; 24]);
    let start_state = TreeNode::root(&scores, 4);
    let result = alpha_beta_search(&start_state, Some(2));
    assert_eq!(result.best_move, Branch::Left);
    assert_eq!(result.value, 2);
    assert_eq!(result.stats.evaluations, 4);
    assert_eq!(result.stats.nodes, 6);
    assert_eq!(result.stats.children, 4);
}

#[test]
fn first_of_equal_moves_wins() {
    let scores = vec![0, 4, 4];
    let start_state = TreeNode::root(&scores, 1);
    let result = alpha_beta_search(&start_state, None);
    assert_eq!(result.best_move, Branch::Left);
    assert_eq!(result.value, 4);
}

#[test]
fn later_better_move_is_chosen() {
    let scores = vec![0, -3, 10];
    let start_state = TreeNode::root(&scores, 1);
    let result = alpha_beta_search(&start_state, Some(5));
    assert_eq!(result.best_move, Branch::Right);
    assert_eq!(result.value, 10);
}

#[test]
fn minimising_player_picks_the_lower_child() {
    // Root (max) -> two min nodes with leaves (9, 1) and (4, 6): min values
    // 1 and 4, so the right move with value 4 is best.
    let scores = vec![0, 0, 0, 9, 1, 4, 6];
    let start_state = TreeNode::root(&scores, 2);
    let result = alpha_beta_search(&start_state, None);
    assert_eq!(result.best_move, Branch::Right);
    assert_eq!(result.value, 4);
}
