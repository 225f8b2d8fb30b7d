//! A complete binary game tree with a stored score for every node, used to
//! exercise and measure the search on known trees.

use vstd::prelude::*;
use crate::alpha_beta::State;

verus! {

/// The two moves of a binary tree.
#[derive(Clone, Copy, Debug, PartialEq, Eq, Structural)]
pub enum Branch {
    Left,
    Right,
}

/// A node of a complete binary tree of height `height`. Nodes are numbered in
/// breadth-first order (root 0, children of `k` at `2k + 1` and `2k + 2`) and
/// `scores[k]` is the score of node `k`; a node without a stored score scores 0.
/// Players alternate, the maximising one acting at even depths.
#[derive(Clone, Copy)]
pub struct TreeNode<'a> {
    pub scores: &'a Vec<i32>,
    pub index: usize,
    pub depth: u32,
    pub height: u32,
}

impl<'a> TreeNode<'a> {
    /// The root of a tree of the given height.
    pub fn root(scores: &'a Vec<i32>, height: u32) -> (r: TreeNode<'a>)
        ensures
            r.scores == scores,
            r.index == 0,
            r.depth == 0,
            r.height == height,
    {
        TreeNode { scores, index: 0, depth: 0, height }
    }

    pub open spec fn child_index(&self, m: Branch) -> int {
        match m {
            Branch::Left => 2 * self.index + 1,
            Branch::Right => 2 * self.index + 2,
        }
    }
}

impl<'a> State<Branch> for TreeNode<'a> {
    open spec fn moves_spec(&self) -> Seq<Branch> {
        if self.depth < self.height { seq![Branch::Left, Branch::Right] } else { seq![] }
    }

    open spec fn child_spec(&self, m: Branch) -> Option<TreeNode<'a>> {
        if self.depth < self.height && 2 * self.index + 2 <= usize::MAX {
            Some(TreeNode {
                scores: self.scores,
                index: self.child_index(m) as usize,
                depth: (self.depth + 1) as u32,
                height: self.height,
            })
        } else {
            None
        }
    }

    open spec fn leaf_spec(&self) -> bool {
        self.depth >= self.height
    }

    open spec fn maximizing_spec(&self) -> bool {
        self.depth % 2 == 0
    }

    open spec fn value_spec(&self) -> i32 {
        if self.index < self.scores@.len() { self.scores@[self.index as int] } else { 0 }
    }

    open spec fn modelled(&self) -> bool {
        true
    }

    fn legal_moves(&self) -> (r: Vec<Branch>) {
        if self.depth < self.height {
            let r = vec![Branch::Left, Branch::Right];
            proof {
                assert(r@ =~= seq![Branch::Left, Branch::Right]);
            }
            r
        } else {
            Vec::new()
        }
    }

    fn apply_move(&self, next_move: &Branch) -> (r: Option<TreeNode<'a>>) {
        if self.depth >= self.height || self.index > (usize::MAX - 2) / 2 {
            return None;
        }
        let index = match next_move {
            Branch::Left => 2 * self.index + 1,
            Branch::Right => 2 * self.index + 2,
        };
        Some(TreeNode { scores: self.scores, index, depth: self.depth + 1, height: self.height })
    }

    fn is_leaf(&self) -> (r: bool) {
        self.depth >= self.height
    }

    fn is_maximizing(&self) -> (r: bool) {
        self.depth % 2 == 0
    }

    fn evaluate(&self) -> (r: i32) {
        if self.index < self.scores.len() {
            self.scores[self.index]
        } else {
            0
        }
    }
}

} // verus!
