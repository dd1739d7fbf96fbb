use crate::eval_fns::EvalFn;
use crate::game::Board;
use vstd::prelude::*;

verus! {

/// The height of the topmost hole: its row counted from 1 at the bottom, or
/// 0 when the board has no hole.
pub open spec fn highest_hole_height(board: Board) -> int {
    match board.highest_hole() {
        Some(row) => row + 1,
        None => 0,
    }
}

/// The height (1-indexed row) of the topmost hole on the game board. A hole
/// is an empty cell with at least one filled cell above it. Returns 0 if
/// there are no holes.
pub struct Eval;

impl EvalFn for Eval {
    open spec fn measure(&self, board: Board) -> int {
        highest_hole_height(board)
    }

    fn eval(&self, board: &Board) -> (score: u16) {
        proof {
            board.lemma_highest_hole_below(20);
        }
        match board.highest_hole_row() {
            Some(row) => (row + 1) as u16,
            None => 0,
        }
    }
}

} // verus!
