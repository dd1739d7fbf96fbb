use crate::eval_fns::EvalFn;
use crate::game::Board;
use vstd::prelude::*;

verus! {

/// The number of filled cells on the board.
pub struct Blocks;

impl EvalFn for Blocks {
    open spec fn measure(&self, board: Board) -> int {
        board.count()
    }

    fn eval(&self, board: &Board) -> (score: u16) {
        board.cell_count() as u16
    }
}

} // verus!
