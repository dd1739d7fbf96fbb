use crate::eval_fns::ef06_max_well_depth::{calculate_well_depth, well_depths};
use crate::eval_fns::EvalFn;
use crate::game::Board;
use crate::numeric::sum_range;
use vstd::prelude::*;

verus! {

/// The depths of all wells, added up.
pub open spec fn sum_of_wells(board: Board) -> int {
    sum_range(0, 10, well_depths(board))
}

/// The sum of the depths of all wells on the board.
pub struct SumOfWells;

impl EvalFn for SumOfWells {
    open spec fn measure(&self, board: Board) -> int {
        sum_of_wells(board)
    }

    fn eval(&self, board: &Board) -> (score: u16) {
        let mut total: u16 = 0;
        let mut col: usize = 0;
        while col < 10
            invariant
                col <= 10,
                total <= 20 * col,
                total == sum_range(0, col as int, well_depths(*board)),
            decreases 10 - col,
        {
            total += calculate_well_depth(board, col);
            col += 1;
        }
        total
    }
}

} // verus!
