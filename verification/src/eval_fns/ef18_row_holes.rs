use crate::eval_fns::EvalFn;
use crate::game::Board;
use crate::numeric::sum_range;
use vstd::prelude::*;

verus! {

/// 1 for a row that holds a hole, 0 for a row without one.
pub open spec fn holed_row_indicator(board: Board) -> spec_fn(int) -> int {
    |r: int| if board.row_has_hole(r) { 1int } else { 0int }
}

/// The number of rows that hold at least one hole. The top row never does.
pub open spec fn row_holes(board: Board) -> int {
    sum_range(0, 19, holed_row_indicator(board))
}

/// The number of rows that contain at least one hole. A hole is an empty
/// cell with at least one filled cell above it.
pub struct RowHoles;

impl EvalFn for RowHoles {
    open spec fn measure(&self, board: Board) -> int {
        row_holes(board)
    }

    fn eval(&self, board: &Board) -> (score: u16) {
        let mut count: u16 = 0;
        let mut row: usize = 0;
        while row < 19
            invariant
                row <= 19,
                count <= row,
                count == sum_range(0, row as int, holed_row_indicator(*board)),
            decreases 19 - row,
        {
            if board.has_hole_in_row(row) {
                count += 1;
            }
            row += 1;
        }
        count
    }
}

} // verus!
