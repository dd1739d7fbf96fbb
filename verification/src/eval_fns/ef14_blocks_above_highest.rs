use crate::eval_fns::EvalFn;
use crate::game::Board;
use crate::numeric::sum_range;
use vstd::prelude::*;

verus! {

/// The filled cells in the rows above the topmost hole; 0 when the board
/// has no hole.
pub open spec fn blocks_above_highest(board: Board) -> int {
    match board.highest_hole() {
        Some(row) => sum_range(row + 1, 20, board.row_counts()),
        None => 0,
    }
}

/// The number of filled cells above the highest hole. Returns 0 if there
/// are no holes.
pub struct BlocksAboveHighest;

impl EvalFn for BlocksAboveHighest {
    open spec fn measure(&self, board: Board) -> int {
        blocks_above_highest(board)
    }

    fn eval(&self, board: &Board) -> (score: u16) {
        proof {
            board.lemma_highest_hole_below(20);
        }
        let hole_row = match board.highest_hole_row() {
            Some(row) => row,
            None => {
                return 0;
            },
        };
        let mut count: u16 = 0;
        let mut row: usize = hole_row + 1;
        while row < 20
            invariant
                hole_row < row <= 20,
                count <= 10 * (row - hole_row - 1),
                count == sum_range(hole_row + 1, row as int, board.row_counts()),
            decreases 20 - row,
        {
            count += board.row_cells(row) as u16;
            row += 1;
        }
        count
    }
}

} // verus!
