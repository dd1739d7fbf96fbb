use crate::eval_fns::EvalFn;
use crate::game::Board;
use crate::numeric::sum_range;
use vstd::prelude::*;

verus! {

/// The filled cells of each row times the row's number counted from 1 at
/// the bottom, by row.
pub open spec fn weighted_rows(board: Board) -> spec_fn(int) -> int {
    |r: int| (r + 1) * board.row_count(r)
}

/// The filled cells, each weighted by the number of its row counted from 1
/// at the bottom.
pub open spec fn weighted_blocks(board: Board) -> int {
    sum_range(0, 20, weighted_rows(board))
}

/// The number of filled cells, a cell in the n-th row from the bottom
/// counting n times.
pub struct WeightedBlocks;

impl EvalFn for WeightedBlocks {
    open spec fn measure(&self, board: Board) -> int {
        weighted_blocks(board)
    }

    fn eval(&self, board: &Board) -> (score: u16) {
        let mut total: u32 = 0;
        let mut row: usize = 0;
        while row < 20
            invariant
                row <= 20,
                total <= 200 * row,
                total == sum_range(0, row as int, weighted_rows(*board)),
            decreases 20 - row,
        {
            let in_row = board.row_cells(row);
            let weight: u32 = (row + 1) as u32;
            assert(weight * in_row <= 200 && weight * in_row == (row + 1) * board.row_count(
                row as int,
            )) by (nonlinear_arith)
                requires
                    1 <= weight <= 20,
                    weight == row + 1,
                    0 <= in_row <= 10,
                    in_row == board.row_count(row as int),
            ;
            total += weight * in_row;
            row += 1;
        }
        total as u16
    }
}

} // verus!
