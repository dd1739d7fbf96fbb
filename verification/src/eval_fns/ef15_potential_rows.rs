use crate::eval_fns::EvalFn;
use crate::game::Board;
use crate::numeric::sum_range;
use vstd::prelude::*;

verus! {

/// 1 for a row with more than 8 of its 10 cells filled, 0 for any other
/// row.
pub open spec fn nearly_full_indicator(board: Board) -> spec_fn(int) -> int {
    |r: int| if board.row_count(r) > 8 { 1int } else { 0int }
}

/// The rows above the topmost hole with more than 8 cells filled; 0 when
/// the board has no hole.
pub open spec fn potential_rows(board: Board) -> int {
    match board.highest_hole() {
        Some(row) => sum_range(row + 1, 20, nearly_full_indicator(board)),
        None => 0,
    }
}

/// The number of rows located above the highest hole that have more than 8
/// filled cells: rows close to being cleared, but trapped above a hole.
pub struct PotentialRows;

impl EvalFn for PotentialRows {
    open spec fn measure(&self, board: Board) -> int {
        potential_rows(board)
    }

    fn eval(&self, board: &Board) -> (score: u16) {
        proof {
            board.lemma_highest_hole_below(20);
        }
        let hole_row = match board.highest_hole_row() {
            Some(row) => row,
            None => {
                return 0;
            },
        };
        let mut count: u16 = 0;
        let mut row: usize = hole_row + 1;
        while row < 20
            invariant
                hole_row < row <= 20,
                count <= row - hole_row - 1,
                count == sum_range(hole_row + 1, row as int, nearly_full_indicator(*board)),
            decreases 20 - row,
        {
            if board.row_cells(row) > 8 {
                count += 1;
            }
            row += 1;
        }
        count
    }
}

} // verus!
