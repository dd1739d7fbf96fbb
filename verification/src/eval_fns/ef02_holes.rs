use crate::eval_fns::EvalFn;
use crate::game::Board;
use crate::numeric::sum_range;
use vstd::prelude::*;

verus! {

/// 1 for a hole in `row`, 0 for any other cell, by column.
pub open spec fn hole_indicator(board: Board, row: int) -> spec_fn(int) -> int {
    |c: int| if board.is_hole(row, c) { 1int } else { 0int }
}

/// Number of holes in each row, by row.
pub open spec fn holes_by_row(board: Board) -> spec_fn(int) -> int {
    |r: int| sum_range(0, 10, hole_indicator(board, r))
}

/// Number of holes on the board: empty cells with a filled cell somewhere
/// above them in the same column.
pub open spec fn holes(board: Board) -> int {
    sum_range(0, 20, holes_by_row(board))
}

/// The number of all gaps with at least one occupied cell above them.
pub struct Eval;

impl EvalFn for Eval {
    open spec fn measure(&self, board: Board) -> int {
        holes(board)
    }

    fn eval(&self, board: &Board) -> (score: u16) {
        let mut total: u16 = 0;
        let mut row: usize = 0;
        while row < 20
            invariant
                row <= 20,
                total <= 10 * row,
                total == sum_range(0, row as int, holes_by_row(*board)),
            decreases 20 - row,
        {
            let mut in_row: u16 = 0;
            let mut col: usize = 0;
            while col < 10
                invariant
                    col <= 10,
                    row < 20,
                    in_row <= col,
                    in_row == sum_range(0, col as int, hole_indicator(*board, row as int)),
                decreases 10 - col,
            {
                if !board.cells[row][col] && board.has_filled_above(row, col) {
                    in_row += 1;
                }
                col += 1;
            }
            total += in_row;
            row += 1;
        }
        total
    }
}

} // verus!
