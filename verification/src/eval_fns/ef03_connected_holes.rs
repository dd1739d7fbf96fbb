use crate::eval_fns::EvalFn;
use crate::game::Board;
use crate::numeric::sum_range;
use vstd::prelude::*;

verus! {

/// 1 for an empty cell of `col` that lies directly under a filled one, 0 for
/// any other cell, by row. Such a cell is the top of a run of holes.
pub open spec fn run_top_indicator(board: Board, col: int) -> spec_fn(int) -> int {
    |r: int| if !board.filled(r, col) && board.filled(r + 1, col) { 1int } else { 0int }
}

/// Number of runs of holes in each column, by column.
pub open spec fn runs_by_column(board: Board) -> spec_fn(int) -> int {
    |c: int| sum_range(0, 19, run_top_indicator(board, c))
}

/// Number of vertical runs of holes on the board. Every maximal run of
/// empty cells under a filled cell has exactly one topmost cell, the one
/// directly under a filled cell, so the runs are counted by their tops.
pub open spec fn connected_holes(board: Board) -> int {
    sum_range(0, 10, runs_by_column(board))
}

/// Counts vertically connected gaps as one hole. A connected hole is a run
/// of empty cells in a column that has at least one filled cell above it;
/// vertically adjacent empty cells count once.
pub struct Eval;

impl EvalFn for Eval {
    open spec fn measure(&self, board: Board) -> int {
        connected_holes(board)
    }

    fn eval(&self, board: &Board) -> (score: u16) {
        let mut total: u16 = 0;
        let mut col: usize = 0;
        while col < 10
            invariant
                col <= 10,
                total <= 19 * col,
                total == sum_range(0, col as int, runs_by_column(*board)),
            decreases 10 - col,
        {
            let mut runs: u16 = 0;
            let mut row: usize = 0;
            while row < 19
                invariant
                    row <= 19,
                    col < 10,
                    runs <= row,
                    runs == sum_range(0, row as int, run_top_indicator(*board, col as int)),
                decreases 19 - row,
            {
                if !board.cells[row][col] && board.cells[row + 1][col] {
                    runs += 1;
                }
                row += 1;
            }
            total += runs;
            col += 1;
        }
        total
    }
}

} // verus!
