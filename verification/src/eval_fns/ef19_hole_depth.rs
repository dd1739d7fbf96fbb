use crate::eval_fns::EvalFn;
use crate::game::Board;
use crate::numeric::{lemma_sum_first, sum_range};
use vstd::prelude::*;

verus! {

/// 1 for a filled cell of `col`, 0 for an empty one, by row.
pub open spec fn column_indicator(board: Board, col: int) -> spec_fn(int) -> int {
    |r: int| if board.filled(r, col) { 1int } else { 0int }
}

/// The number of filled cells above `(row, col)` in its column.
pub open spec fn filled_cells_above(board: Board, row: int, col: int) -> int {
    sum_range(row + 1, 20, column_indicator(board, col))
}

/// For an empty cell of `col` the number of filled cells above it, for a
/// filled cell 0, by row. An empty cell with nothing above it is no hole
/// and weighs 0.
pub open spec fn depth_by_row(board: Board, col: int) -> spec_fn(int) -> int {
    |r: int| if board.filled(r, col) { 0int } else { filled_cells_above(board, r, col) }
}

/// The depths of the holes of each column added up, by column.
pub open spec fn depth_by_column(board: Board) -> spec_fn(int) -> int {
    |c: int| sum_range(0, 20, depth_by_row(board, c))
}

/// The filled cells stacked above each hole, summed over all holes.
pub open spec fn hole_depth(board: Board) -> int {
    sum_range(0, 10, depth_by_column(board))
}

/// The sum of filled cells above each hole: for each hole, the number of
/// filled cells above it in its column.
pub struct HoleDepth;

impl EvalFn for HoleDepth {
    open spec fn measure(&self, board: Board) -> int {
        hole_depth(board)
    }

    fn eval(&self, board: &Board) -> (score: u16) {
        let mut total: u16 = 0;
        let mut col: usize = 0;
        while col < 10
            invariant
                col <= 10,
                total <= 400 * col,
                total == sum_range(0, col as int, depth_by_column(*board)),
            decreases 10 - col,
        {
            let mut in_column: u16 = 0;
            let mut filled_above: u16 = 0;
            let mut row: usize = 20;
            while row > 0
                invariant
                    row <= 20,
                    col < 10,
                    filled_above <= 20 - row,
                    filled_above == sum_range(
                        row as int,
                        20,
                        column_indicator(*board, col as int),
                    ),
                    in_column <= 20 * (20 - row),
                    in_column == sum_range(row as int, 20, depth_by_row(*board, col as int)),
                decreases row,
            {
                row -= 1;
                proof {
                    lemma_sum_first(row as int, 20, column_indicator(*board, col as int));
                    lemma_sum_first(row as int, 20, depth_by_row(*board, col as int));
                }
                if board.cells[row][col] {
                    filled_above += 1;
                } else if filled_above > 0 {
                    in_column += filled_above;
                }
            }
            total += in_column;
            col += 1;
        }
        total
    }
}

} // verus!
