use crate::eval_fns::EvalFn;
use crate::game::Board;
use crate::numeric::{max_range, sum_range};
use vstd::prelude::*;

verus! {

/// The cell belongs to a well: it is empty, nothing above it in its column
/// is filled, and its left and right neighbours are filled cells or walls.
pub open spec fn is_well_cell(board: Board, row: int, col: int) -> bool {
    &&& !board.filled(row, col)
    &&& !board.filled_above(row, col)
    &&& (col == 0 || board.filled(row, col - 1))
    &&& (col == 9 || board.filled(row, col + 1))
}

/// 1 for a well cell of `col`, 0 for any other cell, by row.
pub open spec fn well_indicator(board: Board, col: int) -> spec_fn(int) -> int {
    |r: int| if is_well_cell(board, r, col) { 1int } else { 0int }
}

/// Depth of the well in `col`: the number of its well cells.
pub open spec fn well_depth(board: Board, col: int) -> int {
    sum_range(0, 20, well_indicator(board, col))
}

/// Depth of the well in each column, by column.
pub open spec fn well_depths(board: Board) -> spec_fn(int) -> int {
    |c: int| well_depth(board, c)
}

/// Depth of the deepest well.
pub open spec fn max_well_depth(board: Board) -> int {
    max_range(0, 10, well_depths(board), 0)
}

/// The depth of the deepest well on the board.
pub struct MaxWellDepth;

impl EvalFn for MaxWellDepth {
    open spec fn measure(&self, board: Board) -> int {
        max_well_depth(board)
    }

    fn eval(&self, board: &Board) -> (score: u16) {
        let mut best: u16 = 0;
        let mut col: usize = 0;
        while col < 10
            invariant
                col <= 10,
                best == max_range(0, col as int, well_depths(*board), 0),
            decreases 10 - col,
        {
            let depth = calculate_well_depth(board, col);
            if depth > best {
                best = depth;
            }
            col += 1;
        }
        best
    }
}

/// Counts the well cells of a column: empty cells open from above whose
/// neighbours on both sides are filled, the walls counting as filled.
pub fn calculate_well_depth(board: &Board, col: usize) -> (depth: u16)
    requires
        col < 10,
    ensures
        depth == well_depth(*board, col as int),
        depth <= 20,
{
    let mut depth: u16 = 0;
    let mut row: usize = 0;
    while row < 20
        invariant
            row <= 20,
            col < 10,
            depth <= row,
            depth == sum_range(0, row as int, well_indicator(*board, col as int)),
        decreases 20 - row,
    {
        if !(board.cells[row][col] || board.has_filled_above(row, col)) {
            let left_filled = if col > 0 {
                board.cells[row][col - 1]
            } else {
                true
            };
            let right_filled = if col < 9 {
                board.cells[row][col + 1]
            } else {
                true
            };
            if left_filled && right_filled {
                depth += 1;
            }
        }
        row += 1;
    }
    depth
}

} // verus!
