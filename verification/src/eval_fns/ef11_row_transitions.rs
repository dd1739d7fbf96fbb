use crate::eval_fns::EvalFn;
use crate::game::Board;
use crate::numeric::sum_range;
use vstd::prelude::*;

verus! {

/// 1 where the cell at `col` and its right neighbour differ, 0 where they
/// are alike, by column.
pub open spec fn row_change_indicator(board: Board, row: int) -> spec_fn(int) -> int {
    |c: int| if board.filled(row, c) != board.filled(row, c + 1) { 1int } else { 0int }
}

/// Transitions along one row, the walls at both ends counting as filled.
pub open spec fn transitions_in_row(board: Board, row: int) -> int {
    (if board.filled(row, 0) { 0int } else { 1int }) + sum_range(
        0,
        9,
        row_change_indicator(board, row),
    ) + (if board.filled(row, 9) { 0int } else { 1int })
}

/// Transitions along each row, by row.
pub open spec fn transitions_by_row(board: Board) -> spec_fn(int) -> int {
    |r: int| transitions_in_row(board, r)
}

/// All horizontal transitions between filled and empty, the walls counting
/// as filled.
pub open spec fn row_transitions(board: Board) -> int {
    sum_range(0, 20, transitions_by_row(board))
}

/// The sum of all horizontal transitions between occupied and unoccupied
/// cells. Walls count as occupied, so an empty cell at the edge counts as a
/// transition.
pub struct RowTransitions;

impl EvalFn for RowTransitions {
    open spec fn measure(&self, board: Board) -> int {
        row_transitions(board)
    }

    fn eval(&self, board: &Board) -> (score: u16) {
        let mut transitions: u16 = 0;
        let mut row: usize = 0;
        while row < 20
            invariant
                row <= 20,
                transitions <= 11 * row,
                transitions == sum_range(0, row as int, transitions_by_row(*board)),
            decreases 20 - row,
        {
            let mut in_row: u16 = 0;
            if !board.cells[row][0] {
                in_row += 1;
            }
            let mut inner: u16 = 0;
            let mut col: usize = 0;
            while col < 9
                invariant
                    col <= 9,
                    row < 20,
                    inner <= col,
                    inner == sum_range(0, col as int, row_change_indicator(*board, row as int)),
                decreases 9 - col,
            {
                if board.cells[row][col] != board.cells[row][col + 1] {
                    inner += 1;
                }
                col += 1;
            }
            in_row += inner;
            if !board.cells[row][9] {
                in_row += 1;
            }
            transitions += in_row;
            row += 1;
        }
        transitions
    }
}

} // verus!
