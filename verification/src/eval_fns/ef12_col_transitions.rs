use crate::eval_fns::EvalFn;
use crate::game::Board;
use crate::numeric::sum_range;
use vstd::prelude::*;

verus! {

/// 1 where the cell at `row` and the one above it differ, 0 where they are
/// alike, by row.
pub open spec fn column_change_indicator(board: Board, col: int) -> spec_fn(int) -> int {
    |r: int| if board.filled(r, col) != board.filled(r + 1, col) { 1int } else { 0int }
}

/// Transitions along one column. The floor counts as filled and the ceiling
/// as empty: an empty bottom cell is a transition, and so is a filled top
/// cell.
pub open spec fn transitions_in_column(board: Board, col: int) -> int {
    (if board.filled(0, col) { 0int } else { 1int }) + sum_range(
        0,
        19,
        column_change_indicator(board, col),
    ) + (if board.filled(19, col) { 1int } else { 0int })
}

/// Transitions along each column, by column.
pub open spec fn transitions_by_column(board: Board) -> spec_fn(int) -> int {
    |c: int| transitions_in_column(board, c)
}

/// All vertical transitions between filled and empty.
pub open spec fn col_transitions(board: Board) -> int {
    sum_range(0, 10, transitions_by_column(board))
}

/// The sum of all vertical transitions between occupied and unoccupied
/// cells. The floor counts as occupied, so an empty cell at the bottom
/// counts as a transition. The ceiling counts as empty, so a filled cell in
/// the top row counts as one too.
pub struct ColTransitions;

impl EvalFn for ColTransitions {
    open spec fn measure(&self, board: Board) -> int {
        col_transitions(board)
    }

    fn eval(&self, board: &Board) -> (score: u16) {
        let mut transitions: u16 = 0;
        let mut col: usize = 0;
        while col < 10
            invariant
                col <= 10,
                transitions <= 21 * col,
                transitions == sum_range(0, col as int, transitions_by_column(*board)),
            decreases 10 - col,
        {
            let mut in_column: u16 = 0;
            if !board.cells[0][col] {
                in_column += 1;
            }
            let mut inner: u16 = 0;
            let mut row: usize = 0;
            while row < 19
                invariant
                    row <= 19,
                    col < 10,
                    inner <= row,
                    inner == sum_range(0, row as int, column_change_indicator(*board, col as int)),
                decreases 19 - row,
            {
                if board.cells[row][col] != board.cells[row + 1][col] {
                    inner += 1;
                }
                row += 1;
            }
            in_column += inner;
            if board.cells[19][col] {
                in_column += 1;
            }
            transitions += in_column;
            col += 1;
        }
        transitions
    }
}

} // verus!
