use crate::eval_fns::EvalFn;
use crate::game::Board;
use crate::numeric::sum_range;
use vstd::prelude::*;

verus! {

/// The distance between two heights.
pub open spec fn height_gap(a: int, b: int) -> int {
    if a >= b {
        a - b
    } else {
        b - a
    }
}

/// The distance between the heights of a column and of its right
/// neighbour, by column.
pub open spec fn step_heights(board: Board) -> spec_fn(int) -> int {
    |c: int| height_gap(board.height(c), board.height(c + 1))
}

/// The height differences of adjacent columns, added up, plus the
/// difference between the first and the last column.
pub open spec fn smoothness(board: Board) -> int {
    sum_range(0, 9, step_heights(board)) + height_gap(board.height(0), board.height(9))
}

/// The sum of all absolute differences of adjacent column heights, plus the
/// difference between the first and last column.
pub struct Eval;

impl EvalFn for Eval {
    open spec fn measure(&self, board: Board) -> int {
        smoothness(board)
    }

    fn eval(&self, board: &Board) -> (score: u16) {
        let first = board.column_height(0);
        let mut sum: usize = 0;
        let mut left = first;
        let mut col: usize = 0;
        while col < 9
            invariant
                col <= 9,
                left <= 20,
                left == board.height(col as int),
                sum <= 20 * col,
                sum == sum_range(0, col as int, step_heights(*board)),
            decreases 9 - col,
        {
            let right = board.column_height(col + 1);
            sum += if left >= right {
                left - right
            } else {
                right - left
            };
            left = right;
            col += 1;
        }
        sum += if first >= left {
            first - left
        } else {
            left - first
        };
        sum as u16
    }
}

} // verus!
