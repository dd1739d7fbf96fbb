use crate::eval_fns::ef01_pile_height::{heights, pile_height, tallest_column};
use crate::eval_fns::EvalFn;
use crate::game::Board;
use crate::numeric::{lemma_max_range, lemma_min_range, min_range};
use vstd::prelude::*;

verus! {

/// The height of the shortest column.
pub open spec fn lowest_height(board: Board) -> int {
    min_range(0, 10, heights(board), 20)
}

/// The difference between the tallest and the shortest column.
pub open spec fn altitude_diff(board: Board) -> int {
    pile_height(board) - lowest_height(board)
}

/// The difference between the highest occupied cell and the lowest gap
/// directly reachable from the top (max column height - min column height).
pub struct AltitudeDiff;

impl EvalFn for AltitudeDiff {
    open spec fn measure(&self, board: Board) -> int {
        altitude_diff(board)
    }

    fn eval(&self, board: &Board) -> (score: u16) {
        let max_height = tallest_column(board);
        let mut min_height: usize = 20;
        let mut col: usize = 0;
        while col < 10
            invariant
                col <= 10,
                min_height <= 20,
                min_height == min_range(0, col as int, heights(*board), 20),
            decreases 10 - col,
        {
            let height = board.column_height(col);
            if height < min_height {
                min_height = height;
            }
            col += 1;
        }
        proof {
            lemma_max_range(0, 10, heights(*board), 0);
            lemma_min_range(0, 10, heights(*board), 20);
            assert(heights(*board)(0) <= max_height);
            assert(heights(*board)(0) >= min_height);
        }
        (max_height - min_height) as u16
    }
}

} // verus!
