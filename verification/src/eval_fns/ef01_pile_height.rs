use crate::eval_fns::EvalFn;
use crate::game::Board;
use crate::numeric::{lemma_max_range, max_range};
use vstd::prelude::*;

verus! {

/// The height of every column, by column.
pub open spec fn heights(board: Board) -> spec_fn(int) -> int {
    |c: int| board.height(c)
}

/// The height of the tallest column: the row of the topmost block, counted
/// from 1 at the bottom; 0 for an empty board.
pub open spec fn pile_height(board: Board) -> int {
    max_range(0, 10, heights(board), 0)
}

/// The height of the tallest column, computed.
pub fn tallest_column(board: &Board) -> (height: usize)
    ensures
        height == pile_height(*board),
        height <= 20,
{
    let mut best: usize = 0;
    let mut col: usize = 0;
    while col < 10
        invariant
            col <= 10,
            best <= 20,
            best == max_range(0, col as int, heights(*board), 0),
        decreases 10 - col,
    {
        let height = board.column_height(col);
        if height > best {
            best = height;
        }
        col += 1;
    }
    best
}

/// The row of the topmost block in the board (1-indexed height from bottom).
/// Returns 0 for an empty board.
pub struct PileHeight;

impl EvalFn for PileHeight {
    open spec fn measure(&self, board: Board) -> int {
        pile_height(board)
    }

    fn eval(&self, board: &Board) -> (score: u16) {
        tallest_column(board) as u16
    }
}

/// The pile is as high as the topmost block: a block sits in row
/// `pile_height - 1` and none above it.
pub proof fn lemma_pile_height_is_topmost(board: Board)
    ensures
        0 <= pile_height(board) <= 20,
        pile_height(board) > 0 ==> board.row_occupied(pile_height(board) - 1),
        forall|r: int, c: int|
            pile_height(board) <= r < 20 && 0 <= c < 10 ==> !board.filled(r, c),
{
    let h = heights(board);
    lemma_max_range(0, 10, h, 0);
    assert forall|c: int| 0 <= c < 10 implies 0 <= #[trigger] h(c) <= 20 by {
        board.lemma_height_below(c, 20);
    }
    if pile_height(board) > 0 {
        let c = choose|c: int| 0 <= c < 10 && #[trigger] h(c) == pile_height(board);
        board.lemma_height_below(c, 20);
        assert(board.filled(pile_height(board) - 1, c));
    }
    assert forall|r: int, c: int| pile_height(board) <= r < 20 && 0 <= c < 10 implies !board.filled(
        r,
        c,
    ) by {
        board.lemma_height_below(c, 20);
        assert(h(c) <= pile_height(board));
    }
}

} // verus!
