//! The playing field: a 10x20 grid of occupancy bits, with the rules for
//! placing pieces on it and clearing rows.

use super::tetromino::{FallingPiece, Tetromino};
use crate::numeric::{
    lemma_sum_bounds, lemma_sum_congruent, lemma_sum_one_changed, lemma_sum_shift,
    lemma_sum_split, sum_range,
};
use vstd::prelude::*;

verus! {

/// A 10x20 Tetris board.
///
/// Coordinate system:
/// - `cells[0]` is the **bottom** row
/// - `cells[19]` is the **top** row
/// - `cells[row][0]` is the **left** column
/// - `cells[row][9]` is the **right** column
#[derive(Debug, Clone, Copy, PartialEq, Eq)]
pub struct Board {
    pub cells: [[bool; 10]; 20],
}

impl Default for Board {
    fn default() -> (board: Self)
        ensures
            board == Board::empty(),
    {
        Self::new()
    }
}

impl Board {
    pub const WIDTH: usize = 10;

    pub const HEIGHT: usize = 20;

    /// The cell at `(row, col)` is filled. Meaningful inside the grid only.
    pub open spec fn filled(&self, row: int, col: int) -> bool {
        self.cells[row][col]
    }

    /// `(col, row)` names a cell of the grid.
    pub open spec fn inside(col: int, row: int) -> bool {
        0 <= col < 10 && 0 <= row < 20
    }

    /// The position is blocked: outside the grid, or a filled cell.
    pub open spec fn occupied(&self, col: int, row: int) -> bool {
        !Self::inside(col, row) || self.filled(row, col)
    }

    /// The shape with its origin at `(col, row)` lies on free cells only.
    pub open spec fn shape_fits(&self, shape: Tetromino, rotation: u8, col: int, row: int) -> bool {
        forall|k: int|
            0 <= k < 4 ==> !self.occupied(
                col + (#[trigger] shape.offsets(rotation)[k]).0,
                row + shape.offsets(rotation)[k].1,
            )
    }

    /// The shape with its origin at `(col, row)` has a cell on the floor or
    /// directly above a filled cell.
    pub open spec fn shape_rests(&self, shape: Tetromino, rotation: u8, col: int, row: int) -> bool {
        exists|k: int|
            0 <= k < 4 && self.supports(
                col + (#[trigger] shape.offsets(rotation)[k]).0,
                row + shape.offsets(rotation)[k].1,
            )
    }

    /// A cell at `(col, row)` would rest on the floor or on a blocked
    /// position.
    pub open spec fn supports(&self, col: int, row: int) -> bool {
        row == 0 || self.occupied(col, row - 1)
    }

    /// The piece lies on free cells only.
    pub open spec fn fits(&self, piece: FallingPiece) -> bool {
        self.shape_fits(piece.tetromino, piece.rotation.0, piece.col as int, piece.row as int)
    }

    /// The piece fits and rests on something: a legitimate place to lock it.
    pub open spec fn lockable(&self, piece: FallingPiece) -> bool {
        &&& self.fits(piece)
        &&& self.shape_rests(piece.tetromino, piece.rotation.0, piece.col as int, piece.row as int)
    }

    /// One of the piece's four cells is `(row, col)`.
    pub open spec fn covered_by(piece: FallingPiece, row: int, col: int) -> bool {
        exists|k: int| 0 <= k < 4 && #[trigger] piece.cell_col(k) == col && piece.cell_row(k) == row
    }

    /// Every cell of the row is filled.
    pub open spec fn row_full(&self, row: int) -> bool {
        forall|c: int| 0 <= c < 10 ==> self.filled(row, c)
    }

    /// Some cell of the row is filled.
    pub open spec fn row_occupied(&self, row: int) -> bool {
        exists|c: int| 0 <= c < 10 && self.filled(row, c)
    }

    /// No cell of the row is filled.
    pub open spec fn row_clear(&self, row: int) -> bool {
        forall|c: int| 0 <= c < 10 ==> !self.filled(row, c)
    }

    /// 1 for a filled cell of `row`, 0 for a free one, by column.
    pub open spec fn cell_indicator(&self, row: int) -> spec_fn(int) -> int {
        |c: int| if self.filled(row, c) { 1int } else { 0int }
    }

    /// Number of filled cells in the row.
    pub open spec fn row_count(&self, row: int) -> int {
        sum_range(0, 10, self.cell_indicator(row))
    }

    /// Number of filled cells, by row.
    pub open spec fn row_counts(&self) -> spec_fn(int) -> int {
        |r: int| self.row_count(r)
    }

    /// Number of filled cells on the board.
    pub open spec fn count(&self) -> int {
        sum_range(0, 20, self.row_counts())
    }

    /// 1 for a row that is not full, 0 for a full one.
    pub open spec fn survivor_indicator(&self) -> spec_fn(int) -> int {
        |r: int| if self.row_full(r) { 0int } else { 1int }
    }

    /// Number of rows below `row` that are not full: where row `row` lands
    /// once the full rows beneath it are gone.
    pub open spec fn survivors_below(&self, row: int) -> int {
        sum_range(0, row, self.survivor_indicator())
    }

    /// Number of full rows on the board.
    pub open spec fn full_row_count(&self) -> int {
        20 - self.survivors_below(20)
    }

    /// `after` is this board with the piece's four cells filled as well.
    pub open spec fn places_to(&self, piece: FallingPiece, after: Board) -> bool {
        forall|r: int, c: int|
            0 <= r < 20 && 0 <= c < 10 ==> #[trigger] after.filled(r, c) == (self.filled(r, c)
                || Self::covered_by(piece, r, c))
    }

    /// This board with the piece's four cells filled as well.
    pub open spec fn placed(&self, piece: FallingPiece) -> Board {
        choose|after: Board| self.places_to(piece, after)
    }

    /// `after` is this board without its full rows: every other row has
    /// moved down past the full rows beneath it, and the rows left over at
    /// the top are empty.
    pub open spec fn clears_to(&self, after: Board) -> bool {
        &&& forall|i: int|
            0 <= i < 20 && !self.row_full(i) ==> after.cells[#[trigger] self.survivors_below(i)]
                == self.cells[i]
        &&& forall|j: int| self.survivors_below(20) <= j < 20 ==> after.row_clear(j)
    }

    /// This board without its full rows.
    pub open spec fn cleared(&self) -> Board {
        choose|after: Board| self.clears_to(after)
    }

    /// Boards with the same cells are the same board.
    pub proof fn lemma_same_cells(&self, other: Board)
        requires
            forall|r: int, c: int|
                0 <= r < 20 && 0 <= c < 10 ==> self.filled(r, c) == other.filled(r, c),
        ensures
            *self == other,
    {
        assert forall|r: int| 0 <= r < 20 implies self.cells[r] == other.cells[r] by {
            assert forall|c: int| 0 <= c < 10 implies self.cells[r][c] == other.cells[r][c] by {
                assert(self.filled(r, c) == other.filled(r, c));
            }
            assert(self.cells[r] =~= other.cells[r]);
        }
        assert(self.cells =~= other.cells);
    }

    /// Placing a piece has one result.
    pub proof fn lemma_placed(&self, piece: FallingPiece, after: Board)
        requires
            self.places_to(piece, after),
        ensures
            after == self.placed(piece),
    {
        let chosen = self.placed(piece);
        assert forall|r: int, c: int| 0 <= r < 20 && 0 <= c < 10 implies after.filled(r, c)
            == chosen.filled(r, c) by {
            assert(after.filled(r, c) == (self.filled(r, c) || Self::covered_by(piece, r, c)));
            assert(chosen.filled(r, c) == (self.filled(r, c) || Self::covered_by(piece, r, c)));
        }
        after.lemma_same_cells(chosen);
    }

    /// Every row below the number of surviving rows is where some row that
    /// is not full lands.
    pub proof fn lemma_survivor_source(&self, target: int, limit: int)
        requires
            0 <= limit,
            0 <= target < self.survivors_below(limit),
        ensures
            exists|i: int|
                0 <= i < limit && !self.row_full(i) && #[trigger] self.survivors_below(i) == target,
        decreases limit,
    {
        if limit > 0 {
            if target < self.survivors_below(limit - 1) {
                self.lemma_survivor_source(target, limit - 1);
            } else {
                assert(self.survivors_below(limit - 1) == target);
                assert(!self.row_full(limit - 1));
            }
        }
    }

    /// Clearing the full rows has one result.
    pub proof fn lemma_cleared(&self, after: Board)
        requires
            self.clears_to(after),
        ensures
            after == self.cleared(),
    {
        let chosen = self.cleared();
        self.lemma_survivors_monotone(0, 20);
        assert(self.survivors_below(0) == 0);
        assert forall|j: int| 0 <= j < 20 implies after.cells[j] == chosen.cells[j] by {
            if j < self.survivors_below(20) {
                self.lemma_survivor_source(j, 20);
                let i = choose|i: int|
                    0 <= i < 20 && !self.row_full(i) && #[trigger] self.survivors_below(i) == j;
                assert(after.cells[self.survivors_below(i)] == self.cells[i]);
                assert(chosen.cells[self.survivors_below(i)] == self.cells[i]);
            } else {
                assert(after.row_clear(j));
                assert(chosen.row_clear(j));
                assert forall|c: int| 0 <= c < 10 implies after.cells[j][c] == chosen.cells[j][c] by {
                    assert(!after.filled(j, c));
                    assert(!chosen.filled(j, c));
                }
                assert(after.cells[j] =~= chosen.cells[j]);
            }
        }
        assert(after.cells =~= chosen.cells);
    }

    /// No cell of the board is filled.
    pub open spec fn is_clear(&self) -> bool {
        forall|r: int, c: int| 0 <= r < 20 && 0 <= c < 10 ==> !self.filled(r, c)
    }

    /// The board without a filled cell.
    pub open spec fn empty() -> Board {
        choose|board: Board| board.is_clear()
    }

    /// Creates a new empty board.
    pub fn new() -> (board: Self)
        ensures
            board == Self::empty(),
            board.is_clear(),
            board.count() == 0,
    {
        let board = Board { cells: [[false; 10]; 20] };
        proof {
            board.lemma_count_of_clear_board();
            assert(board.is_clear());
            board.lemma_same_cells(Self::empty());
        }
        board
    }

    /// Creates a board from a cell array.
    pub fn from_cells(cells: [[bool; 10]; 20]) -> (board: Self)
        ensures
            board.cells == cells,
    {
        Board { cells }
    }

    /// A row without filled cells counts zero.
    pub proof fn lemma_count_of_clear_row(&self, row: int)
        requires
            self.row_clear(row),
        ensures
            self.row_count(row) == 0,
    {
        lemma_sum_bounds(0, 10, self.cell_indicator(row), 0, 0);
    }

    /// A full row counts ten.
    pub proof fn lemma_count_of_full_row(&self, row: int)
        requires
            self.row_full(row),
        ensures
            self.row_count(row) == 10,
    {
        lemma_sum_bounds(0, 10, self.cell_indicator(row), 1, 1);
    }

    /// A row counts between zero and ten cells, and ten only when full.
    pub proof fn lemma_row_count_bounds(&self, row: int)
        ensures
            0 <= self.row_count(row) <= 10,
            self.row_count(row) == 10 ==> self.row_full(row),
    {
        let f = self.cell_indicator(row);
        lemma_sum_bounds(0, 10, f, 0, 1);
        if !self.row_full(row) {
            let c = choose|c: int| 0 <= c < 10 && !self.filled(row, c);
            lemma_sum_split(0, c, 10, f);
            lemma_sum_split(c, c + 1, 10, f);
            lemma_sum_bounds(0, c, f, 0, 1);
            lemma_sum_bounds(c + 1, 10, f, 0, 1);
            assert(sum_range(c, c + 1, f) == f(c)) by {
                assert(sum_range(c, c, f) == 0);
            }
        }
    }

    /// A board without filled cells counts zero.
    pub proof fn lemma_count_of_clear_board(&self)
        requires
            forall|r: int, c: int| 0 <= r < 20 && 0 <= c < 10 ==> !self.filled(r, c),
        ensures
            self.count() == 0,
    {
        assert forall|r: int| 0 <= r < 20 implies #[trigger] self.row_counts()(r) == 0 by {
            self.lemma_count_of_clear_row(r);
        }
        lemma_sum_bounds(0, 20, self.row_counts(), 0, 0);
    }

    /// The board counts between 0 and 200 cells.
    pub proof fn lemma_count_bounds(&self)
        ensures
            0 <= self.count() <= 200,
    {
        assert forall|r: int| 0 <= r < 20 implies 0 <= #[trigger] self.row_counts()(r) <= 10 by {
            self.lemma_row_count_bounds(r);
        }
        lemma_sum_bounds(0, 20, self.row_counts(), 0, 10);
    }

    /// Filling one free cell adds one to the count.
    pub proof fn lemma_count_after_fill(&self, after: Board, row: int, col: int)
        requires
            0 <= row < 20,
            0 <= col < 10,
            !self.filled(row, col),
            after.filled(row, col),
            forall|r: int, c: int|
                0 <= r < 20 && 0 <= c < 10 && !(r == row && c == col) ==> after.filled(r, c)
                    == self.filled(r, c),
        ensures
            after.count() == self.count() + 1,
            after.row_count(row) == self.row_count(row) + 1,
            forall|r: int| 0 <= r < 20 && r != row ==> after.row_count(r) == self.row_count(r),
    {
        assert forall|r: int| 0 <= r < 20 && r != row implies after.row_count(r) == self.row_count(
            r,
        ) by {
            lemma_sum_congruent(0, 10, self.cell_indicator(r), after.cell_indicator(r));
        }
        lemma_sum_one_changed(0, 10, col, 1, self.cell_indicator(row), after.cell_indicator(row));
        lemma_sum_one_changed(0, 20, row, 1, self.row_counts(), after.row_counts());
    }

    /// Checks if a cell position is within board bounds.
    pub fn in_bounds(col: i8, row: i8) -> (inside: bool)
        ensures
            inside == Self::inside(col as int, row as int),
    {
        col >= 0 && col < 10 && row >= 0 && row < 20
    }

    /// Checks if a cell position is occupied (out of bounds counts as
    /// occupied).
    pub fn is_occupied(&self, col: i8, row: i8) -> (occupied: bool)
        ensures
            occupied == self.occupied(col as int, row as int),
    {
        if !Self::in_bounds(col, row) {
            return true;
        }
        self.cells[row as usize][col as usize]
    }

    /// Whether the position `(col, row)`, given in a wider type, is blocked.
    fn is_blocked(&self, col: i16, row: i16) -> (blocked: bool)
        ensures
            blocked == self.occupied(col as int, row as int),
    {
        if col < 0 || col >= 10 || row < 0 || row >= 20 {
            return true;
        }
        self.cells[row as usize][col as usize]
    }

    /// Checks if a piece can be placed at its current position: true iff all
    /// four cells are within bounds and unoccupied.
    pub fn can_place(&self, piece: &FallingPiece) -> (fits: bool)
        ensures
            fits == self.fits(*piece),
    {
        let offsets = piece.tetromino.cells(piece.rotation);
        let mut k: usize = 0;
        while k < 4
            invariant
                k <= 4,
                offsets == piece.tetromino.offsets(piece.rotation.0),
                forall|j: int|
                    0 <= j < k ==> !self.occupied(
                        piece.col + (#[trigger] offsets[j]).0,
                        piece.row + offsets[j].1,
                    ),
            decreases 4 - k,
        {
            let col: i16 = piece.col as i16 + offsets[k].0 as i16;
            let row: i16 = piece.row as i16 + offsets[k].1 as i16;
            if self.is_blocked(col, row) {
                return false;
            }
            k += 1;
        }
        true
    }

    /// Checks if a piece may be locked where it is: it can be placed, and at
    /// least one of its cells sits on the floor or directly above an
    /// occupied cell.
    pub fn can_lock(&self, piece: &FallingPiece) -> (lockable: bool)
        ensures
            lockable == self.lockable(*piece),
    {
        if !self.can_place(piece) {
            return false;
        }
        let offsets = piece.tetromino.cells(piece.rotation);
        let mut k: usize = 0;
        while k < 4
            invariant
                k <= 4,
                self.fits(*piece),
                offsets == piece.tetromino.offsets(piece.rotation.0),
                forall|j: int|
                    0 <= j < k ==> !self.supports(
                        piece.col + (#[trigger] offsets[j]).0,
                        piece.row + offsets[j].1,
                    ),
            decreases 4 - k,
        {
            let col: i16 = piece.col as i16 + offsets[k].0 as i16;
            let row: i16 = piece.row as i16 + offsets[k].1 as i16;
            if row == 0 || self.is_blocked(col, row - 1) {
                assert(self.supports(
                    piece.col + piece.tetromino.offsets(piece.rotation.0)[k as int].0,
                    piece.row + piece.tetromino.offsets(piece.rotation.0)[k as int].1,
                ));
                return true;
            }
            k += 1;
        }
        false
    }

    /// Rows whose cells are equal count the same.
    pub proof fn lemma_row_count_of_equal_rows(&self, row: int, other: Board, other_row: int)
        requires
            0 <= row < 20,
            0 <= other_row < 20,
            self.cells[row] == other.cells[other_row],
        ensures
            self.row_count(row) == other.row_count(other_row),
            self.row_full(row) == other.row_full(other_row),
            self.row_clear(row) == other.row_clear(other_row),
    {
        lemma_sum_congruent(0, 10, self.cell_indicator(row), other.cell_indicator(other_row));
        if self.row_full(row) {
            assert forall|c: int| 0 <= c < 10 implies other.filled(other_row, c) by {
                assert(self.filled(row, c));
            }
        }
        if other.row_full(other_row) {
            assert forall|c: int| 0 <= c < 10 implies self.filled(row, c) by {
                assert(other.filled(other_row, c));
            }
        }
        if self.row_clear(row) {
            assert forall|c: int| 0 <= c < 10 implies !other.filled(other_row, c) by {
                assert(!self.filled(row, c));
            }
        }
        if other.row_clear(other_row) {
            assert forall|c: int| 0 <= c < 10 implies !self.filled(row, c) by {
                assert(!other.filled(other_row, c));
            }
        }
    }

    /// A piece that fits has its origin close to the grid, and all four
    /// cells inside it.
    pub proof fn lemma_fits_near(&self, piece: FallingPiece)
        requires
            self.fits(piece),
        ensures
            -3 <= piece.col <= 9,
            -3 <= piece.row <= 19,
            forall|k: int|
                0 <= k < 4 ==> Self::inside(#[trigger] piece.cell_col(k), piece.cell_row(k))
                    && !self.filled(piece.cell_row(k), piece.cell_col(k)),
    {
        piece.tetromino.lemma_offsets_in_box(piece.rotation.0);
        let o = piece.tetromino.offsets(piece.rotation.0);
        assert(!self.occupied(piece.col + o[0].0, piece.row + o[0].1));
        assert forall|k: int| 0 <= k < 4 implies Self::inside(
            #[trigger] piece.cell_col(k),
            piece.cell_row(k),
        ) && !self.filled(piece.cell_row(k), piece.cell_col(k)) by {
            assert(!self.occupied(piece.col + o[k].0, piece.row + o[k].1));
        }
    }

    /// Places a piece on the board, filling its four cells. The piece must
    /// fit: check with `can_place` first.
    pub fn place(&mut self, piece: &FallingPiece)
        requires
            old(self).fits(*piece),
        ensures
            *final(self) == old(self).placed(*piece),
            old(self).places_to(*piece, *final(self)),
            final(self).count() == old(self).count() + 4,
    {
        let ghost before = *self;
        let offsets = piece.tetromino.cells(piece.rotation);
        proof {
            before.lemma_fits_near(*piece);
            piece.tetromino.lemma_offsets_distinct(piece.rotation.0);
        }
        let mut k: usize = 0;
        while k < 4
            invariant
                k <= 4,
                before.fits(*piece),
                offsets == piece.tetromino.offsets(piece.rotation.0),
                forall|j: int|
                    0 <= j < 4 ==> Self::inside(#[trigger] piece.cell_col(j), piece.cell_row(j))
                        && !before.filled(piece.cell_row(j), piece.cell_col(j)),
                forall|i: int, j: int|
                    0 <= i < j < 4 ==> #[trigger] offsets[i] != #[trigger] offsets[j],
                forall|r: int, c: int|
                    0 <= r < 20 && 0 <= c < 10 ==> #[trigger] self.filled(r, c) == (before.filled(
                        r,
                        c,
                    ) || Self::covered_before(*piece, k as int, r, c)),
                self.count() == before.count() + k,
            decreases 4 - k,
        {
            let ghost earlier = *self;
            assert(Self::inside(piece.cell_col(k as int), piece.cell_row(k as int)));
            let col = (piece.col as i16 + offsets[k].0 as i16) as usize;
            let row = (piece.row as i16 + offsets[k].1 as i16) as usize;
            assert(!earlier.filled(row as int, col as int)) by {
                if Self::covered_before(*piece, k as int, row as int, col as int) {
                    let j = choose|j: int|
                        0 <= j < k && #[trigger] piece.cell_col(j) == col && piece.cell_row(j)
                            == row;
                    assert(offsets[j] == offsets[k as int]);
                }
            }
            self.cells[row][col] = true;
            proof {
                earlier.lemma_count_after_fill(*self, row as int, col as int);
                assert forall|r: int, c: int| 0 <= r < 20 && 0 <= c < 10 implies #[trigger] self.filled(
                    r,
                    c,
                ) == (before.filled(r, c) || Self::covered_before(*piece, k + 1, r, c)) by {
                    assert(self.filled(r, c) == (earlier.filled(r, c) || (r == row && c == col)));
                    assert(earlier.filled(r, c) == (before.filled(r, c) || Self::covered_before(
                        *piece,
                        k as int,
                        r,
                        c,
                    )));
                    if r == row && c == col {
                        assert(piece.cell_col(k as int) == c && piece.cell_row(k as int) == r);
                    } else if Self::covered_before(*piece, k + 1, r, c) {
                        let j = choose|j: int|
                            0 <= j < k + 1 && #[trigger] piece.cell_col(j) == c && piece.cell_row(j)
                                == r;
                        assert(j < k);
                    } else if Self::covered_before(*piece, k as int, r, c) {
                        let j = choose|j: int|
                            0 <= j < k && #[trigger] piece.cell_col(j) == c && piece.cell_row(j)
                                == r;
                        assert(j < k + 1);
                    }
                }
            }
            k += 1;
        }
        proof {
            assert forall|r: int, c: int| 0 <= r < 20 && 0 <= c < 10 implies #[trigger] self.filled(
                r,
                c,
            ) == (before.filled(r, c) || Self::covered_by(*piece, r, c)) by {
                if Self::covered_before(*piece, 4, r, c) {
                    let j = choose|j: int|
                        0 <= j < 4 && #[trigger] piece.cell_col(j) == c && piece.cell_row(j) == r;
                    assert(Self::covered_by(*piece, r, c));
                }
                if Self::covered_by(*piece, r, c) {
                    let j = choose|j: int|
                        0 <= j < 4 && #[trigger] piece.cell_col(j) == c && piece.cell_row(j) == r;
                    assert(Self::covered_before(*piece, 4, r, c));
                }
            }
            before.lemma_placed(*piece, *self);
        }
    }

    /// One of the piece's first `limit` cells is `(row, col)`.
    pub open spec fn covered_before(piece: FallingPiece, limit: int, row: int, col: int) -> bool {
        exists|k: int|
            0 <= k < limit && #[trigger] piece.cell_col(k) == col && piece.cell_row(k) == row
    }

    /// Returns a new board with the piece placed. The piece must fit.
    pub fn with_piece(&self, piece: &FallingPiece) -> (board: Self)
        requires
            self.fits(*piece),
        ensures
            board == self.placed(*piece),
            self.places_to(*piece, board),
            board.count() == self.count() + 4,
    {
        let mut new_board = *self;
        new_board.place(piece);
        new_board
    }

    /// Checks if a row is completely filled.
    pub fn is_row_full(&self, row: usize) -> (full: bool)
        requires
            row < 20,
        ensures
            full == self.row_full(row as int),
    {
        let mut col: usize = 0;
        while col < 10
            invariant
                col <= 10,
                row < 20,
                forall|c: int| 0 <= c < col ==> self.filled(row as int, c),
            decreases 10 - col,
        {
            if !self.cells[row][col] {
                assert(!self.filled(row as int, col as int));
                return false;
            }
            col += 1;
        }
        true
    }

    /// Counts of surviving rows grow with the row, by at most one a row.
    pub proof fn lemma_survivors_monotone(&self, low: int, high: int)
        requires
            0 <= low <= high,
        ensures
            0 <= self.survivors_below(high) - self.survivors_below(low) <= high - low,
    {
        lemma_sum_split(0, low, high, self.survivor_indicator());
        lemma_sum_bounds(low, high, self.survivor_indicator(), 0, 1);
    }

    /// Returns indices of all full rows, bottom to top.
    pub fn full_rows(&self) -> (rows: Vec<usize>)
        ensures
            rows@.len() == self.full_row_count(),
            forall|k: int| 0 <= k < rows@.len() ==> rows@[k] < 20 && self.row_full(rows@[k] as int),
            forall|a: int, b: int| 0 <= a < b < rows@.len() ==> rows@[a] < rows@[b],
            forall|r: int| 0 <= r < 20 && self.row_full(r) ==> rows@.contains(r as usize),
    {
        let mut rows: Vec<usize> = Vec::new();
        let mut r: usize = 0;
        while r < 20
            invariant
                r <= 20,
                rows@.len() == r - self.survivors_below(r as int),
                forall|k: int| 0 <= k < rows@.len() ==> rows@[k] < r && self.row_full(rows@[k] as int),
                forall|a: int, b: int| 0 <= a < b < rows@.len() ==> rows@[a] < rows@[b],
                forall|q: int| 0 <= q < r && self.row_full(q) ==> rows@.contains(q as usize),
            decreases 20 - r,
        {
            let ghost earlier = rows@;
            if self.is_row_full(r) {
                rows.push(r);
                assert(rows@[earlier.len() as int] == r);
                assert forall|q: int| 0 <= q < r + 1 && self.row_full(q) implies rows@.contains(
                    q as usize,
                ) by {
                    if q < r {
                        let k = choose|k: int| 0 <= k < earlier.len() && earlier[k] == q as usize;
                        assert(rows@[k] == q as usize);
                    }
                }
            }
            r += 1;
        }
        rows
    }

    /// Removes a single row and shifts all rows above it down; the top row
    /// becomes empty. A row number beyond the top row removes the top row.
    pub fn remove_row(&mut self, row: usize)
        ensures
            forall|r: int| 0 <= r < row && r < 19 ==> final(self).cells[r] == old(self).cells[r],
            forall|r: int| row <= r < 19 ==> final(self).cells[r] == old(self).cells[r + 1],
            final(self).row_clear(19),
            final(self).count() == old(self).count() - old(self).row_count(
                if row < 19 {
                    row as int
                } else {
                    19
                },
            ),
    {
        let ghost before = *self;
        let first: usize = if row < 19 {
            row
        } else {
            19
        };
        let mut r: usize = first;
        while r < 19
            invariant
                first <= r <= 19,
                forall|i: int| 0 <= i < first ==> self.cells[i] == before.cells[i],
                forall|i: int| first <= i < r ==> self.cells[i] == before.cells[i + 1],
                forall|i: int| r <= i < 20 ==> self.cells[i] == before.cells[i],
            decreases 19 - r,
        {
            self.cells[r] = self.cells[r + 1];
            r += 1;
        }
        self.cells[19] = [false; 10];
        proof {
            let f = self.row_counts();
            let g = before.row_counts();
            assert forall|i: int| 0 <= i < first implies #[trigger] f(i) == g(i) by {
                self.lemma_row_count_of_equal_rows(i, before, i);
            }
            assert forall|i: int| first <= i < 19 implies #[trigger] f(i) == g(i + 1) by {
                self.lemma_row_count_of_equal_rows(i, before, i + 1);
            }
            self.lemma_count_of_clear_row(19);
            lemma_sum_congruent(0, first as int, f, g);
            lemma_sum_shift(first as int, 19, 1, f, g);
            lemma_sum_split(0, first as int, 20, f);
            lemma_sum_split(first as int, 19, 20, f);
            lemma_sum_split(0, first as int, 20, g);
            lemma_sum_split(first as int, first + 1, 20, g);
            assert(sum_range(19, 20, f) == f(19)) by {
                assert(sum_range(19, 19, f) == 0);
            }
            assert(sum_range(first as int, first + 1, g) == g(first as int)) by {
                assert(sum_range(first as int, first as int, g) == 0);
            }
        }
    }

    /// Clears full rows and returns the number of rows cleared. Rows above
    /// cleared rows drop down, keeping their order; empty rows come in at
    /// the top. No row is full afterwards.
    pub fn clear_full_rows(&mut self) -> (cleared: u32)
        ensures
            cleared == old(self).full_row_count(),
            cleared <= 20,
            *final(self) == old(self).cleared(),
            old(self).clears_to(*final(self)),
            forall|j: int| 0 <= j < 20 ==> !final(self).row_full(j),
            final(self).count() == old(self).count() - 10 * cleared,
    {
        let ghost before = *self;
        let mut cleared: u32 = 0;
        let mut r: usize = 20;
        while r > 0
            invariant
                r <= 20,
                cleared == (20 - r) - (before.survivors_below(20) - before.survivors_below(
                    r as int,
                )),
                cleared <= 20 - r,
                forall|i: int| 0 <= i < r ==> self.cells[i] == before.cells[i],
                forall|i: int|
                    r <= i < 20 && !before.row_full(i) ==> self.cells[r + (
                    #[trigger] before.survivors_below(i)) - before.survivors_below(r as int)]
                        == before.cells[i],
                forall|j: int| 20 - cleared <= j < 20 ==> self.row_clear(j),
                forall|j: int| r <= j < 20 ==> !self.row_full(j),
                self.count() == before.count() - 10 * cleared,
            decreases r,
        {
            r -= 1;
            let ghost earlier = *self;
            proof {
                before.lemma_survivors_monotone(r as int, 20);
                self.lemma_row_count_of_equal_rows(r as int, before, r as int);
            }
            if self.is_row_full(r) {
                proof {
                    earlier.lemma_count_of_full_row(r as int);
                }
                self.remove_row(r);
                cleared += 1;
                proof {
                    assert forall|i: int| r <= i < 20 && !before.row_full(i) implies self.cells[r
                        + (#[trigger] before.survivors_below(i)) - before.survivors_below(r as int)]
                        == before.cells[i] by {
                        before.lemma_survivors_monotone(r + 1, i);
                    }
                    assert forall|j: int| 20 - cleared <= j < 20 implies self.row_clear(j) by {
                        if j < 19 {
                            self.lemma_row_count_of_equal_rows(j, earlier, j + 1);
                        }
                    }
                    assert forall|j: int| r <= j < 20 implies !self.row_full(j) by {
                        if j < 19 {
                            self.lemma_row_count_of_equal_rows(j, earlier, j + 1);
                        } else {
                            assert(!self.filled(19, 0));
                        }
                    }
                }
            }
        }
        proof {
            assert(before.survivors_below(0) == 0);
            before.lemma_cleared(*self);
        }
        cleared
    }

    /// A shape that fits has its origin close to the grid.
    pub proof fn lemma_shape_fits_near(&self, shape: Tetromino, rotation: u8, col: int, row: int)
        requires
            self.shape_fits(shape, rotation, col, row),
        ensures
            -3 <= col <= 9,
            -3 <= row <= 19,
    {
        shape.lemma_offsets_in_box(rotation);
        let o = shape.offsets(rotation);
        assert(!self.occupied(col + o[0].0, row + o[0].1));
    }

    /// Drops a piece down as far as possible (hard drop). Returns the piece
    /// at its final position, or `None` if it cannot be placed where it is.
    pub fn hard_drop(&self, piece: &FallingPiece) -> (landed: Option<FallingPiece>)
        ensures
            landed is None <==> !self.fits(*piece),
            landed matches Some(p) ==> {
                &&& p.tetromino == piece.tetromino
                &&& p.rotation == piece.rotation
                &&& p.col == piece.col
                &&& p.row <= piece.row
                &&& forall|row: int|
                    p.row <= row <= piece.row ==> #[trigger] self.shape_fits(
                        piece.tetromino,
                        piece.rotation.0,
                        piece.col as int,
                        row,
                    )
                &&& !self.shape_fits(
                    piece.tetromino,
                    piece.rotation.0,
                    piece.col as int,
                    p.row - 1,
                )
            },
    {
        if !self.can_place(piece) {
            return None;
        }
        let mut dropped = *piece;
        loop
            invariant
                dropped.tetromino == piece.tetromino,
                dropped.rotation == piece.rotation,
                dropped.col == piece.col,
                dropped.row <= piece.row,
                forall|row: int|
                    dropped.row <= row <= piece.row ==> #[trigger] self.shape_fits(
                        piece.tetromino,
                        piece.rotation.0,
                        piece.col as int,
                        row,
                    ),
            ensures
                !self.shape_fits(
                    piece.tetromino,
                    piece.rotation.0,
                    piece.col as int,
                    dropped.row - 1,
                ),
            decreases dropped.row + 128,
        {
            proof {
                self.lemma_shape_fits_near(
                    piece.tetromino,
                    piece.rotation.0,
                    piece.col as int,
                    dropped.row as int,
                );
            }
            let lower = dropped.moved(0, -1);
            if !self.can_place(&lower) {
                break ;
            }
            dropped = lower;
        }
        Some(dropped)
    }

    /// Returns the number of rows the piece would drop: how many positions
    /// directly below it, one after the other, it fits in.
    pub fn drop_distance(&self, piece: &FallingPiece) -> (distance: u32)
        ensures
            forall|j: int|
                1 <= j <= distance ==> #[trigger] self.shape_fits(
                    piece.tetromino,
                    piece.rotation.0,
                    piece.col as int,
                    piece.row - j,
                ),
            !self.shape_fits(
                piece.tetromino,
                piece.rotation.0,
                piece.col as int,
                piece.row - distance - 1,
            ),
    {
        let mut distance: u32 = 0;
        let mut test_piece = *piece;
        loop
            invariant
                test_piece.tetromino == piece.tetromino,
                test_piece.rotation == piece.rotation,
                test_piece.col == piece.col,
                test_piece.row == piece.row - distance,
                forall|j: int|
                    1 <= j <= distance ==> #[trigger] self.shape_fits(
                        piece.tetromino,
                        piece.rotation.0,
                        piece.col as int,
                        piece.row - j,
                    ),
            ensures
                !self.shape_fits(
                    piece.tetromino,
                    piece.rotation.0,
                    piece.col as int,
                    piece.row - distance - 1,
                ),
            decreases test_piece.row + 128,
        {
            if test_piece.row == i8::MIN {
                proof {
                    if self.shape_fits(
                        piece.tetromino,
                        piece.rotation.0,
                        piece.col as int,
                        piece.row - distance - 1,
                    ) {
                        self.lemma_shape_fits_near(
                            piece.tetromino,
                            piece.rotation.0,
                            piece.col as int,
                            piece.row - distance - 1,
                        );
                    }
                }
                break ;
            }
            let lower = test_piece.moved(0, -1);
            if !self.can_place(&lower) {
                break ;
            }
            test_piece = lower;
            distance += 1;
        }
        distance
    }

    /// Counts the filled cells of one row.
    pub fn row_cells(&self, row: usize) -> (count: u32)
        requires
            row < 20,
        ensures
            count == self.row_count(row as int),
            count <= 10,
    {
        let mut count: u32 = 0;
        let mut col: usize = 0;
        while col < 10
            invariant
                col <= 10,
                row < 20,
                count <= col,
                count == sum_range(0, col as int, self.cell_indicator(row as int)),
            decreases 10 - col,
        {
            if self.cells[row][col] {
                count += 1;
            }
            col += 1;
        }
        count
    }

    /// Counts total occupied cells on the board.
    pub fn cell_count(&self) -> (count: u32)
        ensures
            count == self.count(),
            count <= 200,
    {
        let mut count: u32 = 0;
        let mut row: usize = 0;
        while row < 20
            invariant
                row <= 20,
                count <= 10 * row,
                count == sum_range(0, row as int, self.row_counts()),
            decreases 20 - row,
        {
            count += self.row_cells(row);
            row += 1;
        }
        count
    }

    /// Checks if the board is empty.
    pub fn is_empty(&self) -> (empty: bool)
        ensures
            empty == (forall|r: int, c: int| 0 <= r < 20 && 0 <= c < 10 ==> !self.filled(r, c)),
            empty == (self.count() == 0),
    {
        let count = self.cell_count();
        proof {
            if count == 0 {
                assert forall|r: int, c: int| 0 <= r < 20 && 0 <= c < 10 implies !self.filled(
                    r,
                    c,
                ) by {
                    if self.filled(r, c) {
                        self.lemma_filled_cell_counts(r, c);
                    }
                }
            } else if forall|r: int, c: int| 0 <= r < 20 && 0 <= c < 10 ==> !self.filled(r, c) {
                self.lemma_count_of_clear_board();
            }
        }
        count == 0
    }

    /// A filled cell makes its row, and the board, count at least one.
    pub proof fn lemma_filled_cell_counts(&self, row: int, col: int)
        requires
            0 <= row < 20,
            0 <= col < 10,
            self.filled(row, col),
        ensures
            self.row_count(row) >= 1,
            self.count() >= 1,
    {
        let f = self.cell_indicator(row);
        lemma_sum_split(0, col, 10, f);
        lemma_sum_split(col, col + 1, 10, f);
        lemma_sum_bounds(0, col, f, 0, 1);
        lemma_sum_bounds(col + 1, 10, f, 0, 1);
        assert(sum_range(col, col + 1, f) == f(col)) by {
            assert(sum_range(col, col, f) == 0);
        }
        let g = self.row_counts();
        assert forall|r: int| 0 <= r < 20 implies 0 <= #[trigger] g(r) <= 10 by {
            self.lemma_row_count_bounds(r);
        }
        lemma_sum_split(0, row, 20, g);
        lemma_sum_split(row, row + 1, 20, g);
        lemma_sum_bounds(0, row, g, 0, 10);
        lemma_sum_bounds(row + 1, 20, g, 0, 10);
        assert(sum_range(row, row + 1, g) == g(row)) by {
            assert(sum_range(row, row, g) == 0);
        }
    }

    /// Height of the column when only rows below `limit` are looked at: one
    /// more than the highest filled row among them, or 0.
    pub open spec fn height_below(&self, col: int, limit: int) -> int
        decreases limit,
    {
        if limit <= 0 {
            0
        } else if self.filled(limit - 1, col) {
            limit
        } else {
            self.height_below(col, limit - 1)
        }
    }

    /// Height of the column: one more than its highest filled row, or 0 for
    /// an empty column.
    pub open spec fn height(&self, col: int) -> int {
        self.height_below(col, 20)
    }

    /// What `height_below` amounts to: the cell just under the height is
    /// filled, and nothing from the height up to the limit is.
    pub proof fn lemma_height_below(&self, col: int, limit: int)
        requires
            0 <= limit,
        ensures
            0 <= self.height_below(col, limit) <= limit,
            self.height_below(col, limit) > 0 ==> self.filled(
                self.height_below(col, limit) - 1,
                col,
            ),
            forall|r: int| self.height_below(col, limit) <= r < limit ==> !self.filled(r, col),
        decreases limit,
    {
        if limit > 0 && !self.filled(limit - 1, col) {
            self.lemma_height_below(col, limit - 1);
        }
    }

    /// Returns the height of a column: the number of rows from the bottom up
    /// to and including its highest block, 0 if the column is empty.
    pub fn column_height(&self, col: usize) -> (height: usize)
        requires
            col < 10,
        ensures
            height == self.height(col as int),
            height <= 20,
    {
        let mut row: usize = 20;
        while row > 0
            invariant
                row <= 20,
                col < 10,
                self.height(col as int) == self.height_below(col as int, row as int),
            decreases row,
        {
            if self.cells[row - 1][col] {
                return row;
            }
            row -= 1;
        }
        0
    }

    /// The rows from bottom to top, each with its index.
    pub fn rows_bottom_up(&self) -> (rows: Vec<(usize, [bool; 10])>)
        ensures
            rows@.len() == 20,
            forall|i: int| 0 <= i < 20 ==> rows@[i] == (i as usize, self.cells[i]),
    {
        let mut rows: Vec<(usize, [bool; 10])> = Vec::new();
        let mut i: usize = 0;
        while i < 20
            invariant
                i <= 20,
                rows@.len() == i,
                forall|j: int| 0 <= j < i ==> rows@[j] == (j as usize, self.cells[j]),
            decreases 20 - i,
        {
            rows.push((i, self.cells[i]));
            i += 1;
        }
        rows
    }

    /// The rows from top to bottom, each with its position in that order
    /// (0 is the top row).
    pub fn rows_top_down(&self) -> (rows: Vec<(usize, [bool; 10])>)
        ensures
            rows@.len() == 20,
            forall|i: int| 0 <= i < 20 ==> rows@[i] == (i as usize, self.cells[19 - i]),
    {
        let mut rows: Vec<(usize, [bool; 10])> = Vec::new();
        let mut i: usize = 0;
        while i < 20
            invariant
                i <= 20,
                rows@.len() == i,
                forall|j: int| 0 <= j < i ==> rows@[j] == (j as usize, self.cells[19 - j]),
            decreases 20 - i,
        {
            rows.push((i, self.cells[19 - i]));
            i += 1;
        }
        rows
    }

    /// All cell positions as `(col, row)`, column by column, each column
    /// from the bottom up.
    pub fn all_positions() -> (positions: Vec<(usize, usize)>)
        ensures
            positions@.len() == 200,
            forall|i: int|
                0 <= i < 200 ==> #[trigger] positions@[i] == ((i / 20) as usize, (i % 20) as usize),
    {
        let mut positions: Vec<(usize, usize)> = Vec::new();
        let mut col: usize = 0;
        while col < 10
            invariant
                col <= 10,
                positions@.len() == col * 20,
                forall|i: int|
                    0 <= i < col * 20 ==> #[trigger] positions@[i] == (
                        (i / 20) as usize,
                        (i % 20) as usize,
                    ),
            decreases 10 - col,
        {
            let mut row: usize = 0;
            while row < 20
                invariant
                    col < 10,
                    row <= 20,
                    positions@.len() == col * 20 + row,
                    forall|i: int|
                        0 <= i < col * 20 + row ==> #[trigger] positions@[i] == (
                            (i / 20) as usize,
                            (i % 20) as usize,
                        ),
                decreases 20 - row,
            {
                positions.push((col, row));
                row += 1;
            }
            col += 1;
        }
        positions
    }

    /// All cells flattened, row by row from the bottom, each row from the
    /// left (`true` for an occupied cell).
    pub fn all_cells(&self) -> (cells: Vec<bool>)
        ensures
            cells@.len() == 200,
            forall|i: int| 0 <= i < 200 ==> #[trigger] cells@[i] == self.filled(i / 10, i % 10),
    {
        let mut cells: Vec<bool> = Vec::new();
        let mut row: usize = 0;
        while row < 20
            invariant
                row <= 20,
                cells@.len() == row * 10,
                forall|i: int|
                    0 <= i < row * 10 ==> #[trigger] cells@[i] == self.filled(i / 10, i % 10),
            decreases 20 - row,
        {
            let mut col: usize = 0;
            while col < 10
                invariant
                    row < 20,
                    col <= 10,
                    cells@.len() == row * 10 + col,
                    forall|i: int|
                        0 <= i < row * 10 + col ==> #[trigger] cells@[i] == self.filled(
                            i / 10,
                            i % 10,
                        ),
                decreases 10 - col,
            {
                cells.push(self.cells[row][col]);
                col += 1;
            }
            row += 1;
        }
        cells
    }

    /// The row whose cells are those that `marked` says of row `row`.
    pub open spec fn row_of(marked: spec_fn(int, int) -> bool, row: int) -> [bool; 10] {
        [
            marked(row, 0),
            marked(row, 1),
            marked(row, 2),
            marked(row, 3),
            marked(row, 4),
            marked(row, 5),
            marked(row, 6),
            marked(row, 7),
            marked(row, 8),
            marked(row, 9),
        ]
    }

    /// The board whose filled cells are those that `marked` says, given
    /// row and column.
    #[verifier::opaque]
    pub open spec fn board_of(marked: spec_fn(int, int) -> bool) -> Board {
        Board {
            cells: [
                Self::row_of(marked, 0),
                Self::row_of(marked, 1),
                Self::row_of(marked, 2),
                Self::row_of(marked, 3),
                Self::row_of(marked, 4),
                Self::row_of(marked, 5),
                Self::row_of(marked, 6),
                Self::row_of(marked, 7),
                Self::row_of(marked, 8),
                Self::row_of(marked, 9),
                Self::row_of(marked, 10),
                Self::row_of(marked, 11),
                Self::row_of(marked, 12),
                Self::row_of(marked, 13),
                Self::row_of(marked, 14),
                Self::row_of(marked, 15),
                Self::row_of(marked, 16),
                Self::row_of(marked, 17),
                Self::row_of(marked, 18),
                Self::row_of(marked, 19),
            ],
        }
    }

    /// `row_of` fills the cells it is told to, and no others.
    pub proof fn lemma_row_of(marked: spec_fn(int, int) -> bool, row: int)
        ensures
            forall|c: int| 0 <= c < 10 ==> #[trigger] Self::row_of(marked, row)[c] == marked(row, c),
    {
    }

    /// `board_of` fills the cells it is told to, and no others.
    pub proof fn lemma_board_of(marked: spec_fn(int, int) -> bool)
        ensures
            forall|r: int, c: int|
                0 <= r < 20 && 0 <= c < 10 ==> #[trigger] Self::board_of(marked).filled(r, c)
                    == marked(r, c),
    {
        reveal(Board::board_of);
        let board = Self::board_of(marked);
        assert forall|r: int, c: int| 0 <= r < 20 && 0 <= c < 10 implies #[trigger] board.filled(
            r,
            c,
        ) == marked(r, c) by {
            if r == 0 {
                Self::lemma_row_of(marked, 0);
            } else if r == 1 {
                Self::lemma_row_of(marked, 1);
            } else if r == 2 {
                Self::lemma_row_of(marked, 2);
            } else if r == 3 {
                Self::lemma_row_of(marked, 3);
            } else if r == 4 {
                Self::lemma_row_of(marked, 4);
            } else if r == 5 {
                Self::lemma_row_of(marked, 5);
            } else if r == 6 {
                Self::lemma_row_of(marked, 6);
            } else if r == 7 {
                Self::lemma_row_of(marked, 7);
            } else if r == 8 {
                Self::lemma_row_of(marked, 8);
            } else if r == 9 {
                Self::lemma_row_of(marked, 9);
            } else if r == 10 {
                Self::lemma_row_of(marked, 10);
            } else if r == 11 {
                Self::lemma_row_of(marked, 11);
            } else if r == 12 {
                Self::lemma_row_of(marked, 12);
            } else if r == 13 {
                Self::lemma_row_of(marked, 13);
            } else if r == 14 {
                Self::lemma_row_of(marked, 14);
            } else if r == 15 {
                Self::lemma_row_of(marked, 15);
            } else if r == 16 {
                Self::lemma_row_of(marked, 16);
            } else if r == 17 {
                Self::lemma_row_of(marked, 17);
            } else if r == 18 {
                Self::lemma_row_of(marked, 18);
            } else if r == 19 {
                Self::lemma_row_of(marked, 19);
            }
            assert(board.cells[r] == Self::row_of(marked, r));
            assert(Self::row_of(marked, r)[c] == marked(r, c));
        }
    }

    /// There is a board without a filled cell, and `empty` is it.
    pub proof fn lemma_empty_is_clear()
        ensures
            Self::empty().is_clear(),
    {
        let witness = Self::board_of(|r: int, c: int| false);
        Self::lemma_board_of(|r: int, c: int| false);
        assert(witness.is_clear());
    }

    /// The piece's first `limit` cells can be put on the board, and
    /// `partly_placed` is the result.
    pub open spec fn partly_placed(&self, piece: FallingPiece, limit: int) -> Board {
        Self::board_of(
            |r: int, c: int| self.filled(r, c) || Self::covered_before(piece, limit, r, c),
        )
    }

    /// Each of the piece's cells that is put on the board adds one to the
    /// count, as long as the piece fits.
    pub proof fn lemma_partly_placed(&self, piece: FallingPiece, limit: int)
        requires
            self.fits(piece),
            0 <= limit <= 4,
        ensures
            self.partly_placed(piece, limit).count() == self.count() + limit,
        decreases limit,
    {
        let marks = |r: int, c: int| self.filled(r, c) || Self::covered_before(piece, limit, r, c);
        Self::lemma_board_of(marks);
        let now = self.partly_placed(piece, limit);
        if limit == 0 {
            assert forall|r: int, c: int| 0 <= r < 20 && 0 <= c < 10 implies now.filled(r, c)
                == self.filled(r, c) by {
                assert(now.filled(r, c) == marks(r, c));
            }
            now.lemma_same_cells(*self);
        } else {
            self.lemma_partly_placed(piece, limit - 1);
            let earlier_marks = |r: int, c: int|
                self.filled(r, c) || Self::covered_before(piece, limit - 1, r, c);
            Self::lemma_board_of(earlier_marks);
            let earlier = self.partly_placed(piece, limit - 1);
            self.lemma_fits_near(piece);
            piece.tetromino.lemma_offsets_distinct(piece.rotation.0);
            let row = piece.cell_row(limit - 1);
            let col = piece.cell_col(limit - 1);
            assert(Self::inside(piece.cell_col(limit - 1), piece.cell_row(limit - 1)));
            assert(!earlier.filled(row, col)) by {
                assert(earlier.filled(row, col) == earlier_marks(row, col));
                if Self::covered_before(piece, limit - 1, row, col) {
                    let j = choose|j: int|
                        0 <= j < limit - 1 && #[trigger] piece.cell_col(j) == col && piece.cell_row(
                            j,
                        ) == row;
                    let o = piece.tetromino.offsets(piece.rotation.0);
                    assert(o[j] == o[limit - 1]);
                }
            }
            assert(now.filled(row, col)) by {
                assert(now.filled(row, col) == marks(row, col));
                assert(piece.cell_col(limit - 1) == col && piece.cell_row(limit - 1) == row);
            }
            assert forall|r: int, c: int|
                0 <= r < 20 && 0 <= c < 10 && !(r == row && c == col) implies now.filled(r, c)
                == earlier.filled(r, c) by {
                assert(now.filled(r, c) == marks(r, c));
                assert(earlier.filled(r, c) == earlier_marks(r, c));
                if Self::covered_before(piece, limit, r, c) {
                    let j = choose|j: int|
                        0 <= j < limit && #[trigger] piece.cell_col(j) == c && piece.cell_row(j)
                            == r;
                    assert(j < limit - 1);
                }
                if Self::covered_before(piece, limit - 1, r, c) {
                    let j = choose|j: int|
                        0 <= j < limit - 1 && #[trigger] piece.cell_col(j) == c && piece.cell_row(
                            j,
                        ) == r;
                    assert(j < limit);
                }
            }
            earlier.lemma_count_after_fill(now, row, col);
        }
    }

    /// A piece can always be put on the board, and `placed` is the result.
    /// A piece that fits adds four to the count.
    pub proof fn lemma_placed_exists(&self, piece: FallingPiece)
        ensures
            self.places_to(piece, self.placed(piece)),
            self.fits(piece) ==> self.placed(piece).count() == self.count() + 4,
    {
        let marks = |r: int, c: int| self.filled(r, c) || Self::covered_before(piece, 4, r, c);
        Self::lemma_board_of(marks);
        let witness = self.partly_placed(piece, 4);
        assert forall|r: int, c: int| 0 <= r < 20 && 0 <= c < 10 implies #[trigger] witness.filled(
            r,
            c,
        ) == (self.filled(r, c) || Self::covered_by(piece, r, c)) by {
            assert(witness.filled(r, c) == marks(r, c));
            if Self::covered_before(piece, 4, r, c) {
                let j = choose|j: int|
                    0 <= j < 4 && #[trigger] piece.cell_col(j) == c && piece.cell_row(j) == r;
                assert(Self::covered_by(piece, r, c));
            }
            if Self::covered_by(piece, r, c) {
                let j = choose|j: int|
                    0 <= j < 4 && #[trigger] piece.cell_col(j) == c && piece.cell_row(j) == r;
                assert(Self::covered_before(piece, 4, r, c));
            }
        }
        assert(self.places_to(piece, witness));
        self.lemma_placed(piece, witness);
        if self.fits(piece) {
            self.lemma_partly_placed(piece, 4);
        }
    }

    /// The row that lands in row `target` when the full rows are cleared.
    pub open spec fn source_of(&self, target: int) -> int {
        choose|i: int| 0 <= i < 20 && !self.row_full(i) && self.survivors_below(i) == target
    }

    /// Full rows can always be cleared, and `cleared` is the result.
    pub proof fn lemma_cleared_exists(&self)
        ensures
            self.clears_to(self.cleared()),
    {
        let kept = self.survivors_below(20);
        let marks = |r: int, c: int| r < kept && self.filled(self.source_of(r), c);
        Self::lemma_board_of(marks);
        self.lemma_survivors_monotone(0, 20);
        assert(self.survivors_below(0) == 0);
        let witness = Self::board_of(marks);
        assert forall|i: int| 0 <= i < 20 && !self.row_full(i) implies witness.cells[
        #[trigger] self.survivors_below(i)] == self.cells[i] by {
            let j = self.survivors_below(i);
            self.lemma_survivors_monotone(0, i);
            self.lemma_survivors_monotone(i + 1, 20);
            assert(self.survivors_below(0) == 0);
            assert(self.survivors_below(i + 1) == j + 1);
            let source = self.source_of(j);
            assert(0 <= source < 20 && !self.row_full(source) && self.survivors_below(source) == j);
            if source < i {
                self.lemma_survivors_monotone(source + 1, i);
                assert(self.survivors_below(source + 1) == j + 1);
            } else if i < source {
                self.lemma_survivors_monotone(i + 1, source);
            }
            assert forall|c: int| 0 <= c < 10 implies witness.cells[j][c] == self.cells[i][c] by {
                assert(witness.filled(j, c) == marks(j, c));
                assert(self.filled(i, c) == self.cells[i][c]);
            }
            assert(witness.cells[j] =~= self.cells[i]);
        }
        assert forall|j: int| kept <= j < 20 implies witness.row_clear(j) by {
            assert forall|c: int| 0 <= c < 10 implies !witness.filled(j, c) by {
                assert(witness.filled(j, c) == marks(j, c));
            }
        }
        assert(self.clears_to(witness));
        self.lemma_cleared(witness);
    }

    /// The rows that land below row `survivors_below(limit)` hold the cells
    /// of the rows below `limit`, less ten for every full row among them.
    pub proof fn lemma_kept_counts(&self, after: Board, limit: int)
        requires
            self.clears_to(after),
            0 <= limit <= 20,
        ensures
            sum_range(0, self.survivors_below(limit), after.row_counts()) + 10 * (limit
                - self.survivors_below(limit)) == sum_range(0, limit, self.row_counts()),
        decreases limit,
    {
        if limit > 0 {
            self.lemma_kept_counts(after, limit - 1);
            self.lemma_survivors_monotone(0, limit - 1);
            assert(self.survivors_below(0) == 0);
            if self.row_full(limit - 1) {
                self.lemma_count_of_full_row(limit - 1);
            } else {
                let target = self.survivors_below(limit - 1);
                assert(after.cells[target] == self.cells[limit - 1]);
                after.lemma_row_count_of_equal_rows(target, *self, limit - 1);
            }
        }
    }

    /// After clearing, no row is completely filled, and ten cells are gone
    /// for every row that was.
    pub proof fn lemma_cleared_rows(&self)
        ensures
            forall|j: int| 0 <= j < 20 ==> !#[trigger] self.cleared().row_full(j),
            self.cleared().count() == self.count() - 10 * self.full_row_count(),
    {
        self.lemma_cleared_exists();
        let after = self.cleared();
        let kept = self.survivors_below(20);
        self.lemma_survivors_monotone(0, 20);
        assert(self.survivors_below(0) == 0);
        assert forall|j: int| 0 <= j < 20 implies !#[trigger] after.row_full(j) by {
            if j < kept {
                self.lemma_survivor_source(j, 20);
                let i = choose|i: int|
                    0 <= i < 20 && !self.row_full(i) && #[trigger] self.survivors_below(i) == j;
                assert(after.cells[self.survivors_below(i)] == self.cells[i]);
                after.lemma_row_count_of_equal_rows(j, *self, i);
            } else {
                assert(after.row_clear(j));
                assert(!after.filled(j, 0));
            }
        }
        self.lemma_kept_counts(after, 20);
        assert forall|j: int| kept <= j < 20 implies #[trigger] after.row_counts()(j) == 0 by {
            after.lemma_count_of_clear_row(j);
        }
        lemma_sum_split(0, kept, 20, after.row_counts());
        lemma_sum_bounds(kept, 20, after.row_counts(), 0, 0);
    }

    /// Locking a piece that fits and clearing the full rows leaves the
    /// cells that were there and the four of the piece, less ten for every
    /// row cleared.
    pub proof fn lemma_lock_keeps_cells(&self, piece: FallingPiece)
        requires
            self.fits(piece),
        ensures
            self.placed(piece).cleared().count() == self.count() + 4 - 10 * self.placed(
                piece,
            ).full_row_count(),
    {
        self.lemma_placed_exists(piece);
        self.placed(piece).lemma_cleared_rows();
    }
}

} // verus!
