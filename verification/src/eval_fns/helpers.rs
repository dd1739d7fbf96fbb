//! Holes: the notion that most features are built on.

use crate::game::Board;
use vstd::prelude::*;

verus! {

impl Board {
    /// Some cell above `(row, col)` in the same column is filled.
    pub open spec fn filled_above(&self, row: int, col: int) -> bool {
        exists|r: int| row < r < 20 && self.filled(r, col)
    }

    /// The cell is a hole: empty, with a filled cell somewhere above it.
    pub open spec fn is_hole(&self, row: int, col: int) -> bool {
        !self.filled(row, col) && self.filled_above(row, col)
    }

    /// The row holds at least one hole.
    pub open spec fn row_has_hole(&self, row: int) -> bool {
        exists|c: int| 0 <= c < 10 && self.is_hole(row, c)
    }

    /// The highest row below `limit` that holds a hole.
    pub open spec fn highest_hole_below(&self, limit: int) -> Option<int>
        decreases limit,
    {
        if limit <= 0 {
            None
        } else if self.row_has_hole(limit - 1) {
            Some(limit - 1)
        } else {
            self.highest_hole_below(limit - 1)
        }
    }

    /// The highest row that holds a hole, if there is any hole.
    pub open spec fn highest_hole(&self) -> Option<int> {
        self.highest_hole_below(20)
    }

    /// What `highest_hole_below` amounts to: the row it names holds a hole
    /// and no row between it and the limit does; `None` means no row below
    /// the limit holds one.
    pub proof fn lemma_highest_hole_below(&self, limit: int)
        requires
            0 <= limit,
        ensures
            match self.highest_hole_below(limit) {
                Some(row) => 0 <= row < limit && self.row_has_hole(row) && forall|r: int|
                    row < r < limit ==> !self.row_has_hole(r),
                None => forall|r: int| 0 <= r < limit ==> !self.row_has_hole(r),
            },
        decreases limit,
    {
        if limit > 0 && !self.row_has_hole(limit - 1) {
            self.lemma_highest_hole_below(limit - 1);
        }
    }

    /// Checks if there is at least one filled cell above the given position.
    pub fn has_filled_above(&self, row: usize, col: usize) -> (found: bool)
        requires
            col < 10,
        ensures
            found == self.filled_above(row as int, col as int),
    {
        if row >= 19 {
            return false;
        }
        let mut r: usize = row + 1;
        while r < 20
            invariant
                row < r <= 20,
                col < 10,
                forall|q: int| row < q < r ==> !self.filled(q, col as int),
            decreases 20 - r,
        {
            if self.cells[r][col] {
                assert(self.filled(r as int, col as int));
                return true;
            }
            r += 1;
        }
        false
    }

    /// Checks whether the row holds a hole.
    pub fn has_hole_in_row(&self, row: usize) -> (found: bool)
        requires
            row < 20,
        ensures
            found == self.row_has_hole(row as int),
    {
        let mut col: usize = 0;
        while col < 10
            invariant
                col <= 10,
                row < 20,
                forall|c: int| 0 <= c < col ==> !self.is_hole(row as int, c),
            decreases 10 - col,
        {
            if !self.cells[row][col] && self.has_filled_above(row, col) {
                assert(self.is_hole(row as int, col as int));
                return true;
            }
            col += 1;
        }
        false
    }

    /// Returns the row index of the highest hole, or `None` if no holes
    /// exist. A hole is an empty cell with at least one filled cell above
    /// it.
    pub fn highest_hole_row(&self) -> (found: Option<usize>)
        ensures
            match found {
                Some(row) => self.highest_hole() == Some(row as int),
                None => self.highest_hole() is None,
            },
    {
        assert(!self.row_has_hole(19));
        let mut row: usize = 19;
        while row > 0
            invariant
                row <= 19,
                self.highest_hole() == self.highest_hole_below(row as int),
            decreases row,
        {
            row -= 1;
            if self.has_hole_in_row(row) {
                return Some(row);
            }
        }
        None
    }
}

} // verus!
