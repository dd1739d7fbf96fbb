//! Rotation tables of the seven tetrominoes.
//!
//! Each piece has four rotation states (0 = spawn, 1 = clockwise, 2 = half
//! turn, 3 = counter-clockwise). The table gives a state as four
//! `(col, row)` cells of a box in which the piece turns about its middle,
//! with row 0 at the bottom. A piece on the board has its origin at the
//! lower-left corner of the cells themselves: its offsets are the table's
//! cells moved down and to the left until one of them is in column 0 and
//! one in row 0.
//!
//! ```text
//! I: ████      O: ██      T:  █       S:  ██      Z: ██       J: █        L:   █
//!                 ██         ███         ██           ██         ███         ███
//! ```

use super::tetromino::Tetromino;
use vstd::prelude::*;

verus! {

/// I piece, in a 4x4 box: horizontal in row 1, vertical in column 2,
/// horizontal in row 2, vertical in column 1.
pub const I: [[(i8, i8); 4]; 4] = [
    [(0, 1), (1, 1), (2, 1), (3, 1)],
    [(2, 0), (2, 1), (2, 2), (2, 3)],
    [(0, 2), (1, 2), (2, 2), (3, 2)],
    [(1, 0), (1, 1), (1, 2), (1, 3)],
];

/// O piece: the same square in every state.
pub const O: [[(i8, i8); 4]; 4] = [
    [(0, 0), (1, 0), (0, 1), (1, 1)],
    [(0, 0), (1, 0), (0, 1), (1, 1)],
    [(0, 0), (1, 0), (0, 1), (1, 1)],
    [(0, 0), (1, 0), (0, 1), (1, 1)],
];

/// T piece, in a 3x3 box: pointing up, right, down, left.
pub const T: [[(i8, i8); 4]; 4] = [
    [(0, 1), (1, 1), (2, 1), (1, 2)],
    [(0, 0), (0, 1), (0, 2), (1, 1)],
    [(0, 1), (1, 1), (2, 1), (1, 0)],
    [(1, 0), (1, 1), (1, 2), (0, 1)],
];

/// S piece: horizontal, vertical, and the same two again.
pub const S: [[(i8, i8); 4]; 4] = [
    [(0, 1), (1, 1), (1, 2), (2, 2)],
    [(0, 1), (0, 2), (1, 0), (1, 1)],
    [(0, 1), (1, 1), (1, 2), (2, 2)],
    [(0, 1), (0, 2), (1, 0), (1, 1)],
];

/// Z piece: horizontal, vertical, and the same two again.
pub const Z: [[(i8, i8); 4]; 4] = [
    [(0, 2), (1, 2), (1, 1), (2, 1)],
    [(0, 0), (0, 1), (1, 1), (1, 2)],
    [(0, 2), (1, 2), (1, 1), (2, 1)],
    [(0, 0), (0, 1), (1, 1), (1, 2)],
];

/// J piece, in a 3x3 box.
pub const J: [[(i8, i8); 4]; 4] = [
    [(0, 1), (1, 1), (2, 1), (0, 2)],
    [(0, 0), (0, 1), (0, 2), (1, 2)],
    [(0, 1), (1, 1), (2, 1), (2, 0)],
    [(0, 0), (1, 0), (1, 1), (1, 2)],
];

/// L piece, in a 3x3 box.
pub const L: [[(i8, i8); 4]; 4] = [
    [(0, 1), (1, 1), (2, 1), (2, 2)],
    [(0, 0), (0, 1), (0, 2), (1, 0)],
    [(0, 1), (1, 1), (2, 1), (0, 0)],
    [(1, 0), (1, 1), (1, 2), (0, 2)],
];

impl Tetromino {
    /// The four cells of this piece in rotation state `rotation % 4`, as
    /// the table gives them.
    pub open spec fn table(self, rotation: u8) -> [(i8, i8); 4] {
        let r = (rotation % 4) as int;
        match self {
            Tetromino::I => I[r],
            Tetromino::O => O[r],
            Tetromino::T => T[r],
            Tetromino::S => S[r],
            Tetromino::Z => Z[r],
            Tetromino::J => J[r],
            Tetromino::L => L[r],
        }
    }

    /// Returns the cells of this piece at the given rotation state, as the
    /// table gives them.
    #[verifier::when_used_as_spec(table)]
    pub fn rotation_cells(self, rotation: u8) -> (cells: [(i8, i8); 4])
        ensures
            cells == self.table(rotation),
    {
        let r = (rotation % 4) as usize;
        match self {
            Tetromino::I => I[r],
            Tetromino::O => O[r],
            Tetromino::T => T[r],
            Tetromino::S => S[r],
            Tetromino::Z => Z[r],
            Tetromino::J => J[r],
            Tetromino::L => L[r],
        }
    }

    /// The lower-left corner of the table's cells in a rotation state: their
    /// least column and their least row.
    pub open spec fn corner(self, rotation: u8) -> (int, int) {
        let t = self.table(rotation);
        (least(t[0].0, t[1].0, t[2].0, t[3].0) as int, least(t[0].1, t[1].1, t[2].1, t[3].1) as int)
    }

    /// The four cell offsets of this piece in rotation state `rotation % 4`:
    /// the table's cells, counted from their lower-left corner.
    pub open spec fn offsets(self, rotation: u8) -> [(i8, i8); 4] {
        let t = self.table(rotation);
        let c = self.corner(rotation);
        [
            ((t[0].0 - c.0) as i8, (t[0].1 - c.1) as i8),
            ((t[1].0 - c.0) as i8, (t[1].1 - c.1) as i8),
            ((t[2].0 - c.0) as i8, (t[2].1 - c.1) as i8),
            ((t[3].0 - c.0) as i8, (t[3].1 - c.1) as i8),
        ]
    }

    /// The table keeps every cell inside a 4x4 box.
    pub proof fn lemma_table_in_box(self, rotation: u8)
        ensures
            forall|k: int|
                0 <= k < 4 ==> 0 <= (#[trigger] self.table(rotation)[k]).0 <= 3 && 0
                    <= self.table(rotation)[k].1 <= 3,
    {
    }

    /// Every offset is the table's cell less the corner, and the corner is
    /// the least column and the least row that the table's cells have.
    pub proof fn lemma_offsets_from_corner(self, rotation: u8)
        ensures
            forall|k: int|
                0 <= k < 4 ==> (#[trigger] self.offsets(rotation)[k]).0 == self.table(
                    rotation,
                )[k].0 - self.corner(rotation).0 && self.offsets(rotation)[k].1 == self.table(
                    rotation,
                )[k].1 - self.corner(rotation).1,
            forall|k: int|
                0 <= k < 4 ==> 0 <= self.corner(rotation).0 <= (#[trigger] self.table(
                    rotation,
                )[k]).0 && 0 <= self.corner(rotation).1 <= self.table(rotation)[k].1,
            exists|k: int| 0 <= k < 4 && (#[trigger] self.offsets(rotation)[k]).0 == 0,
            exists|k: int| 0 <= k < 4 && (#[trigger] self.offsets(rotation)[k]).1 == 0,
    {
        self.lemma_table_in_box(rotation);
        let t = self.table(rotation);
        let c = self.corner(rotation);
        let o = self.offsets(rotation);
        assert(0 <= t[0].0 <= 3 && 0 <= t[1].0 <= 3 && 0 <= t[2].0 <= 3 && 0 <= t[3].0 <= 3);
        assert(0 <= t[0].1 <= 3 && 0 <= t[1].1 <= 3 && 0 <= t[2].1 <= 3 && 0 <= t[3].1 <= 3);
        assert(c.0 == t[0].0 || c.0 == t[1].0 || c.0 == t[2].0 || c.0 == t[3].0);
        assert(c.1 == t[0].1 || c.1 == t[1].1 || c.1 == t[2].1 || c.1 == t[3].1);
        assert(o[0] == (((t[0].0 - c.0) as i8, (t[0].1 - c.1) as i8)));
        assert(o[1] == (((t[1].0 - c.0) as i8, (t[1].1 - c.1) as i8)));
        assert(o[2] == (((t[2].0 - c.0) as i8, (t[2].1 - c.1) as i8)));
        assert(o[3] == (((t[3].0 - c.0) as i8, (t[3].1 - c.1) as i8)));
        assert(o[0].0 == 0 || o[1].0 == 0 || o[2].0 == 0 || o[3].0 == 0);
        assert(o[0].1 == 0 || o[1].1 == 0 || o[2].1 == 0 || o[3].1 == 0);
    }

    /// In its spawn state every piece lies in the two rows from its origin
    /// up.
    pub proof fn lemma_spawn_state_is_flat(self)
        ensures
            forall|k: int| 0 <= k < 4 ==> 0 <= (#[trigger] self.offsets(0)[k]).1 <= 1,
            forall|k: int| 0 <= k < 4 ==> 0 <= (#[trigger] self.offsets(0)[k]).0 <= 3,
    {
        self.lemma_offsets_from_corner(0);
        let t = self.table(0);
        assert(t[0].1 - self.corner(0).1 <= 1 && t[1].1 - self.corner(0).1 <= 1);
        assert(t[2].1 - self.corner(0).1 <= 1 && t[3].1 - self.corner(0).1 <= 1);
    }

    /// Every rotation state keeps its offsets inside a 4x4 box.
    pub proof fn lemma_offsets_in_box(self, rotation: u8)
        ensures
            forall|k: int|
                0 <= k < 4 ==> 0 <= (#[trigger] self.offsets(rotation)[k]).0 <= 3 && 0
                    <= self.offsets(rotation)[k].1 <= 3,
    {
        self.lemma_offsets_from_corner(rotation);
        self.lemma_table_in_box(rotation);
    }

    /// The table gives every rotation state four distinct cells.
    pub proof fn lemma_table_distinct(self, rotation: u8)
        ensures
            forall|j: int, k: int|
                0 <= j < k < 4 ==> #[trigger] self.table(rotation)[j] != #[trigger] self.table(
                    rotation,
                )[k],
    {
    }

    /// Every rotation state has four distinct cells.
    pub proof fn lemma_offsets_distinct(self, rotation: u8)
        ensures
            forall|j: int, k: int|
                0 <= j < k < 4 ==> #[trigger] self.offsets(rotation)[j] != #[trigger] self.offsets(
                    rotation,
                )[k],
    {
        self.lemma_offsets_from_corner(rotation);
        self.lemma_table_distinct(rotation);
        let t = self.table(rotation);
        let o = self.offsets(rotation);
        assert forall|j: int, k: int| 0 <= j < k < 4 implies #[trigger] o[j] != #[trigger] o[k] by {
            assert(t[j] != t[k]);
            assert(t[j].0 != t[k].0 || t[j].1 != t[k].1);
        }
    }

    /// The table gives every rotation state in one piece.
    pub proof fn lemma_table_connected(self, rotation: u8)
        ensures
            forall|i: int, j: int|
                0 <= i < 4 && 0 <= j < 4 ==> #[trigger] joined(self.table(rotation), i, j),
    {
        let t = self.table(rotation);
        assert(joined(t, 0, 0) && joined(t, 0, 1) && joined(t, 0, 2) && joined(t, 0, 3));
        assert(joined(t, 1, 0) && joined(t, 1, 1) && joined(t, 1, 2) && joined(t, 1, 3));
        assert(joined(t, 2, 0) && joined(t, 2, 1) && joined(t, 2, 2) && joined(t, 2, 3));
        assert(joined(t, 3, 0) && joined(t, 3, 1) && joined(t, 3, 2) && joined(t, 3, 3));
    }

    /// Every rotation state is in one piece: from each of its cells every
    /// other can be reached by steps from cell to cell across an edge.
    pub proof fn lemma_offsets_connected(self, rotation: u8)
        ensures
            forall|i: int, j: int|
                0 <= i < 4 && 0 <= j < 4 ==> #[trigger] joined(self.offsets(rotation), i, j),
    {
        self.lemma_offsets_from_corner(rotation);
        self.lemma_table_connected(rotation);
        let t = self.table(rotation);
        let o = self.offsets(rotation);
        assert forall|a: int, b: int| 0 <= a < 4 && 0 <= b < 4 implies adjacent(o[a], o[b])
            == adjacent(t[a], t[b]) by {
            assert(o[a].0 - o[b].0 == t[a].0 - t[b].0);
            assert(o[a].1 - o[b].1 == t[a].1 - t[b].1);
        }
        assert forall|i: int, j: int| 0 <= i < 4 && 0 <= j < 4 implies #[trigger] joined(
            o,
            i,
            j,
        ) by {
            assert(joined(t, i, j));
        }
    }
}

/// The least of four numbers.
pub open spec fn least(a: i8, b: i8, c: i8, d: i8) -> i8 {
    let ab = if a <= b { a } else { b };
    let cd = if c <= d { c } else { d };
    if ab <= cd { ab } else { cd }
}

/// Returns the least of four numbers.
pub fn least_of(a: i8, b: i8, c: i8, d: i8) -> (m: i8)
    ensures
        m == least(a, b, c, d),
{
    let ab = if a <= b { a } else { b };
    let cd = if c <= d { c } else { d };
    if ab <= cd { ab } else { cd }
}

/// Cell `j` is reached from cell `i` in two steps across edges, by way of
/// cell `k`.
pub open spec fn via(cells: [(i8, i8); 4], i: int, k: int, j: int) -> bool {
    adjacent(cells[i], cells[k]) && adjacent(cells[k], cells[j])
}

/// Cell `j` is reached from cell `i` in two steps across edges.
pub open spec fn two_steps(cells: [(i8, i8); 4], i: int, j: int) -> bool {
    via(cells, i, 0, j) || via(cells, i, 1, j) || via(cells, i, 2, j) || via(cells, i, 3, j)
}

/// Cell `j` is reached from cell `i` in three steps across edges.
pub open spec fn three_steps(cells: [(i8, i8); 4], i: int, j: int) -> bool {
    ||| (adjacent(cells[i], cells[0]) && two_steps(cells, 0, j))
    ||| (adjacent(cells[i], cells[1]) && two_steps(cells, 1, j))
    ||| (adjacent(cells[i], cells[2]) && two_steps(cells, 2, j))
    ||| (adjacent(cells[i], cells[3]) && two_steps(cells, 3, j))
}

/// Cell `j` is cell `i` or is reached from it by steps across edges; with
/// four cells, three steps are as far as it can be.
pub open spec fn joined(cells: [(i8, i8); 4], i: int, j: int) -> bool {
    ||| i == j
    ||| adjacent(cells[i], cells[j])
    ||| two_steps(cells, i, j)
    ||| three_steps(cells, i, j)
}

/// Two cells share an edge.
pub open spec fn adjacent(a: (i8, i8), b: (i8, i8)) -> bool {
    ||| (a.0 == b.0 && (a.1 - b.1 == 1 || b.1 - a.1 == 1))
    ||| (a.1 == b.1 && (a.0 - b.0 == 1 || b.0 - a.0 == 1))
}

} // verus!
