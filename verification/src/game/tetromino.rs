//! Tetrominoes, rotation states and pieces in flight.

use crate::game::rotations::least_of;
use crate::random::{ambient_rng, random_index};
use rand::rngs::StdRng;
use vstd::prelude::*;

verus! {

/// The 7 standard Tetris pieces.
#[derive(Debug, Clone, Copy, PartialEq, Eq, Structural)]
pub enum Tetromino {
    I,
    O,
    T,
    S,
    Z,
    J,
    L,
}

/// Rotation state. States are counted modulo 4: 0, 90, 180 and 270 degrees
/// clockwise.
#[derive(Debug, Clone, Copy, PartialEq, Eq, Structural)]
pub struct Rotation(pub u8);

impl Default for Rotation {
    fn default() -> (r: Self)
        ensures
            r.0 == 0,
    {
        Rotation(0)
    }
}

impl Rotation {
    /// The next state clockwise.
    pub fn clockwise(self) -> (r: Self)
        ensures
            r.0 == (self.0 + 1) % 4,
    {
        Rotation((self.0 % 4 + 1) % 4)
    }

    /// The next state counter-clockwise.
    pub fn counter_clockwise(self) -> (r: Self)
        ensures
            r.0 == (self.0 + 3) % 4,
    {
        Rotation((self.0 % 4 + 3) % 4)
    }
}

/// A piece with position and rotation state.
#[derive(Debug, Clone, Copy)]
pub struct FallingPiece {
    pub tetromino: Tetromino,
    pub rotation: Rotation,
    /// Column of the piece's origin: the leftmost column of its cells.
    pub col: i8,
    /// Row of the piece's origin: the lowest row of its cells.
    pub row: i8,
}

impl FallingPiece {
    /// Column of the piece's `k`-th cell on the board.
    pub open spec fn cell_col(self, k: int) -> int {
        self.col + self.tetromino.offsets(self.rotation.0)[k].0
    }

    /// Row of the piece's `k`-th cell on the board.
    pub open spec fn cell_row(self, k: int) -> int {
        self.row + self.tetromino.offsets(self.rotation.0)[k].1
    }

    /// The piece of the given shape where it enters the board.
    pub open spec fn spawned(tetromino: Tetromino) -> FallingPiece {
        FallingPiece {
            tetromino,
            rotation: Rotation(0),
            col: tetromino.spawn_origin().0,
            row: tetromino.spawn_origin().1,
        }
    }

    /// Creates a new piece at the spawn position.
    pub fn spawn(tetromino: Tetromino) -> (p: Self)
        ensures
            p == Self::spawned(tetromino),
    {
        let (col, row) = tetromino.spawn_position();
        FallingPiece { tetromino, rotation: Rotation(0), col, row }
    }

    /// Returns the absolute cell positions for this piece, as `(col, row)`.
    ///
    /// Every cell must have its column and its row within `i8`.
    pub fn cells(self) -> (cells: [(i8, i8); 4])
        requires
            forall|k: int|
                0 <= k < 4 ==> #[trigger] self.cell_col(k) <= i8::MAX && self.cell_row(k)
                    <= i8::MAX,
        ensures
            forall|k: int|
                0 <= k < 4 ==> (#[trigger] cells[k]).0 == self.cell_col(k) && cells[k].1
                    == self.cell_row(k),
    {
        let offsets = self.tetromino.cells(self.rotation);
        proof {
            self.tetromino.lemma_offsets_in_box(self.rotation.0);
            assert(self.cell_col(0) <= i8::MAX && self.cell_col(1) <= i8::MAX);
            assert(self.cell_col(2) <= i8::MAX && self.cell_col(3) <= i8::MAX);
        }
        [
            (self.col + offsets[0].0, self.row + offsets[0].1),
            (self.col + offsets[1].0, self.row + offsets[1].1),
            (self.col + offsets[2].0, self.row + offsets[2].1),
            (self.col + offsets[3].0, self.row + offsets[3].1),
        ]
    }

    /// Returns a copy moved by the given offset, which must keep the origin
    /// within `i8`.
    pub fn moved(self, dcol: i8, drow: i8) -> (p: Self)
        requires
            i8::MIN <= self.col + dcol <= i8::MAX,
            i8::MIN <= self.row + drow <= i8::MAX,
        ensures
            p.col == self.col + dcol,
            p.row == self.row + drow,
            p.tetromino == self.tetromino,
            p.rotation == self.rotation,
    {
        FallingPiece {
            col: self.col + dcol,
            row: self.row + drow,
            tetromino: self.tetromino,
            rotation: self.rotation,
        }
    }

    /// Returns a copy moved by the given offset, or `None` if that would
    /// take the origin out of `i8`.
    pub fn checked_moved(self, dcol: i8, drow: i8) -> (moved: Option<Self>)
        ensures
            moved is Some <==> (i8::MIN <= self.col + dcol <= i8::MAX && i8::MIN <= self.row
                + drow <= i8::MAX),
            moved matches Some(p) ==> {
                &&& p.col == self.col + dcol
                &&& p.row == self.row + drow
                &&& p.tetromino == self.tetromino
                &&& p.rotation == self.rotation
            },
    {
        let col: i16 = self.col as i16 + dcol as i16;
        let row: i16 = self.row as i16 + drow as i16;
        if col < -128 || col > 127 || row < -128 || row > 127 {
            None
        } else {
            Some(
                FallingPiece {
                    col: col as i8,
                    row: row as i8,
                    tetromino: self.tetromino,
                    rotation: self.rotation,
                },
            )
        }
    }

    /// Returns a copy rotated clockwise.
    pub fn rotated_cw(self) -> (p: Self)
        ensures
            p.rotation.0 == (self.rotation.0 + 1) % 4,
            p.tetromino == self.tetromino,
            p.col == self.col,
            p.row == self.row,
    {
        FallingPiece {
            rotation: self.rotation.clockwise(),
            tetromino: self.tetromino,
            col: self.col,
            row: self.row,
        }
    }

    /// Returns a copy rotated counter-clockwise.
    pub fn rotated_ccw(self) -> (p: Self)
        ensures
            p.rotation.0 == (self.rotation.0 + 3) % 4,
            p.tetromino == self.tetromino,
            p.col == self.col,
            p.row == self.row,
    {
        FallingPiece {
            rotation: self.rotation.counter_clockwise(),
            tetromino: self.tetromino,
            col: self.col,
            row: self.row,
        }
    }
}

impl Tetromino {
    /// All tetromino variants, in the order random draws index them.
    pub const ALL: [Self; 7] = [Self::I, Self::O, Self::T, Self::S, Self::Z, Self::J, Self::L];

    /// Returns a random tetromino, drawn from a generator seeded by the
    /// thread-local one.
    pub fn random() -> Self {
        let mut rng = ambient_rng();
        Self::random_with_rng(&mut rng)
    }

    /// Returns a random tetromino drawn from `rng`.
    pub fn random_with_rng(rng: &mut StdRng) -> Self {
        let i = random_index(rng, 7);
        Self::from_index(i)
    }

    /// Returns the piece that a draw of `index` stands for: the one that
    /// `ALL` holds there.
    pub fn from_index(index: usize) -> (piece: Self)
        requires
            index < 7,
        ensures
            piece == Self::ALL[index as int],
    {
        Self::ALL[index]
    }

    /// Where a piece of this shape appears: its origin `(col, row)`.
    pub open spec fn spawn_origin(self) -> (i8, i8) {
        match self {
            Tetromino::O => (4, 18),
            _ => (3, 18),
        }
    }

    /// Returns the spawn position (col, row) for this piece: its origin at
    /// the top of the board, in the middle.
    pub fn spawn_position(self) -> (origin: (i8, i8))
        ensures
            origin == self.spawn_origin(),
    {
        match self {
            Tetromino::O => (4, 18),
            _ => (3, 18),
        }
    }

    /// Returns the relative cell positions for this piece at a given
    /// rotation, as `(col_offset, row_offset)` from the piece origin, which
    /// is the lower-left corner of the piece.
    pub fn cells(self, rotation: Rotation) -> (cells: [(i8, i8); 4])
        ensures
            cells == self.offsets(rotation.0),
    {
        let t = self.rotation_cells(rotation.0);
        proof {
            self.lemma_table_in_box(rotation.0);
        }
        let col = least_of(t[0].0, t[1].0, t[2].0, t[3].0);
        let row = least_of(t[0].1, t[1].1, t[2].1, t[3].1);
        [
            (t[0].0 - col, t[0].1 - row),
            (t[1].0 - col, t[1].1 - row),
            (t[2].0 - col, t[2].1 - row),
            (t[3].0 - col, t[3].1 - row),
        ]
    }
}

} // verus!
