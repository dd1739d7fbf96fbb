//! Move search and game simulation.
//!
//! The search looks at every rotation of the piece and every cell of the
//! board as the piece's origin: 4 x 20 x 10 = 800 slots, numbered rotation
//! first, then row, then column. A slot is legal when the piece can be
//! locked there. The best slot is the legal one with the highest score, and
//! among equals the one with the smallest number, that is the
//! lexicographically smallest (rotation, row, column).

use crate::eval_fns::{calculate_weighted_score_n, lemma_zero_weights_score_zero, weighted_score};
use crate::game::{Board, FallingPiece, GameState, Rotation, Tetromino};
use crate::random::ambient_rng;
use crate::text::{joined, joined_text, same_text};
use crate::weights::{NUM_WEIGHTS, SCALE};
use rand::rngs::StdRng;
use rayon::iter::{IntoParallelIterator, ParallelIterator};
use vstd::prelude::*;

verus! {

/// What a cleared row is worth under `ScoringMode::Full`: 1, in the unit of
/// the weights.
pub const ROWS_CLEARED_WEIGHT: i64 = SCALE;

/// How the score of a placement combines cleared rows and heuristics.
#[derive(Debug, Clone, Copy, PartialEq, Eq, Hash, Structural)]
pub enum ScoringMode {
    /// Cleared rows plus the weighted heuristics.
    Full,
    /// The weighted heuristics alone.
    HeuristicsOnly,
    /// The cleared rows alone.
    RowsOnly,
}

impl Default for ScoringMode {
    fn default() -> (mode: Self)
        ensures
            mode == ScoringMode::Full,
    {
        ScoringMode::Full
    }
}

/// What is said of a name that is no scoring mode.
pub open spec fn unknown_mode_text(name: Seq<char>) -> Seq<char> {
    "unknown scoring mode '"@ + name + "': expected full, heuristics-only, or rows-only"@
}

/// Says of a name that it is no scoring mode, and which names there are.
pub fn unknown_mode(name: &str) -> (message: String)
    ensures
        message@ == unknown_mode_text(name@),
{
    let parts = [
        "unknown scoring mode '",
        name,
        "': expected full, heuristics-only, or rows-only",
    ];
    proof {
        let all = parts@;
        assert(all.drop_last().drop_last().drop_last() =~= Seq::<&str>::empty());
        assert(joined_text(all.drop_last().drop_last().drop_last()) =~= Seq::<char>::empty());
        assert(joined_text(all.drop_last().drop_last()) =~= all[0]@);
        assert(joined_text(all.drop_last()) =~= all[0]@ + all[1]@);
        assert(joined_text(all) =~= all[0]@ + all[1]@ + all[2]@);
    }
    joined(parts.as_slice())
}

impl ScoringMode {
    /// The name of the mode, as characters.
    pub open spec fn name_text(self) -> Seq<char> {
        match self {
            ScoringMode::Full => "full"@,
            ScoringMode::HeuristicsOnly => "heuristics-only"@,
            ScoringMode::RowsOnly => "rows-only"@,
        }
    }

    /// The name of the mode: `full`, `heuristics-only` or `rows-only`.
    pub fn name(self) -> (name: &'static str)
        ensures
            name@ == self.name_text(),
    {
        match self {
            ScoringMode::Full => "full",
            ScoringMode::HeuristicsOnly => "heuristics-only",
            ScoringMode::RowsOnly => "rows-only",
        }
    }

    /// The mode of the given name, if it names one.
    pub fn from_name(name: &str) -> (mode: Option<Self>)
        ensures
            mode == if name@ == "full"@ {
                Some(ScoringMode::Full)
            } else if name@ == "heuristics-only"@ {
                Some(ScoringMode::HeuristicsOnly)
            } else if name@ == "rows-only"@ {
                Some(ScoringMode::RowsOnly)
            } else {
                None
            },
            mode matches Some(m) ==> m.name_text() == name@,
    {
        if same_text(name, "full") {
            Some(ScoringMode::Full)
        } else if same_text(name, "heuristics-only") {
            Some(ScoringMode::HeuristicsOnly)
        } else if same_text(name, "rows-only") {
            Some(ScoringMode::RowsOnly)
        } else {
            None
        }
    }
}

impl core::str::FromStr for ScoringMode {
    type Err = String;

    /// Reads a mode from its name; the error says which names there are.
    fn from_str(s: &str) -> (mode: Result<Self, String>)
        ensures
            mode is Ok <==> (s@ == "full"@ || s@ == "heuristics-only"@ || s@ == "rows-only"@),
            mode matches Ok(m) ==> m.name_text() == s@,
            mode matches Err(message) ==> message@ == unknown_mode_text(s@),
    {
        match Self::from_name(s) {
            Some(mode) => Ok(mode),
            None => Err(unknown_mode(s)),
        }
    }
}

/// The score of a placement that clears `rows` rows and leaves a board whose
/// weighted heuristics come to `heuristics`.
pub open spec fn mode_score(mode: ScoringMode, rows: int, heuristics: int) -> int {
    match mode {
        ScoringMode::Full => rows * ROWS_CLEARED_WEIGHT + heuristics,
        ScoringMode::HeuristicsOnly => heuristics,
        ScoringMode::RowsOnly => rows * SCALE,
    }
}

/// The piece of the given shape in slot `slot`: turned as the slot says,
/// with its origin on the slot's cell.
pub open spec fn slot_piece(shape: Tetromino, slot: int) -> FallingPiece {
    FallingPiece {
        tetromino: shape,
        rotation: Rotation((slot / 200) as u8),
        col: (slot % 10) as i8,
        row: ((slot / 10) % 20) as i8,
    }
}

/// The piece of the given shape in rotation state `rotation` with its
/// origin in row `row` and column `col`.
pub open spec fn origin_piece(shape: Tetromino, rotation: int, row: int, col: int) -> FallingPiece {
    FallingPiece {
        tetromino: shape,
        rotation: Rotation(rotation as u8),
        col: col as i8,
        row: row as i8,
    }
}

/// The slot of the piece with rotation state `rotation` and its origin in
/// row `row` and column `col`.
pub open spec fn slot_of(rotation: int, row: int, col: int) -> int {
    rotation * 200 + row * 10 + col
}

/// The slots are the pieces in the four rotation states with their origin
/// on a cell of the board, each of them once.
pub proof fn lemma_slots_are_origins(shape: Tetromino, rotation: int, row: int, col: int)
    requires
        0 <= rotation < 4,
        0 <= row < 20,
        0 <= col < 10,
    ensures
        0 <= slot_of(rotation, row, col) < 800,
        slot_piece(shape, slot_of(rotation, row, col)) == origin_piece(shape, rotation, row, col),
{
    let slot = slot_of(rotation, row, col);
    assert(slot / 200 == rotation && slot % 10 == col && (slot / 10) % 20 == row);
}

/// The search passes over no place: a piece that lies wholly on the board
/// has its origin on a cell of the board, and if it can be locked there, the
/// slot of that cell and of its rotation state is legal.
pub proof fn lemma_every_place_is_a_slot(board: Board, piece: FallingPiece)
    requires
        board.fits(piece),
    ensures
        0 <= piece.col < 10,
        0 <= piece.row < 20,
        board.lockable(piece) ==> is_legal(
            board,
            piece.tetromino,
            slot_of((piece.rotation.0 % 4) as int, piece.row as int, piece.col as int),
        ),
{
    let shape = piece.tetromino;
    let o = shape.offsets(piece.rotation.0);
    shape.lemma_offsets_from_corner(piece.rotation.0);
    shape.lemma_offsets_in_box(piece.rotation.0);
    let kc = choose|k: int| 0 <= k < 4 && (#[trigger] o[k]).0 == 0;
    let kr = choose|k: int| 0 <= k < 4 && (#[trigger] o[k]).1 == 0;
    assert(Board::inside(piece.col + o[kc].0, piece.row + o[kc].1));
    assert(Board::inside(piece.col + o[kr].0, piece.row + o[kr].1));
    assert(!board.occupied(piece.col + o[0].0, piece.row + o[0].1));
    assert(!board.occupied(piece.col + o[1].0, piece.row + o[1].1));
    assert(!board.occupied(piece.col + o[2].0, piece.row + o[2].1));
    assert(!board.occupied(piece.col + o[3].0, piece.row + o[3].1));
    if board.lockable(piece) {
        let turn = (piece.rotation.0 % 4) as u8;
        lemma_slots_are_origins(shape, turn as int, piece.row as int, piece.col as int);
        assert(shape.table(turn) == shape.table(piece.rotation.0));
        assert(shape.offsets(turn) == shape.offsets(piece.rotation.0));
        let there = origin_piece(shape, turn as int, piece.row as int, piece.col as int);
        assert(board.fits(there));
        assert(board.lockable(there));
    }
}

/// The shape can be locked in slot `slot`.
pub open spec fn is_legal(board: Board, shape: Tetromino, slot: int) -> bool {
    0 <= slot < 800 && board.lockable(slot_piece(shape, slot))
}

/// The board after locking the shape in `slot` and clearing the full rows.
pub open spec fn board_after(board: Board, shape: Tetromino, slot: int) -> Board {
    board.placed(slot_piece(shape, slot)).cleared()
}

/// The number of rows cleared by locking the shape in `slot`.
pub open spec fn rows_after(board: Board, shape: Tetromino, slot: int) -> int {
    board.placed(slot_piece(shape, slot)).full_row_count()
}

/// The score of locking the shape in `slot`, computed on the board after the
/// rows are cleared.
pub open spec fn slot_score(
    board: Board,
    shape: Tetromino,
    weights: [i64; 16],
    mode: ScoringMode,
    n_weights: int,
    slot: int,
) -> int {
    mode_score(
        mode,
        rows_after(board, shape, slot),
        weighted_score(board_after(board, shape, slot), weights, n_weights),
    )
}

/// `slot` is the best slot: legal, scored at least as high as every legal
/// slot, and the first among those that score as high.
pub open spec fn is_best(
    board: Board,
    shape: Tetromino,
    weights: [i64; 16],
    mode: ScoringMode,
    n_weights: int,
    slot: int,
) -> bool {
    &&& is_legal(board, shape, slot)
    &&& forall|other: int| #[trigger]
        is_legal(board, shape, other) ==> preferred(
            slot_score(board, shape, weights, mode, n_weights, slot),
            slot,
            slot_score(board, shape, weights, mode, n_weights, other),
            other,
        )
}

/// A slot with score `score` is chosen over the slot `other` with score
/// `other_score`, or is that same slot.
pub open spec fn preferred(score: int, slot: int, other_score: int, other: int) -> bool {
    other_score < score || (other_score == score && slot <= other)
}

/// The outcome of the best move: the board after it and the rows it
/// cleared; `None` when no slot is legal.
pub open spec fn best_move(
    board: Board,
    shape: Tetromino,
    weights: [i64; 16],
    mode: ScoringMode,
    n_weights: int,
) -> Option<(Board, int)> {
    if exists|slot: int| is_best(board, shape, weights, mode, n_weights, slot) {
        let slot = choose|slot: int| is_best(board, shape, weights, mode, n_weights, slot);
        Some((board_after(board, shape, slot), rows_after(board, shape, slot)))
    } else {
        None
    }
}

/// The best move never makes or loses a cell on its own: the board it
/// leaves has the cells of the board it found and the four of the piece,
/// less ten for each row it cleared, and no full row.
pub proof fn lemma_best_move_keeps_cells(
    board: Board,
    shape: Tetromino,
    weights: [i64; 16],
    mode: ScoringMode,
    n_weights: int,
)
    ensures
        best_move(board, shape, weights, mode, n_weights) matches Some((after, rows)) ==> {
            &&& after.count() == board.count() + 4 - 10 * rows
            &&& forall|r: int| 0 <= r < 20 ==> !#[trigger] after.row_full(r)
        },
{
    if exists|slot: int| is_best(board, shape, weights, mode, n_weights, slot) {
        let slot = choose|slot: int| is_best(board, shape, weights, mode, n_weights, slot);
        let piece = slot_piece(shape, slot);
        board.lemma_lock_keeps_cells(piece);
        board.placed(piece).lemma_cleared_rows();
    }
}

/// Rows alone are scored: the mode is rows-only, or it is the full score
/// and every weight is zero.
pub open spec fn scores_rows_alone(weights: [i64; 16], mode: ScoringMode) -> bool {
    ||| mode == ScoringMode::RowsOnly
    ||| (mode == ScoringMode::Full && forall|i: int| 0 <= i < 16 ==> weights[i] == 0)
}

/// Where rows alone are scored, the best move clears as many rows as any
/// place in which the piece can be locked.
pub proof fn lemma_best_move_clears_most_rows(
    board: Board,
    shape: Tetromino,
    weights: [i64; 16],
    mode: ScoringMode,
    n_weights: int,
    slot: int,
)
    requires
        scores_rows_alone(weights, mode),
        is_legal(board, shape, slot),
    ensures
        best_move(board, shape, weights, mode, n_weights) matches Some((after, rows)) ==> rows
            >= rows_after(board, shape, slot),
{
    if exists|best: int| is_best(board, shape, weights, mode, n_weights, best) {
        let best = choose|best: int| is_best(board, shape, weights, mode, n_weights, best);
        assert(preferred(
            slot_score(board, shape, weights, mode, n_weights, best),
            best,
            slot_score(board, shape, weights, mode, n_weights, slot),
            slot,
        ));
        if mode == ScoringMode::Full {
            lemma_zero_weights_score_zero(board_after(board, shape, best), weights, n_weights);
            lemma_zero_weights_score_zero(board_after(board, shape, slot), weights, n_weights);
        }
        assert(rows_after(board, shape, best) * SCALE >= rows_after(board, shape, slot) * SCALE);
    }
}

/// There is at most one best slot.
pub proof fn lemma_best_is_unique(
    board: Board,
    shape: Tetromino,
    weights: [i64; 16],
    mode: ScoringMode,
    n_weights: int,
    a: int,
    b: int,
)
    requires
        is_best(board, shape, weights, mode, n_weights, a),
        is_best(board, shape, weights, mode, n_weights, b),
    ensures
        a == b,
{
}

/// A candidate placement with its outcome.
#[derive(Debug, Clone, Copy)]
pub struct Placement {
    /// Rotation state of the piece, 0 to 3.
    pub rotation: u8,
    /// Row of the piece's origin.
    pub row: u8,
    /// Column of the piece's origin.
    pub col: u8,
    /// Score of the placement.
    pub score: i128,
    /// The board with the piece locked and full rows cleared.
    pub board: Board,
    /// Number of rows cleared by the placement.
    pub rows_cleared: u32,
}

impl Placement {
    /// The slot of this placement.
    pub open spec fn slot(&self) -> int {
        self.rotation * 200 + self.row * 10 + self.col
    }

    /// This is the placement of the shape in its slot, legal there, with the
    /// outcome and the score that the slot has. The board that comes out has
    /// no full row, and its filled cells are those of the old board and the
    /// four of the piece, less ten for each cleared row.
    pub open spec fn is_outcome_of(
        &self,
        board: Board,
        shape: Tetromino,
        weights: [i64; 16],
        mode: ScoringMode,
        n_weights: int,
    ) -> bool {
        &&& self.rotation < 4 && self.row < 20 && self.col < 10
        &&& is_legal(board, shape, self.slot())
        &&& self.board == board_after(board, shape, self.slot())
        &&& self.rows_cleared == rows_after(board, shape, self.slot())
        &&& self.score == slot_score(board, shape, weights, mode, n_weights, self.slot())
        &&& self.board.count() == board.count() + 4 - 10 * self.rows_cleared
        &&& forall|r: int| 0 <= r < 20 ==> !self.board.row_full(r)
    }
}

/// `found` is the best of the slots from `low` up to, not including,
/// `high`: `None` when none of them is legal, else the outcome of the legal
/// one that scores highest, the first of them where several do.
pub open spec fn is_best_between(
    board: Board,
    shape: Tetromino,
    weights: [i64; 16],
    mode: ScoringMode,
    n_weights: int,
    low: int,
    high: int,
    found: Option<Placement>,
) -> bool {
    match found {
        None => forall|slot: int| low <= slot < high ==> !#[trigger] is_legal(board, shape, slot),
        Some(p) => {
            &&& low <= p.slot() < high
            &&& p.is_outcome_of(board, shape, weights, mode, n_weights)
            &&& forall|slot: int|
                low <= slot < high && #[trigger] is_legal(board, shape, slot) ==> preferred(
                    p.score as int,
                    p.slot(),
                    slot_score(board, shape, weights, mode, n_weights, slot),
                    slot,
                )
        },
    }
}

/// Locks the piece in one slot, clears the rows and scores the outcome;
/// `None` when the piece cannot be locked there.
pub fn try_placement(
    board: &Board,
    shape: Tetromino,
    weights: &[i64; 16],
    mode: ScoringMode,
    n_weights: usize,
    rotation: u8,
    row: u8,
    col: u8,
) -> (found: Option<Placement>)
    requires
        rotation < 4,
        row < 20,
        col < 10,
    ensures
        found is None <==> !is_legal(*board, shape, rotation * 200 + row * 10 + col),
        found matches Some(p) ==> {
            &&& p.rotation == rotation && p.row == row && p.col == col
            &&& p.is_outcome_of(*board, shape, *weights, mode, n_weights as int)
        },
{
    let piece = FallingPiece {
        tetromino: shape,
        rotation: Rotation(rotation),
        col: col as i8,
        row: row as i8,
    };
    assert(piece == slot_piece(shape, rotation * 200 + row * 10 + col));
    if !board.can_lock(&piece) {
        return None;
    }
    let mut possible_board = board.with_piece(&piece);
    let rows_cleared = possible_board.clear_full_rows();
    let score: i128 = match mode {
        ScoringMode::Full => {
            let heuristics = calculate_weighted_score_n(&possible_board, weights, n_weights);
            (rows_cleared as i128) * (ROWS_CLEARED_WEIGHT as i128) + heuristics
        },
        ScoringMode::HeuristicsOnly => calculate_weighted_score_n(
            &possible_board,
            weights,
            n_weights,
        ),
        ScoringMode::RowsOnly => (rows_cleared as i128) * (SCALE as i128),
    };
    Some(Placement { rotation, row, col, score, board: possible_board, rows_cleared })
}

/// Scans the ten columns of one rotation and row, which is one unit of
/// parallel work, and returns the best placement among them.
pub fn best_in_row(
    board: &Board,
    shape: Tetromino,
    weights: &[i64; 16],
    mode: ScoringMode,
    n_weights: usize,
    rotation: u8,
    row: u8,
) -> (found: Option<Placement>)
    requires
        rotation < 4,
        row < 20,
    ensures
        is_best_between(
            *board,
            shape,
            *weights,
            mode,
            n_weights as int,
            rotation * 200 + row * 10,
            rotation * 200 + row * 10 + 10,
            found,
        ),
{
    let ghost low = rotation * 200 + row * 10;
    let mut best: Option<Placement> = None;
    let mut col: u8 = 0;
    while col < 10
        invariant
            col <= 10,
            rotation < 4,
            row < 20,
            low == rotation * 200 + row * 10,
            is_best_between(*board, shape, *weights, mode, n_weights as int, low, low + col, best),
        decreases 10 - col,
    {
        let candidate = try_placement(board, shape, weights, mode, n_weights, rotation, row, col);
        match candidate {
            Some(p) => {
                let better = match best {
                    Some(b) => p.score > b.score,
                    None => true,
                };
                if better {
                    best = Some(p);
                }
            },
            None => {},
        }
        col += 1;
    }
    best
}

/// Runs `best_in_row` on every unit, in parallel, with rayon's
/// `into_par_iter`, `map` and `collect`.
///
/// Trusted: rayon documents that collecting an indexed parallel iterator
/// into a `Vec` gives what the sequential iterator gives, so the result has
/// one entry for each unit, in the units' order, and each entry is what
/// `best_in_row` returned for that unit. Of that value the contract states
/// what `best_in_row` itself is proved to return.
#[verifier::external_body]
fn scan_units(
    board: &Board,
    shape: Tetromino,
    weights: &[i64; 16],
    mode: ScoringMode,
    n_weights: usize,
    units: Vec<(u8, u8)>,
) -> (found: Vec<Option<Placement>>)
    requires
        forall|k: int| 0 <= k < units@.len() ==> units@[k].0 < 4 && units@[k].1 < 20,
    ensures
        found@.len() == units@.len(),
        forall|k: int|
            0 <= k < units@.len() ==> is_best_between(
                *board,
                shape,
                *weights,
                mode,
                n_weights as int,
                units@[k].0 * 200 + units@[k].1 * 10,
                units@[k].0 * 200 + units@[k].1 * 10 + 10,
                #[trigger] found@[k],
            ),
{
    units.into_par_iter().map(
        |(rotation, row)| best_in_row(board, shape, weights, mode, n_weights, rotation, row),
    ).collect()
}

/// The units of parallel work: every rotation with every row, rotation
/// first.
fn search_units() -> (units: Vec<(u8, u8)>)
    ensures
        units@.len() == 80,
        forall|k: int| 0 <= k < 80 ==> #[trigger] units@[k] == ((k / 20) as u8, (k % 20) as u8),
{
    let mut units: Vec<(u8, u8)> = Vec::new();
    let mut rotation: u8 = 0;
    while rotation < 4
        invariant
            rotation <= 4,
            units@.len() == rotation * 20,
            forall|k: int|
                0 <= k < rotation * 20 ==> #[trigger] units@[k] == ((k / 20) as u8, (k % 20) as u8),
        decreases 4 - rotation,
    {
        let mut row: u8 = 0;
        while row < 20
            invariant
                rotation < 4,
                row <= 20,
                units@.len() == rotation * 20 + row,
                forall|k: int|
                    0 <= k < rotation * 20 + row ==> #[trigger] units@[k] == (
                        (k / 20) as u8,
                        (k % 20) as u8,
                    ),
            decreases 20 - row,
        {
            units.push((rotation, row));
            row += 1;
        }
        rotation += 1;
    }
    units
}

/// Finds the optimal placement for a piece on the given board. Returns the
/// resulting board (with rows cleared) and the number of rows cleared, or
/// `None` if the piece can be locked nowhere.
///
/// Rotations and rows are searched in parallel; the result does not depend
/// on how the work is scheduled.
pub fn find_best_move(
    board: &Board,
    piece: Tetromino,
    weights: &[i64; 16],
    scoring_mode: ScoringMode,
    n_weights: usize,
) -> (found: Option<(Board, u32)>)
    ensures
        match found {
            Some((after, rows)) => best_move(*board, piece, *weights, scoring_mode, n_weights as int)
                == Some((after, rows as int)),
            None => best_move(*board, piece, *weights, scoring_mode, n_weights as int) is None,
        },
        found is None <==> forall|slot: int| !#[trigger] is_legal(*board, piece, slot),
        found is None <==> forall|rotation: int, row: int, col: int|
            0 <= rotation < 4 && 0 <= row < 20 && 0 <= col < 10 ==> !board.lockable(
                #[trigger] origin_piece(piece, rotation, row, col),
            ),
        found matches Some((after, rows)) ==> {
            &&& after.count() == board.count() + 4 - 10 * rows
            &&& rows <= 20
            &&& forall|r: int| 0 <= r < 20 ==> !after.row_full(r)
        },
{
    let found = best_placement(board, piece, weights, scoring_mode, n_weights);
    proof {
        match found {
            Some(p) => {
                let slot = p.slot();
                assert(slot_piece(piece, slot) == origin_piece(
                    piece,
                    slot / 200,
                    (slot / 10) % 20,
                    slot % 10,
                ));
            },
            None => {
                assert forall|rotation: int, row: int, col: int|
                    0 <= rotation < 4 && 0 <= row < 20 && 0 <= col < 10 implies !board.lockable(
                    #[trigger] origin_piece(piece, rotation, row, col),
                ) by {
                    lemma_slots_are_origins(piece, rotation, row, col);
                    assert(!is_legal(*board, piece, slot_of(rotation, row, col)));
                }
            },
        }
    }
    match found {
        Some(p) => Some((p.board, p.rows_cleared)),
        None => None,
    }
}

/// Finds the best slot for a piece on the given board, with its outcome.
pub fn best_placement(
    board: &Board,
    piece: Tetromino,
    weights: &[i64; 16],
    scoring_mode: ScoringMode,
    n_weights: usize,
) -> (found: Option<Placement>)
    ensures
        match found {
            Some(p) => {
                &&& is_best(*board, piece, *weights, scoring_mode, n_weights as int, p.slot())
                &&& p.is_outcome_of(*board, piece, *weights, scoring_mode, n_weights as int)
                &&& best_move(*board, piece, *weights, scoring_mode, n_weights as int) == Some(
                    (p.board, p.rows_cleared as int),
                )
                &&& p.rows_cleared <= 20
            },
            None => {
                &&& forall|slot: int| !#[trigger] is_legal(*board, piece, slot)
                &&& best_move(*board, piece, *weights, scoring_mode, n_weights as int) is None
            },
        },
{
    let units = search_units();
    let found = scan_units(board, piece, weights, scoring_mode, n_weights, units);
    let mut best: Option<Placement> = None;
    let mut k: usize = 0;
    while k < 80
        invariant
            k <= 80,
            found@.len() == 80,
            forall|j: int|
                0 <= j < 80 ==> is_best_between(
                    *board,
                    piece,
                    *weights,
                    scoring_mode,
                    n_weights as int,
                    j * 10,
                    j * 10 + 10,
                    #[trigger] found@[j],
                ),
            is_best_between(
                *board,
                piece,
                *weights,
                scoring_mode,
                n_weights as int,
                0,
                k * 10,
                best,
            ),
        decreases 80 - k,
    {
        match found[k] {
            Some(p) => {
                let better = match best {
                    Some(b) => p.score > b.score,
                    None => true,
                };
                if better {
                    best = Some(p);
                }
            },
            None => {},
        }
        k += 1;
    }
    proof {
        match best {
            Some(p) => {
                assert(is_best(*board, piece, *weights, scoring_mode, n_weights as int, p.slot()));
                let chosen = choose|slot: int|
                    is_best(*board, piece, *weights, scoring_mode, n_weights as int, slot);
                lemma_best_is_unique(
                    *board,
                    piece,
                    *weights,
                    scoring_mode,
                    n_weights as int,
                    chosen,
                    p.slot(),
                );
                p.board.lemma_count_bounds();
                board.lemma_count_bounds();
            },
            None => {
                assert forall|slot: int| !#[trigger] is_legal(*board, piece, slot) by {}
            },
        }
    }
    best
}

/// The longest game whose row total is sure to fit `u32`: every piece
/// brings four cells, and every row cleared takes ten away.
pub const MAX_GAME_LENGTH: u64 = 10_737_418_239;

/// Plays games of a fixed number of pieces with one weight vector.
#[derive(Debug, Clone, Copy)]
pub struct Simulator {
    pub weights: [i64; 16],
    pub max_length: usize,
    pub scoring_mode: ScoringMode,
    pub n_weights: usize,
}

/// A game in progress: the board, the rows cleared so far, and whether a
/// piece has found no place, which ends the game.
pub struct Progress {
    pub board: Board,
    pub rows: int,
    pub stopped: bool,
}

impl Simulator {
    /// Where the game stands after the first `k` of the given pieces have
    /// come up, starting from an empty board: every piece goes where the
    /// search puts it, and the first piece that fits nowhere stops the game.
    pub open spec fn progress(&self, pieces: Seq<Tetromino>, k: int) -> Progress
        decreases k,
    {
        if k <= 0 {
            Progress { board: Board::empty(), rows: 0, stopped: false }
        } else {
            let before = self.progress(pieces, k - 1);
            if before.stopped {
                before
            } else {
                match best_move(
                    before.board,
                    pieces[k - 1],
                    self.weights,
                    self.scoring_mode,
                    self.n_weights as int,
                ) {
                    Some((board, rows)) => Progress {
                        board,
                        rows: before.rows + rows,
                        stopped: false,
                    },
                    None => Progress { board: before.board, rows: before.rows, stopped: true },
                }
            }
        }
    }

    /// How many of the given pieces a game looks at: all of them, up to the
    /// game's length.
    pub open spec fn pieces_played(&self, pieces: Seq<Tetromino>) -> int {
        if pieces.len() <= self.max_length {
            pieces.len() as int
        } else {
            self.max_length as int
        }
    }

    /// The rows cleared by a game in which the given pieces come up in
    /// order.
    pub open spec fn rows_cleared_by(&self, pieces: Seq<Tetromino>) -> int {
        self.progress(pieces, self.pieces_played(pieces)).rows
    }

    /// A simulator that uses all 16 evaluation functions.
    pub fn new(weights: [i64; 16], max_length: usize, scoring_mode: ScoringMode) -> (sim: Self)
        ensures
            sim.weights == weights,
            sim.max_length == max_length,
            sim.scoring_mode == scoring_mode,
            sim.n_weights == 16,
    {
        Simulator { weights, max_length, scoring_mode, n_weights: NUM_WEIGHTS }
    }

    /// Sets the number of evaluation functions to use (default: 16).
    pub fn with_n_weights(self, n: usize) -> (sim: Self)
        ensures
            sim.weights == self.weights,
            sim.max_length == self.max_length,
            sim.scoring_mode == self.scoring_mode,
            sim.n_weights == n,
    {
        Simulator {
            weights: self.weights,
            max_length: self.max_length,
            scoring_mode: self.scoring_mode,
            n_weights: n,
        }
    }

    /// Simulates a game with pieces drawn from a generator seeded by the
    /// thread-local one. Returns the total number of rows cleared.
    pub fn simulate_game(self) -> (total: u32)
        requires
            self.max_length <= MAX_GAME_LENGTH,
        ensures
            exists|pieces: Seq<Tetromino>|
                pieces.len() == self.max_length && total == #[trigger] self.rows_cleared_by(pieces),
    {
        let mut rng = ambient_rng();
        self.simulate_game_with_rng(&mut rng)
    }

    /// Simulates a game with pieces drawn from `rng`: up to `max_length` of
    /// them, fewer if one finds no place. Returns the total number of rows
    /// cleared, which is what `play_pieces` returns for the pieces drawn,
    /// whatever pieces would have followed had the game not stopped.
    ///
    /// Besides each piece that is played, the game draws two pieces at the
    /// start and two after every placement, which it does not play.
    pub fn simulate_game_with_rng(self, rng: &mut StdRng) -> (total: u32)
        requires
            self.max_length <= MAX_GAME_LENGTH,
        ensures
            exists|pieces: Seq<Tetromino>|
                pieces.len() == self.max_length && total == #[trigger] self.rows_cleared_by(pieces),
    {
        let mut game = GameState::new_with_rng(rng);
        let mut total_rows_cleared: u32 = 0;
        let ghost mut drawn: Seq<Tetromino> = Seq::empty();
        let mut played: usize = 0;
        while played < self.max_length
            invariant_except_break
                played <= self.max_length <= MAX_GAME_LENGTH,
                drawn.len() == played,
                10 * total_rows_cleared + game.board.count() == 4 * played,
                self.progress(drawn, played as int) == (Progress {
                    board: game.board,
                    rows: total_rows_cleared as int,
                    stopped: false,
                }),
            ensures
                drawn.len() <= self.max_length,
                total_rows_cleared == self.progress(drawn, drawn.len() as int).rows,
                drawn.len() == self.max_length || self.progress(drawn, drawn.len() as int).stopped,
            decreases self.max_length - played,
        {
            let piece = Tetromino::random_with_rng(rng);
            let ghost earlier = drawn;
            proof {
                drawn = drawn.push(piece);
                self.lemma_progress_of_prefix(earlier, drawn, played as int);
            }
            match find_best_move(
                &game.board,
                piece,
                &self.weights,
                self.scoring_mode,
                self.n_weights,
            ) {
                Some((board, rows_cleared)) => {
                    proof {
                        board.lemma_count_bounds();
                    }
                    game = GameState::from_board_with_rng(board, rng);
                    total_rows_cleared += rows_cleared;
                    game.rows_cleared = total_rows_cleared;
                },
                None => {
                    break ;
                },
            }
            played += 1;
        }
        proof {
            let all = Seq::new(
                self.max_length as nat,
                |i: int|
                    if i < drawn.len() {
                        drawn[i]
                    } else {
                        Tetromino::I
                    },
            );
            self.lemma_progress_of_prefix(drawn, all, drawn.len() as int);
            if drawn.len() < self.max_length {
                self.lemma_stopped_stays(all, drawn.len() as int, self.max_length as int);
            }
            assert(total_rows_cleared == self.rows_cleared_by(all));
        }
        total_rows_cleared
    }

    /// Plays the given pieces in order, up to `max_length` of them, and
    /// stops at the first one that finds no place. Returns the total number
    /// of rows cleared.
    pub fn play_pieces(&self, pieces: &Vec<Tetromino>) -> (total: u32)
        requires
            self.max_length <= MAX_GAME_LENGTH,
        ensures
            total == self.rows_cleared_by(pieces@),
    {
        let limit = if pieces.len() <= self.max_length {
            pieces.len()
        } else {
            self.max_length
        };
        let mut board = Board::new();
        let mut total: u32 = 0;
        let mut played: usize = 0;
        while played < limit
            invariant_except_break
                played <= limit <= MAX_GAME_LENGTH,
                limit == self.pieces_played(pieces@),
                limit <= pieces@.len(),
                10 * total + board.count() == 4 * played,
                self.progress(pieces@, played as int) == (Progress {
                    board,
                    rows: total as int,
                    stopped: false,
                }),
            ensures
                total == self.rows_cleared_by(pieces@),
            decreases limit - played,
        {
            match find_best_move(
                &board,
                pieces[played],
                &self.weights,
                self.scoring_mode,
                self.n_weights,
            ) {
                Some((after, rows_cleared)) => {
                    proof {
                        after.lemma_count_bounds();
                    }
                    board = after;
                    total += rows_cleared;
                },
                None => {
                    proof {
                        self.lemma_stopped_stays(pieces@, played + 1, limit as int);
                    }
                    break ;
                },
            }
            played += 1;
        }
        total
    }

    /// Pieces that come after the first `k` have no part in where the game
    /// stands after `k` pieces.
    pub proof fn lemma_progress_of_prefix(&self, a: Seq<Tetromino>, b: Seq<Tetromino>, k: int)
        requires
            k <= a.len(),
            k <= b.len(),
            forall|i: int| 0 <= i < k ==> a[i] == b[i],
        ensures
            self.progress(a, k) == self.progress(b, k),
        decreases k,
    {
        if k > 0 {
            self.lemma_progress_of_prefix(a, b, k - 1);
        }
    }

    /// A game that has stopped stays as it is.
    pub proof fn lemma_stopped_stays(&self, pieces: Seq<Tetromino>, k: int, later: int)
        requires
            0 <= k <= later,
            self.progress(pieces, k).stopped,
        ensures
            self.progress(pieces, later) == self.progress(pieces, k),
        decreases later - k,
    {
        if k < later {
            self.lemma_stopped_stays(pieces, k, later - 1);
        }
    }

    /// The outcome of a game is decided by the pieces it plays: two games
    /// of one simulator in which the same pieces come up clear the same
    /// number of rows, whatever comes after the last piece played.
    pub proof fn lemma_same_pieces_same_rows(&self, a: Seq<Tetromino>, b: Seq<Tetromino>)
        requires
            self.pieces_played(a) == self.pieces_played(b),
            forall|i: int| 0 <= i < self.pieces_played(a) ==> a[i] == b[i],
        ensures
            self.rows_cleared_by(a) == self.rows_cleared_by(b),
    {
        self.lemma_progress_of_prefix(a, b, self.pieces_played(a));
    }
}

} // verus!
