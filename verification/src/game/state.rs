//! The state of an interactive game: a board, the piece in flight, the
//! piece to come, and the moves a player can make.

use super::board::Board;
use super::tetromino::{FallingPiece, Tetromino};
use crate::random::ambient_rng;
use rand::rngs::StdRng;
use vstd::prelude::*;

verus! {

/// The result of attempting a move.
#[derive(Debug, Clone, Copy, PartialEq, Eq, Structural)]
pub enum MoveResult {
    /// Move was successful, piece is still falling.
    Moved,
    /// Move was blocked (e.g., hit wall or other piece).
    Blocked,
    /// Piece landed and was locked in place.
    Locked { rows_cleared: u32 },
    /// Game is over (piece couldn't spawn).
    GameOver,
}

/// Current phase of the game.
#[derive(Debug, Clone, Copy, PartialEq, Eq, Structural)]
pub enum GamePhase {
    /// A piece is falling and can be controlled.
    Falling,
    /// Game has ended.
    GameOver,
}

/// The complete state of a Tetris game.
#[derive(Debug, Clone, Copy)]
pub struct GameState {
    pub board: Board,
    pub current: Option<FallingPiece>,
    pub next: Tetromino,
    pub rows_cleared: u32,
    pub phase: GamePhase,
}

/// The offsets tried, in this order, for a piece that has just been turned:
/// where it is, one column left, one right, then the same one row up.
pub const KICKS: [(i8, i8); 6] = [(0, 0), (-1, 0), (1, 0), (0, 1), (-1, 1), (1, 1)];

impl GameState {
    /// The piece in flight, if any, lies on free cells of the board.
    pub open spec fn wf(&self) -> bool {
        self.current matches Some(piece) ==> self.board.fits(piece)
    }

    /// The row counter can take the rows of one more lock.
    pub open spec fn has_room(&self) -> bool {
        self.rows_cleared + 20 <= u32::MAX
    }

    /// A piece is in flight and the game is on.
    pub open spec fn in_play(&self) -> bool {
        self.phase == GamePhase::Falling && self.current is Some
    }

    /// A step down locks the piece: one is in play, and it does not fit one
    /// row further down.
    pub open spec fn locks_on_step(&self) -> bool {
        &&& self.in_play()
        &&& !self.board.shape_fits(
            self.current.unwrap().tetromino,
            self.current.unwrap().rotation.0,
            self.current.unwrap().col as int,
            self.current.unwrap().row - 1,
        )
    }

    /// A hard drop locks the piece: one is in play, and it fits where it
    /// is.
    pub open spec fn locks_on_drop(&self) -> bool {
        self.in_play() && self.board.fits(self.current.unwrap())
    }

    /// Every piece enters whole a board whose two top rows are free: where
    /// it spawns, all of its cells lie in those rows.
    pub proof fn lemma_pieces_enter_free_rows(board: Board, shape: Tetromino)
        requires
            board.row_clear(18),
            board.row_clear(19),
        ensures
            board.fits(FallingPiece::spawned(shape)),
    {
        let piece = FallingPiece::spawned(shape);
        let o = shape.offsets(0);
        shape.lemma_spawn_state_is_flat();
        assert forall|k: int| 0 <= k < 4 implies !board.occupied(
            piece.col + (#[trigger] o[k]).0,
            piece.row + o[k].1,
        ) by {
            assert(Board::inside(piece.col + o[k].0, piece.row + o[k].1));
        }
    }

    /// The state is `before` with the piece in flight replaced by `piece`.
    pub open spec fn moved_from(&self, before: GameState, piece: FallingPiece) -> bool {
        &&& self.board == before.board
        &&& self.current == Some(piece)
        &&& self.next == before.next
        &&& self.rows_cleared == before.rows_cleared
        &&& self.phase == before.phase
    }

    /// The state is what locking `piece` makes of `before`, and `result` is
    /// what the lock reports: the piece is on the board, full rows are gone
    /// and counted, and the piece that was next is in flight if it fits where
    /// it spawns; if it does not, the game is over. Which piece comes next is
    /// left open.
    pub open spec fn locked_from(
        &self,
        before: GameState,
        piece: FallingPiece,
        result: MoveResult,
    ) -> bool {
        let settled = before.board.placed(piece);
        let cleared = settled.full_row_count();
        let entering = FallingPiece::spawned(before.next);
        &&& self.board == settled.cleared()
        &&& self.rows_cleared == before.rows_cleared + cleared
        &&& if self.board.fits(entering) {
            &&& self.current == Some(entering)
            &&& self.phase == before.phase
            &&& result == (MoveResult::Locked { rows_cleared: cleared as u32 })
        } else {
            &&& self.current is None
            &&& self.phase == GamePhase::GameOver
            &&& result == MoveResult::GameOver
        }
    }

    /// Creates a new game with an empty board and random pieces, drawn from
    /// a generator seeded by the thread-local one.
    pub fn new() -> (game: Self)
        ensures
            game.board == Board::empty(),
            game.board.is_clear(),
            game.current is Some,
            game.current.unwrap() == FallingPiece::spawned(game.current.unwrap().tetromino),
            game.rows_cleared == 0,
            game.phase == GamePhase::Falling,
            game.wf(),
    {
        let mut rng = ambient_rng();
        Self::new_with_rng(&mut rng)
    }

    /// Creates a new game with an empty board using a provided RNG, from
    /// which it draws the piece in flight and then the next one.
    pub fn new_with_rng(rng: &mut StdRng) -> (game: Self)
        ensures
            game.board == Board::empty(),
            game.board.is_clear(),
            game.board.count() == 0,
            game.current is Some,
            game.current.unwrap() == FallingPiece::spawned(game.current.unwrap().tetromino),
            game.rows_cleared == 0,
            game.phase == GamePhase::Falling,
            game.wf(),
    {
        let current = Tetromino::random_with_rng(rng);
        let next = Tetromino::random_with_rng(rng);
        let game = GameState {
            board: Board::new(),
            current: Some(FallingPiece::spawn(current)),
            next,
            rows_cleared: 0,
            phase: GamePhase::Falling,
        };
        proof {
            Self::lemma_pieces_enter_free_rows(game.board, current);
        }
        game
    }

    /// Creates a new game with specified starting pieces.
    pub fn with_pieces(current: Tetromino, next: Tetromino) -> (game: Self)
        ensures
            game.board == Board::empty(),
            game.board.is_clear(),
            game.board.count() == 0,
            game.current == Some(FallingPiece::spawned(current)),
            game.next == next,
            game.rows_cleared == 0,
            game.phase == GamePhase::Falling,
            game.wf(),
    {
        let game = GameState {
            board: Board::new(),
            current: Some(FallingPiece::spawn(current)),
            next,
            rows_cleared: 0,
            phase: GamePhase::Falling,
        };
        proof {
            Self::lemma_pieces_enter_free_rows(game.board, current);
        }
        game
    }

    /// Creates a game state from an existing board, with random pieces
    /// drawn from a generator seeded by the thread-local one.
    pub fn from_board(board: Board) -> (game: Self)
        ensures
            game.board == board,
            game.current is Some,
            game.rows_cleared == 0,
            game.phase == GamePhase::Falling,
    {
        let mut rng = ambient_rng();
        Self::from_board_with_rng(board, &mut rng)
    }

    /// Creates a game state from an existing board using a provided RNG,
    /// from which it draws the piece in flight and then the next one.
    pub fn from_board_with_rng(board: Board, rng: &mut StdRng) -> (game: Self)
        ensures
            game.board == board,
            game.current is Some,
            game.current.unwrap() == FallingPiece::spawned(game.current.unwrap().tetromino),
            game.rows_cleared == 0,
            game.phase == GamePhase::Falling,
    {
        let current = Tetromino::random_with_rng(rng);
        let next = Tetromino::random_with_rng(rng);
        GameState {
            board,
            current: Some(FallingPiece::spawn(current)),
            next,
            rows_cleared: 0,
            phase: GamePhase::Falling,
        }
    }

    /// Tests whether the piece in flight, if any, lies on free cells of the
    /// board.
    pub fn piece_fits(&self) -> (fits: bool)
        ensures
            fits == self.wf(),
    {
        match self.current {
            Some(piece) => self.board.can_place(&piece),
            None => true,
        }
    }

    /// Tests whether the row counter can take the rows of one more lock.
    pub fn counter_has_room(&self) -> (room: bool)
        ensures
            room == self.has_room(),
    {
        self.rows_cleared <= u32::MAX - 20
    }

    /// Tests whether a step down would lock the piece: one is in play, and
    /// it does not fit one row further down.
    pub fn step_locks(&self) -> (locks: bool)
        ensures
            locks == self.locks_on_step(),
    {
        if self.phase != GamePhase::Falling {
            return false;
        }
        match self.current {
            Some(piece) => {
                proof {
                    if self.board.shape_fits(
                        piece.tetromino,
                        piece.rotation.0,
                        piece.col as int,
                        piece.row - 1,
                    ) {
                        self.board.lemma_shape_fits_near(
                            piece.tetromino,
                            piece.rotation.0,
                            piece.col as int,
                            piece.row - 1,
                        );
                    }
                }
                match piece.checked_moved(0, -1) {
                    Some(lower) => !self.board.can_place(&lower),
                    None => true,
                }
            },
            None => false,
        }
    }

    /// Tests whether a hard drop would lock the piece: one is in play, and
    /// it fits where it is.
    pub fn drop_locks(&self) -> (locks: bool)
        ensures
            locks == self.locks_on_drop(),
    {
        if self.phase != GamePhase::Falling {
            return false;
        }
        match self.current {
            Some(piece) => self.board.can_place(&piece),
            None => false,
        }
    }

    /// Returns true if the game is still active.
    pub fn is_active(&self) -> (active: bool)
        ensures
            active == (self.phase == GamePhase::Falling),
    {
        matches!(self.phase, GamePhase::Falling)
    }

    /// Returns true if the game is over.
    pub fn is_game_over(&self) -> (over: bool)
        ensures
            over == (self.phase == GamePhase::GameOver),
    {
        matches!(self.phase, GamePhase::GameOver)
    }

    /// Attempts to move the current piece left.
    pub fn move_left(&mut self) -> (result: MoveResult)
        ensures
            old(self).wf() ==> final(self).wf(),
            final(self).stepped_from(*old(self), -1, 0, result),
    {
        self.try_move(-1, 0)
    }

    /// Attempts to move the current piece right.
    pub fn move_right(&mut self) -> (result: MoveResult)
        ensures
            old(self).wf() ==> final(self).wf(),
            final(self).stepped_from(*old(self), 1, 0, result),
    {
        self.try_move(1, 0)
    }

    /// Attempts to move the current piece down (soft drop). A piece that
    /// cannot move down is locked.
    pub fn move_down(&mut self) -> (result: MoveResult)
        requires
            old(self).locks_on_step() ==> old(self).wf() && old(self).has_room(),
        ensures
            old(self).wf() ==> final(self).wf(),
            final(self).stepped_from(*old(self), 0, -1, result),
    {
        self.try_move(0, -1)
    }

    /// The state is what an attempt to move the piece of `before` by
    /// `(dcol, drow)` makes of it, and `result` is what the attempt reports.
    /// Without a piece in play nothing changes and the game is reported
    /// over. A piece that fits in the new position moves there. One that
    /// does not is locked if the move was downwards, and stays where it is
    /// otherwise.
    pub open spec fn stepped_from(
        &self,
        before: GameState,
        dcol: int,
        drow: int,
        result: MoveResult,
    ) -> bool {
        if !before.in_play() {
            *self == before && result == MoveResult::GameOver
        } else {
            let piece = before.current.unwrap();
            if before.board.shape_fits(
                piece.tetromino,
                piece.rotation.0,
                piece.col + dcol,
                piece.row + drow,
            ) {
                &&& result == MoveResult::Moved
                &&& self.moved_from(
                    before,
                    FallingPiece {
                        tetromino: piece.tetromino,
                        rotation: piece.rotation,
                        col: (piece.col + dcol) as i8,
                        row: (piece.row + drow) as i8,
                    },
                )
            } else if drow < 0 {
                self.locked_from(before, piece, result)
            } else {
                *self == before && result == MoveResult::Blocked
            }
        }
    }

    /// Attempts to move the piece by the given offset.
    fn try_move(&mut self, dcol: i8, drow: i8) -> (result: MoveResult)
        requires
            drow < 0 && old(self).in_play() && !old(self).board.shape_fits(
                old(self).current.unwrap().tetromino,
                old(self).current.unwrap().rotation.0,
                old(self).current.unwrap().col + dcol,
                old(self).current.unwrap().row + drow,
            ) ==> old(self).wf() && old(self).has_room(),
        ensures
            old(self).wf() ==> final(self).wf(),
            final(self).stepped_from(*old(self), dcol as int, drow as int, result),
    {
        if self.phase != GamePhase::Falling {
            return MoveResult::GameOver;
        }
        let piece = match self.current {
            Some(piece) => piece,
            None => {
                return MoveResult::GameOver;
            },
        };
        proof {
            if self.board.shape_fits(
                piece.tetromino,
                piece.rotation.0,
                piece.col + dcol,
                piece.row + drow,
            ) {
                self.board.lemma_shape_fits_near(
                    piece.tetromino,
                    piece.rotation.0,
                    piece.col + dcol,
                    piece.row + drow,
                );
            }
        }
        let fits = match piece.checked_moved(dcol, drow) {
            Some(new_piece) => {
                if self.board.can_place(&new_piece) {
                    self.current = Some(new_piece);
                    true
                } else {
                    false
                }
            },
            None => false,
        };
        if fits {
            MoveResult::Moved
        } else if drow < 0 {
            self.lock_piece()
        } else {
            MoveResult::Blocked
        }
    }

    /// Attempts to rotate the piece clockwise.
    pub fn rotate_cw(&mut self) -> (result: MoveResult)
        ensures
            old(self).wf() ==> final(self).wf(),
            final(self).turned_from(*old(self), true, result),
    {
        self.try_rotate(true)
    }

    /// Attempts to rotate the piece counter-clockwise.
    pub fn rotate_ccw(&mut self) -> (result: MoveResult)
        ensures
            old(self).wf() ==> final(self).wf(),
            final(self).turned_from(*old(self), false, result),
    {
        self.try_rotate(false)
    }

    /// The rotation state after a quarter turn from `rotation`.
    pub open spec fn turned(rotation: u8, clockwise: bool) -> u8 {
        if clockwise {
            ((rotation + 1) % 4) as u8
        } else {
            ((rotation + 3) % 4) as u8
        }
    }

    /// The piece, turned a quarter and moved by kick number `kick`, lies on
    /// free cells of the board.
    pub open spec fn kick_fits(&self, piece: FallingPiece, clockwise: bool, kick: int) -> bool {
        self.board.shape_fits(
            piece.tetromino,
            Self::turned(piece.rotation.0, clockwise),
            piece.col + KICKS[kick].0,
            piece.row + KICKS[kick].1,
        )
    }

    /// The piece `piece` turned a quarter, clockwise or not, and moved by
    /// kick number `kick`.
    pub open spec fn kicked(piece: FallingPiece, clockwise: bool, kick: int) -> FallingPiece {
        FallingPiece {
            tetromino: piece.tetromino,
            rotation: super::tetromino::Rotation(Self::turned(piece.rotation.0, clockwise)),
            col: (piece.col + KICKS[kick].0) as i8,
            row: (piece.row + KICKS[kick].1) as i8,
        }
    }

    /// The state is what an attempt to turn the piece of `before` makes of
    /// it, and `result` is what the attempt reports. Without a piece in play
    /// nothing changes and the game is reported over. Otherwise the turned
    /// piece goes to the first kick position in which it fits; if it fits in
    /// none, nothing changes and the turn is reported blocked.
    pub open spec fn turned_from(
        &self,
        before: GameState,
        clockwise: bool,
        result: MoveResult,
    ) -> bool {
        if !before.in_play() {
            *self == before && result == MoveResult::GameOver
        } else {
            let piece = before.current.unwrap();
            if exists|k: int| 0 <= k < 6 && #[trigger] before.kick_fits(piece, clockwise, k) {
                &&& result == MoveResult::Moved
                &&& exists|k: int|
                    {
                        &&& 0 <= k < 6
                        &&& #[trigger] before.kick_fits(piece, clockwise, k)
                        &&& forall|j: int|
                            0 <= j < k ==> !#[trigger] before.kick_fits(piece, clockwise, j)
                        &&& self.moved_from(before, Self::kicked(piece, clockwise, k))
                    }
            } else {
                *self == before && result == MoveResult::Blocked
            }
        }
    }

    /// Attempts rotation with basic wall kicks.
    fn try_rotate(&mut self, clockwise: bool) -> (result: MoveResult)
        ensures
            old(self).wf() ==> final(self).wf(),
            final(self).turned_from(*old(self), clockwise, result),
    {
        if self.phase != GamePhase::Falling {
            return MoveResult::GameOver;
        }
        let piece = match self.current {
            Some(piece) => piece,
            None => {
                return MoveResult::GameOver;
            },
        };
        let rotated = if clockwise {
            piece.rotated_cw()
        } else {
            piece.rotated_ccw()
        };
        let mut k: usize = 0;
        while k < 6
            invariant
                k <= 6,
                *self == *old(self),
                self.in_play(),
                self.current == Some(piece),
                rotated.tetromino == piece.tetromino,
                rotated.col == piece.col,
                rotated.row == piece.row,
                rotated.rotation.0 == Self::turned(piece.rotation.0, clockwise),
                forall|j: int| 0 <= j < k ==> !#[trigger] self.kick_fits(piece, clockwise, j),
            decreases 6 - k,
        {
            let (dcol, drow) = KICKS[k];
            proof {
                if self.kick_fits(piece, clockwise, k as int) {
                    self.board.lemma_shape_fits_near(
                        piece.tetromino,
                        Self::turned(piece.rotation.0, clockwise),
                        piece.col + dcol,
                        piece.row + drow,
                    );
                }
            }
            match rotated.checked_moved(dcol, drow) {
                Some(kicked) => {
                    if self.board.can_place(&kicked) {
                        assert(kicked == Self::kicked(piece, clockwise, k as int));
                        assert(self.kick_fits(piece, clockwise, k as int));
                        self.current = Some(kicked);
                        return MoveResult::Moved;
                    }
                },
                None => {},
            }
            k += 1;
        }
        MoveResult::Blocked
    }

    /// The state is what a hard drop makes of `before`, and `result` is what
    /// the drop reports. Without a piece in play, or with one that does not
    /// fit where it is, nothing changes and the game is reported over.
    /// Otherwise the piece is locked in the lowest position it can fall to.
    pub open spec fn dropped_from(&self, before: GameState, result: MoveResult) -> bool {
        if !before.in_play() || !before.board.fits(before.current.unwrap()) {
            *self == before && result == MoveResult::GameOver
        } else {
            let piece = before.current.unwrap();
            exists|landed: FallingPiece|
                {
                    &&& landed.tetromino == piece.tetromino
                    &&& landed.rotation == piece.rotation
                    &&& landed.col == piece.col
                    &&& landed.row <= piece.row
                    &&& forall|row: int|
                        landed.row <= row <= piece.row ==> #[trigger] before.board.shape_fits(
                            piece.tetromino,
                            piece.rotation.0,
                            piece.col as int,
                            row,
                        )
                    &&& !before.board.shape_fits(
                        piece.tetromino,
                        piece.rotation.0,
                        piece.col as int,
                        landed.row - 1,
                    )
                    &&& #[trigger] self.locked_from(before, landed, result)
                }
        }
    }

    /// Hard drops the current piece to the bottom and locks it there.
    pub fn hard_drop(&mut self) -> (result: MoveResult)
        requires
            old(self).locks_on_drop() ==> old(self).has_room(),
        ensures
            old(self).wf() ==> final(self).wf(),
            final(self).dropped_from(*old(self), result),
    {
        if self.phase != GamePhase::Falling {
            return MoveResult::GameOver;
        }
        let piece = match self.current {
            Some(piece) => piece,
            None => {
                return MoveResult::GameOver;
            },
        };
        match self.board.hard_drop(&piece) {
            Some(dropped) => {
                self.current = Some(dropped);
                let ghost aimed = *self;
                let result = self.lock_piece();
                assert(self.locked_from(*old(self), dropped, result)) by {
                    assert(self.locked_from(aimed, dropped, result));
                }
                result
            },
            None => MoveResult::GameOver,
        }
    }

    /// Locks the current piece in place and brings in the next piece.
    fn lock_piece(&mut self) -> (result: MoveResult)
        requires
            old(self).wf(),
            old(self).has_room(),
        ensures
            final(self).wf(),
            match old(self).current {
                Some(piece) => final(self).locked_from(*old(self), piece, result),
                None => *final(self) == *old(self) && result == MoveResult::GameOver,
            },
    {
        let piece = match self.current {
            Some(piece) => piece,
            None => {
                return MoveResult::GameOver;
            },
        };
        self.current = None;
        self.board.place(&piece);
        let cleared = self.board.clear_full_rows();
        self.rows_cleared += cleared;
        let next_piece = FallingPiece::spawn(self.next);
        self.next = Tetromino::random();
        if self.board.can_place(&next_piece) {
            self.current = Some(next_piece);
            MoveResult::Locked { rows_cleared: cleared }
        } else {
            self.phase = GamePhase::GameOver;
            MoveResult::GameOver
        }
    }

    /// Advances the game by one gravity tick (piece falls one row).
    pub fn tick(&mut self) -> (result: MoveResult)
        requires
            old(self).locks_on_step() ==> old(self).wf() && old(self).has_room(),
        ensures
            old(self).wf() ==> final(self).wf(),
            final(self).stepped_from(*old(self), 0, -1, result),
    {
        self.move_down()
    }

    /// Returns the ghost piece position: where the piece in flight would
    /// land, or `None` when no piece is in flight or it does not fit where
    /// it is.
    pub fn ghost_piece(&self) -> (landed: Option<FallingPiece>)
        ensures
            landed is None <==> (self.current is None || !self.board.fits(self.current.unwrap())),
            landed matches Some(p) ==> {
                let piece = self.current.unwrap();
                &&& p.tetromino == piece.tetromino
                &&& p.rotation == piece.rotation
                &&& p.col == piece.col
                &&& p.row <= piece.row
                &&& forall|row: int|
                    p.row <= row <= piece.row ==> #[trigger] self.board.shape_fits(
                        piece.tetromino,
                        piece.rotation.0,
                        piece.col as int,
                        row,
                    )
                &&& !self.board.shape_fits(
                    piece.tetromino,
                    piece.rotation.0,
                    piece.col as int,
                    p.row - 1,
                )
            },
    {
        match self.current {
            Some(piece) => self.board.hard_drop(&piece),
            None => None,
        }
    }
}

impl Default for GameState {
    fn default() -> (game: Self)
        ensures
            game.board == Board::empty(),
            game.current is Some,
            game.rows_cleared == 0,
            game.phase == GamePhase::Falling,
            game.wf(),
    {
        Self::new()
    }
}

} // verus!
