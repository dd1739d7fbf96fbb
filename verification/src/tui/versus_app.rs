//! The player against the agent: every piece the player locks is handed to
//! the agent, which places it on a board of its own.

use super::app::{milliseconds, now, TICK_MILLIS};
use super::keys::Key;
use crate::agent::simulator::{best_move, find_best_move, ScoringMode};
use crate::game::{Board, GamePhase, GameState, MoveResult, Tetromino};
use crate::weights::NUM_WEIGHTS;
use std::time::{Duration, Instant};
use vstd::prelude::*;

verus! {

/// Application state for the versus mode: user vs agent.
pub struct VersusApp {
    pub user_game: GameState,
    pub agent_board: Board,
    pub agent_rows_cleared: u32,
    pub agent_game_over: bool,
    pub weights: [i64; 16],
    pub scoring_mode: ScoringMode,
    pub last_tick: Instant,
    pub tick_rate: Duration,
    pub should_quit: bool,
    pub paused: bool,
}

impl VersusApp {
    /// The player's game is in order.
    pub open spec fn wf(&self) -> bool {
        self.user_game.wf()
    }

    /// Both row counters can take the rows of one more lock.
    pub open spec fn has_room(&self) -> bool {
        self.user_game.has_room() && self.agent_rows_cleared + 20 <= u32::MAX
    }

    /// The player's moves reach the game: it is not paused, and a piece is
    /// falling.
    pub open spec fn accepts_moves(&self) -> bool {
        !self.paused && self.user_game.phase == GamePhase::Falling
    }

    /// The agent's side is that of `before`.
    pub open spec fn same_agent(&self, before: VersusApp) -> bool {
        &&& self.agent_board == before.agent_board
        &&& self.agent_rows_cleared == before.agent_rows_cleared
        &&& self.agent_game_over == before.agent_game_over
    }

    /// Weights, clock, pause and quit are those of `before`.
    pub open spec fn same_frame(&self, before: VersusApp) -> bool {
        &&& self.weights == before.weights
        &&& self.scoring_mode == before.scoring_mode
        &&& self.last_tick == before.last_tick
        &&& self.tick_rate == before.tick_rate
        &&& self.should_quit == before.should_quit
        &&& self.paused == before.paused
    }

    /// The agent's side is what placing `piece` makes of the agent's side
    /// of `before`: an agent that is out stays as it is; one that finds a
    /// move takes it and counts its rows; one that finds none is out.
    pub open spec fn agent_placed(&self, before: VersusApp, piece: Tetromino) -> bool {
        if before.agent_game_over {
            self.same_agent(before)
        } else {
            match best_move(before.agent_board, piece, before.weights, before.scoring_mode, 16) {
                Some((board, rows)) => {
                    &&& self.agent_board == board
                    &&& self.agent_rows_cleared == before.agent_rows_cleared + rows
                    &&& !self.agent_game_over
                },
                None => {
                    &&& self.agent_board == before.agent_board
                    &&& self.agent_rows_cleared == before.agent_rows_cleared
                    &&& self.agent_game_over
                },
            }
        }
    }

    /// The agent's side is what the player's move makes of it: if the move
    /// locked a piece, the agent has placed a piece of the same shape; if
    /// not, nothing has changed.
    pub open spec fn agent_followed(
        &self,
        before: VersusApp,
        result: MoveResult,
        piece: Option<Tetromino>,
    ) -> bool {
        if result is Locked && piece is Some {
            self.agent_placed(before, piece.unwrap())
        } else {
            self.same_agent(before)
        }
    }

    /// The shape of the piece in flight, if there is one.
    pub open spec fn shape_in_flight(&self) -> Option<Tetromino> {
        match self.user_game.current {
            Some(piece) => Some(piece.tetromino),
            None => None,
        }
    }

    /// Creates a new `VersusApp` with the given weights and scoring mode.
    pub fn new(weights: [i64; 16], scoring_mode: ScoringMode) -> (app: Self)
        ensures
            app.user_game.board.is_clear(),
            app.wf(),
            app.has_room(),
            app.user_game.rows_cleared == 0,
            app.user_game.phase == GamePhase::Falling,
            app.agent_board == Board::empty(),
            app.agent_rows_cleared == 0,
            !app.agent_game_over,
            app.weights == weights,
            app.scoring_mode == scoring_mode,
            !app.should_quit,
            !app.paused,
    {
        VersusApp {
            user_game: GameState::new(),
            agent_board: Board::new(),
            agent_rows_cleared: 0,
            agent_game_over: false,
            weights,
            scoring_mode,
            last_tick: now(),
            tick_rate: milliseconds(TICK_MILLIS),
            should_quit: false,
            paused: false,
        }
    }

    /// Syncs the agent board to match the user's current state.
    pub fn sync_agent(&mut self)
        ensures
            final(self).agent_board == old(self).user_game.board,
            final(self).agent_rows_cleared == old(self).user_game.rows_cleared,
            !final(self).agent_game_over,
            final(self).user_game == old(self).user_game,
            final(self).same_frame(*old(self)),
    {
        self.agent_board = self.user_game.board;
        self.agent_rows_cleared = self.user_game.rows_cleared;
        self.agent_game_over = false;
    }

    /// After any user action that may lock a piece, feed the same piece to
    /// the agent.
    pub fn handle_lock(&mut self, result: MoveResult, piece: Option<Tetromino>)
        requires
            result is Locked && piece is Some && !old(self).agent_game_over ==> old(
                self,
            ).agent_rows_cleared + 20 <= u32::MAX,
        ensures
            final(self).agent_followed(*old(self), result, piece),
            final(self).user_game == old(self).user_game,
            final(self).same_frame(*old(self)),
    {
        match result {
            MoveResult::Locked { rows_cleared: _ } => {
                match piece {
                    Some(tetromino) => {
                        self.agent_place(tetromino);
                    },
                    None => {},
                }
            },
            _ => {},
        }
    }

    /// Lets the agent place the given piece optimally.
    pub fn agent_place(&mut self, piece: Tetromino)
        requires
            !old(self).agent_game_over ==> old(self).agent_rows_cleared + 20 <= u32::MAX,
        ensures
            final(self).agent_placed(*old(self), piece),
            final(self).user_game == old(self).user_game,
            final(self).same_frame(*old(self)),
    {
        if self.agent_game_over {
            return ;
        }
        match find_best_move(
            &self.agent_board,
            piece,
            &self.weights,
            self.scoring_mode,
            NUM_WEIGHTS,
        ) {
            Some((board, rows_cleared)) => {
                self.agent_board = board;
                self.agent_rows_cleared += rows_cleared;
            },
            None => {
                self.agent_game_over = true;
            },
        }
    }

    /// Handles gravity tick: the piece falls one row, unless the game is
    /// paused or over, and a piece that locks goes to the agent too. The
    /// clock is read anew either way.
    pub fn on_tick(&mut self)
        requires
            old(self).accepts_moves() && old(self).user_game.locks_on_step() ==> old(self).wf()
                && old(self).has_room(),
        ensures
            old(self).wf() ==> final(self).wf(),
            final(self).weights == old(self).weights,
            final(self).scoring_mode == old(self).scoring_mode,
            final(self).tick_rate == old(self).tick_rate,
            final(self).should_quit == old(self).should_quit,
            final(self).paused == old(self).paused,
            if old(self).accepts_moves() {
                exists|result: MoveResult|
                    {
                        &&& #[trigger] final(self).user_game.stepped_from(
                            old(self).user_game,
                            0,
                            -1,
                            result,
                        )
                        &&& final(self).agent_followed(
                            *old(self),
                            result,
                            old(self).shape_in_flight(),
                        )
                    }
            } else {
                final(self).user_game == old(self).user_game && final(self).same_agent(*old(self))
            },
    {
        if !self.paused && self.user_game.is_active() {
            let piece = self.piece_in_flight();
            let result = self.user_game.tick();
            self.handle_lock(result, piece);
        }
        self.last_tick = now();
    }

    /// The shape of the piece in flight, if there is one.
    fn piece_in_flight(&self) -> (shape: Option<Tetromino>)
        ensures
            shape == self.shape_in_flight(),
    {
        match self.user_game.current {
            Some(piece) => Some(piece.tetromino),
            None => None,
        }
    }

    /// Starts both sides afresh.
    pub fn restart(&mut self)
        ensures
            final(self).user_game.board.is_clear(),
            final(self).wf(),
            final(self).user_game.rows_cleared == 0,
            final(self).user_game.phase == GamePhase::Falling,
            final(self).agent_board == Board::empty(),
            final(self).agent_rows_cleared == 0,
            !final(self).agent_game_over,
            !final(self).paused,
            final(self).weights == old(self).weights,
            final(self).scoring_mode == old(self).scoring_mode,
            final(self).tick_rate == old(self).tick_rate,
            final(self).should_quit == old(self).should_quit,
    {
        self.user_game = GameState::new();
        self.agent_board = Board::new();
        self.agent_rows_cleared = 0;
        self.agent_game_over = false;
        self.last_tick = now();
        self.paused = false;
    }

    /// Quits the application.
    pub fn quit(&mut self)
        ensures
            final(self).should_quit,
            final(self).user_game == old(self).user_game,
            final(self).same_agent(*old(self)),
            final(self).paused == old(self).paused,
    {
        self.should_quit = true;
    }

    /// Toggles pause state while the player's game is on.
    pub fn toggle_pause(&mut self)
        ensures
            final(self).paused == if old(self).user_game.phase == GamePhase::Falling {
                !old(self).paused
            } else {
                old(self).paused
            },
            final(self).user_game == old(self).user_game,
            final(self).same_agent(*old(self)),
            final(self).should_quit == old(self).should_quit,
    {
        if self.user_game.is_active() {
            self.paused = !self.paused;
        }
    }

    /// Moves the player's piece left.
    pub fn move_left(&mut self)
        ensures
            old(self).wf() ==> final(self).wf(),
            final(self).same_frame(*old(self)),
            final(self).same_agent(*old(self)),
            if old(self).accepts_moves() {
                exists|result: MoveResult| #[trigger]
                    final(self).user_game.stepped_from(old(self).user_game, -1, 0, result)
            } else {
                final(self).user_game == old(self).user_game
            },
    {
        if !self.paused && self.user_game.is_active() {
            let _ = self.user_game.move_left();
        }
    }

    /// Moves the player's piece right.
    pub fn move_right(&mut self)
        ensures
            old(self).wf() ==> final(self).wf(),
            final(self).same_frame(*old(self)),
            final(self).same_agent(*old(self)),
            if old(self).accepts_moves() {
                exists|result: MoveResult| #[trigger]
                    final(self).user_game.stepped_from(old(self).user_game, 1, 0, result)
            } else {
                final(self).user_game == old(self).user_game
            },
    {
        if !self.paused && self.user_game.is_active() {
            let _ = self.user_game.move_right();
        }
    }

    /// Moves the player's piece down one row; a piece that locks goes to
    /// the agent too.
    pub fn soft_drop(&mut self)
        requires
            old(self).accepts_moves() && old(self).user_game.locks_on_step() ==> old(self).wf()
                && old(self).has_room(),
        ensures
            old(self).wf() ==> final(self).wf(),
            final(self).same_frame(*old(self)),
            if old(self).accepts_moves() {
                exists|result: MoveResult|
                    {
                        &&& #[trigger] final(self).user_game.stepped_from(
                            old(self).user_game,
                            0,
                            -1,
                            result,
                        )
                        &&& final(self).agent_followed(
                            *old(self),
                            result,
                            old(self).shape_in_flight(),
                        )
                    }
            } else {
                final(self).user_game == old(self).user_game && final(self).same_agent(*old(self))
            },
    {
        if !self.paused && self.user_game.is_active() {
            let piece = self.piece_in_flight();
            let result = self.user_game.move_down();
            self.handle_lock(result, piece);
        }
    }

    /// Drops the player's piece and locks it; the agent gets a piece of the
    /// same shape.
    pub fn hard_drop(&mut self)
        requires
            old(self).accepts_moves() && old(self).user_game.locks_on_drop() ==> old(
                self,
            ).has_room(),
        ensures
            old(self).wf() ==> final(self).wf(),
            final(self).same_frame(*old(self)),
            if old(self).accepts_moves() {
                exists|result: MoveResult|
                    {
                        &&& #[trigger] final(self).user_game.dropped_from(
                            old(self).user_game,
                            result,
                        )
                        &&& final(self).agent_followed(
                            *old(self),
                            result,
                            old(self).shape_in_flight(),
                        )
                    }
            } else {
                final(self).user_game == old(self).user_game && final(self).same_agent(*old(self))
            },
    {
        if !self.paused && self.user_game.is_active() {
            let piece = self.piece_in_flight();
            let result = self.user_game.hard_drop();
            self.handle_lock(result, piece);
        }
    }

    /// Rotates the player's piece clockwise.
    pub fn rotate_cw(&mut self)
        ensures
            old(self).wf() ==> final(self).wf(),
            final(self).same_frame(*old(self)),
            final(self).same_agent(*old(self)),
            if old(self).accepts_moves() {
                exists|result: MoveResult| #[trigger]
                    final(self).user_game.turned_from(old(self).user_game, true, result)
            } else {
                final(self).user_game == old(self).user_game
            },
    {
        if !self.paused && self.user_game.is_active() {
            let _ = self.user_game.rotate_cw();
        }
    }

    /// Rotates the player's piece counter-clockwise.
    pub fn rotate_ccw(&mut self)
        ensures
            old(self).wf() ==> final(self).wf(),
            final(self).same_frame(*old(self)),
            final(self).same_agent(*old(self)),
            if old(self).accepts_moves() {
                exists|result: MoveResult| #[trigger]
                    final(self).user_game.turned_from(old(self).user_game, false, result)
            } else {
                final(self).user_game == old(self).user_game
            },
    {
        if !self.paused && self.user_game.is_active() {
            let _ = self.user_game.rotate_ccw();
        }
    }

    /// Handles the one key that only this mode knows: `Backspace` lets the
    /// agent start over from the player's board.
    pub fn handle_extra_key(&mut self, key: Key)
        ensures
            final(self).user_game == old(self).user_game,
            final(self).same_frame(*old(self)),
            if key == Key::Backspace {
                &&& final(self).agent_board == old(self).user_game.board
                &&& final(self).agent_rows_cleared == old(self).user_game.rows_cleared
                &&& !final(self).agent_game_over
            } else {
                final(self).same_agent(*old(self))
            },
    {
        if key == Key::Backspace {
            self.sync_agent();
        }
    }
}

} // verus!
