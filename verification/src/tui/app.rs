//! The solo game as the player sees it: a game, a clock, a pause and a way
//! out.

use crate::game::{Board, FallingPiece, GamePhase, GameState, MoveResult};
use std::time::{Duration, Instant};
use vstd::prelude::*;

verus! {

/// `std::time::Instant`, a reading of the monotonic clock. Opaque to the
/// proofs.
#[verifier::external_type_specification]
#[verifier::external_body]
pub struct ExInstant(Instant);

/// Reads the clock with `Instant::now`.
///
/// Trusted, with nothing claimed: the reading depends on the time.
#[verifier::external_body]
pub(crate) fn now() -> Instant {
    Instant::now()
}

/// How many milliseconds pass between two gravity ticks.
pub const TICK_MILLIS: u64 = 500;

/// Makes a span of time of so many milliseconds with
/// `Duration::from_millis`.
///
/// Trusted, with nothing claimed: a `Duration` is opaque to the proofs.
#[verifier::external_body]
pub(crate) fn milliseconds(millis: u64) -> Duration {
    Duration::from_millis(millis)
}

/// Application state wrapping `GameState` with timing for the TUI.
pub struct App {
    pub game: GameState,
    pub last_tick: Instant,
    pub tick_rate: Duration,
    pub should_quit: bool,
    pub paused: bool,
}

impl App {
    /// The player's moves reach the game: it is not paused, and a piece is
    /// falling.
    pub open spec fn accepts_moves(&self) -> bool {
        !self.paused && self.game.phase == GamePhase::Falling
    }

    /// Nothing but the game has changed since `before`.
    pub open spec fn same_frame(&self, before: App) -> bool {
        &&& self.last_tick == before.last_tick
        &&& self.tick_rate == before.tick_rate
        &&& self.should_quit == before.should_quit
        &&& self.paused == before.paused
    }

    /// The app holds a game that has just begun, and is neither paused nor
    /// quit: the board is empty, no row is cleared, and a piece is in flight
    /// where pieces of its shape enter the board, with all of its cells on
    /// the board. Which piece that is, which one comes next, and what the
    /// clock says are left open.
    pub open spec fn is_fresh(&self) -> bool {
        &&& self.game.board == Board::empty()
        &&& self.game.board.is_clear()
        &&& self.game.current is Some
        &&& self.game.current.unwrap() == FallingPiece::spawned(
            self.game.current.unwrap().tetromino,
        )
        &&& self.game.wf()
        &&& self.game.rows_cleared == 0
        &&& self.game.phase == GamePhase::Falling
        &&& !self.should_quit
        &&& !self.paused
    }

    /// Creates a new App with default settings: a fresh game, neither
    /// paused nor quit.
    pub fn new() -> (app: Self)
        ensures
            app.is_fresh(),
    {
        App {
            game: GameState::new(),
            last_tick: now(),
            tick_rate: milliseconds(TICK_MILLIS),
            should_quit: false,
            paused: false,
        }
    }

    /// Restarts the game.
    pub fn restart(&mut self)
        ensures
            final(self).game.board.is_clear(),
            final(self).game.wf(),
            final(self).game.rows_cleared == 0,
            final(self).game.phase == GamePhase::Falling,
            !final(self).paused,
            final(self).should_quit == old(self).should_quit,
            final(self).tick_rate == old(self).tick_rate,
    {
        self.game = GameState::new();
        self.last_tick = now();
        self.paused = false;
    }

    /// Handles gravity tick - piece falls one row, unless the game is
    /// paused or over. The clock is read anew either way.
    pub fn on_tick(&mut self)
        requires
            old(self).accepts_moves() && old(self).game.locks_on_step() ==> old(self).game.wf()
                && old(self).game.has_room(),
        ensures
            old(self).game.wf() ==> final(self).game.wf(),
            final(self).tick_rate == old(self).tick_rate,
            final(self).should_quit == old(self).should_quit,
            final(self).paused == old(self).paused,
            if old(self).accepts_moves() {
                exists|result: MoveResult| #[trigger]
                    final(self).game.stepped_from(old(self).game, 0, -1, result)
            } else {
                final(self).game == old(self).game
            },
    {
        if !self.paused && self.game.is_active() {
            let _ = self.game.tick();
        }
        self.last_tick = now();
    }

    /// Moves the current piece left.
    pub fn move_left(&mut self)
        ensures
            old(self).game.wf() ==> final(self).game.wf(),
            final(self).same_frame(*old(self)),
            if old(self).accepts_moves() {
                exists|result: MoveResult| #[trigger]
                    final(self).game.stepped_from(old(self).game, -1, 0, result)
            } else {
                final(self).game == old(self).game
            },
    {
        if !self.paused && self.game.is_active() {
            let _ = self.game.move_left();
        }
    }

    /// Moves the current piece right.
    pub fn move_right(&mut self)
        ensures
            old(self).game.wf() ==> final(self).game.wf(),
            final(self).same_frame(*old(self)),
            if old(self).accepts_moves() {
                exists|result: MoveResult| #[trigger]
                    final(self).game.stepped_from(old(self).game, 1, 0, result)
            } else {
                final(self).game == old(self).game
            },
    {
        if !self.paused && self.game.is_active() {
            let _ = self.game.move_right();
        }
    }

    /// Soft drops the current piece (moves down one row).
    pub fn soft_drop(&mut self)
        requires
            old(self).accepts_moves() && old(self).game.locks_on_step() ==> old(self).game.wf()
                && old(self).game.has_room(),
        ensures
            old(self).game.wf() ==> final(self).game.wf(),
            final(self).same_frame(*old(self)),
            if old(self).accepts_moves() {
                exists|result: MoveResult| #[trigger]
                    final(self).game.stepped_from(old(self).game, 0, -1, result)
            } else {
                final(self).game == old(self).game
            },
    {
        if !self.paused && self.game.is_active() {
            let _ = self.game.move_down();
        }
    }

    /// Hard drops the current piece to the bottom.
    pub fn hard_drop(&mut self)
        requires
            old(self).accepts_moves() && old(self).game.locks_on_drop() ==> old(
                self,
            ).game.has_room(),
        ensures
            old(self).game.wf() ==> final(self).game.wf(),
            final(self).same_frame(*old(self)),
            if old(self).accepts_moves() {
                exists|result: MoveResult| #[trigger]
                    final(self).game.dropped_from(old(self).game, result)
            } else {
                final(self).game == old(self).game
            },
    {
        if !self.paused && self.game.is_active() {
            let _ = self.game.hard_drop();
        }
    }

    /// Rotates the current piece clockwise.
    pub fn rotate_cw(&mut self)
        ensures
            old(self).game.wf() ==> final(self).game.wf(),
            final(self).same_frame(*old(self)),
            if old(self).accepts_moves() {
                exists|result: MoveResult| #[trigger]
                    final(self).game.turned_from(old(self).game, true, result)
            } else {
                final(self).game == old(self).game
            },
    {
        if !self.paused && self.game.is_active() {
            let _ = self.game.rotate_cw();
        }
    }

    /// Rotates the current piece counter-clockwise.
    pub fn rotate_ccw(&mut self)
        ensures
            old(self).game.wf() ==> final(self).game.wf(),
            final(self).same_frame(*old(self)),
            if old(self).accepts_moves() {
                exists|result: MoveResult| #[trigger]
                    final(self).game.turned_from(old(self).game, false, result)
            } else {
                final(self).game == old(self).game
            },
    {
        if !self.paused && self.game.is_active() {
            let _ = self.game.rotate_ccw();
        }
    }

    /// Toggles pause state while the game is on; a game that is over
    /// cannot be paused or resumed.
    pub fn toggle_pause(&mut self)
        ensures
            final(self).paused == if old(self).game.phase == GamePhase::Falling {
                !old(self).paused
            } else {
                old(self).paused
            },
            final(self).game == old(self).game,
            final(self).last_tick == old(self).last_tick,
            final(self).tick_rate == old(self).tick_rate,
            final(self).should_quit == old(self).should_quit,
    {
        if self.game.is_active() {
            self.paused = !self.paused;
        }
    }

    /// Quits the application.
    pub fn quit(&mut self)
        ensures
            final(self).should_quit,
            final(self).game == old(self).game,
            final(self).last_tick == old(self).last_tick,
            final(self).tick_rate == old(self).tick_rate,
            final(self).paused == old(self).paused,
    {
        self.should_quit = true;
    }
}

impl Default for App {
    fn default() -> (app: Self)
        ensures
            !app.should_quit,
            !app.paused,
    {
        Self::new()
    }
}

} // verus!
