//! What a key press asks for.

use crate::game::GamePhase;
use vstd::prelude::*;

verus! {

/// A key, as far as the game tells keys apart.
#[derive(Debug, Clone, Copy, PartialEq, Eq, Structural)]
pub enum Key {
    Char(char),
    Esc,
    Enter,
    Backspace,
    Left,
    Right,
    Up,
    Down,
    Other,
}

/// What the player asks for with a key.
#[derive(Debug, Clone, Copy, PartialEq, Eq, Structural)]
pub enum Action {
    Quit,
    Restart,
    TogglePause,
    MoveLeft,
    MoveRight,
    SoftDrop,
    HardDrop,
    RotateCw,
    RotateCcw,
    /// A key with no meaning of its own: a mode of play may give it one.
    Extra(Key),
}

/// What a key asks for in a game in the given phase. `Enter` restarts a
/// game that is over and has no meaning of its own otherwise.
pub open spec fn meaning(key: Key, phase: GamePhase) -> Action {
    match key {
        Key::Char('q') | Key::Esc => Action::Quit,
        Key::Char('r') => Action::Restart,
        Key::Enter => if phase == GamePhase::GameOver {
            Action::Restart
        } else {
            Action::Extra(key)
        },
        Key::Char('p') => Action::TogglePause,
        Key::Left | Key::Char('a') => Action::MoveLeft,
        Key::Right | Key::Char('d') => Action::MoveRight,
        Key::Down | Key::Char('s') => Action::SoftDrop,
        Key::Char(' ') => Action::HardDrop,
        Key::Up | Key::Char('x') | Key::Char('w') => Action::RotateCw,
        Key::Char('z') => Action::RotateCcw,
        _ => Action::Extra(key),
    }
}

/// Says what a key asks for in a game in the given phase.
pub fn handle_key(key: Key, phase: GamePhase) -> (action: Action)
    ensures
        action == meaning(key, phase),
{
    match key {
        Key::Esc => Action::Quit,
        Key::Enter => {
            if phase == GamePhase::GameOver {
                Action::Restart
            } else {
                Action::Extra(key)
            }
        },
        Key::Left => Action::MoveLeft,
        Key::Right => Action::MoveRight,
        Key::Down => Action::SoftDrop,
        Key::Up => Action::RotateCw,
        Key::Char(c) => {
            if c == 'q' {
                Action::Quit
            } else if c == 'r' {
                Action::Restart
            } else if c == 'p' {
                Action::TogglePause
            } else if c == 'a' {
                Action::MoveLeft
            } else if c == 'd' {
                Action::MoveRight
            } else if c == 's' {
                Action::SoftDrop
            } else if c == ' ' {
                Action::HardDrop
            } else if c == 'x' || c == 'w' {
                Action::RotateCw
            } else if c == 'z' {
                Action::RotateCcw
            } else {
                Action::Extra(key)
            }
        },
        _ => Action::Extra(key),
    }
}

} // verus!
