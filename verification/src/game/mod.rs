//! The board, the seven tetrominoes and the rules of an interactive game.

pub mod board;
pub mod render;
pub mod rotations;
pub mod state;
pub mod tetromino;

pub use board::Board;
pub use render::visualize_cells;
pub use state::{GamePhase, GameState, MoveResult};
pub use tetromino::{FallingPiece, Rotation, Tetromino};
