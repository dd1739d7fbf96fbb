//! A Tetris-playing agent and the optimizers that tune its heuristic weights.
//!
//! The agent places every incoming piece where a weighted sum of board
//! features is largest. Weights, scores and fitness values are fixed-point
//! numbers: integers counting millionths, so that every result is exact and
//! reproducible.
//!
//! - [`game`]: the board, the pieces and the rules of play.
//! - [`eval_fns`]: the sixteen board features and their weighted sum.
//! - [`agent`]: the search for the best placement, and whole simulated
//!   games.
//! - [`harmony`]: Harmony Search and the Cross-Entropy Method, which tune
//!   the weights with simulated games as their measure.
//! - [`weights`], [`seeds`], [`decimal`], [`cli`]: weights, seeds, numbers
//!   and command lines as text.
//! - [`tui`]: the state behind the interactive games.
//! - [`numeric`], [`random`], [`text`]: sums and roots, the random source,
//!   and strings.

pub mod numeric;
pub mod text;
pub mod decimal;
pub mod cli;
pub mod random;
pub mod weights;
pub mod seeds;
pub mod game;
pub mod eval_fns;
pub mod agent;
pub mod harmony;
pub mod tui;
