//! The agent: the search for the best placement of a piece, and the
//! simulator that plays whole games with it.

pub mod simulator;

pub use simulator::{find_best_move, Placement, ScoringMode, Simulator};
