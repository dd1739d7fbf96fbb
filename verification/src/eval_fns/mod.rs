//! Board evaluation functions used by the agent: sixteen features of a board
//! on which no piece is falling, and their weighted sum.

pub mod helpers;

pub mod ef01_pile_height;
pub mod ef02_holes;
pub mod ef03_connected_holes;
pub mod ef05_altitude_diff;
pub mod ef06_max_well_depth;
pub mod ef07_sum_of_wells;
pub mod ef09_blocks;
pub mod ef10_weighted_blocks;
pub mod ef11_row_transitions;
pub mod ef12_col_transitions;
pub mod ef13_highest_hole;
pub mod ef14_blocks_above_highest;
pub mod ef15_potential_rows;
pub mod ef16_smoothness;
pub mod ef18_row_holes;
pub mod ef19_hole_depth;

use crate::game::Board;
use crate::numeric::{lemma_sum_bounds, sum_range};
use crate::weights::NUM_WEIGHTS;
use ef01_pile_height::PileHeight;
use ef05_altitude_diff::AltitudeDiff;
use ef06_max_well_depth::MaxWellDepth;
use ef07_sum_of_wells::SumOfWells;
use ef09_blocks::Blocks;
use ef10_weighted_blocks::WeightedBlocks;
use ef11_row_transitions::RowTransitions;
use ef12_col_transitions::ColTransitions;
use ef14_blocks_above_highest::BlocksAboveHighest;
use ef15_potential_rows::PotentialRows;
use ef18_row_holes::RowHoles;
use ef19_hole_depth::HoleDepth;
use vstd::prelude::*;

verus! {

/// A feature of a board: a number that the agent weighs.
pub trait EvalFn {
    /// What the feature measures on `board`.
    spec fn measure(&self, board: Board) -> int;

    /// Evaluates the board and returns the feature's value.
    fn eval(&self, board: &Board) -> (score: u16)
        ensures
            score == self.measure(*board),
    ;
}

/// The sixteen features, as one closed set of tags.
#[derive(Debug, Clone, Copy, PartialEq, Eq, Structural)]
pub enum Evaluator {
    PileHeight,
    Holes,
    ConnectedHoles,
    AltitudeDiff,
    MaxWellDepth,
    SumOfWells,
    Blocks,
    WeightedBlocks,
    RowTransitions,
    ColTransitions,
    HighestHole,
    BlocksAboveHighest,
    PotentialRows,
    Smoothness,
    RowHoles,
    HoleDepth,
}

/// What the evaluator measures on `board`.
pub open spec fn feature(evaluator: Evaluator, board: Board) -> int {
    match evaluator {
        Evaluator::PileHeight => ef01_pile_height::pile_height(board),
        Evaluator::Holes => ef02_holes::holes(board),
        Evaluator::ConnectedHoles => ef03_connected_holes::connected_holes(board),
        Evaluator::AltitudeDiff => ef05_altitude_diff::altitude_diff(board),
        Evaluator::MaxWellDepth => ef06_max_well_depth::max_well_depth(board),
        Evaluator::SumOfWells => ef07_sum_of_wells::sum_of_wells(board),
        Evaluator::Blocks => board.count(),
        Evaluator::WeightedBlocks => ef10_weighted_blocks::weighted_blocks(board),
        Evaluator::RowTransitions => ef11_row_transitions::row_transitions(board),
        Evaluator::ColTransitions => ef12_col_transitions::col_transitions(board),
        Evaluator::HighestHole => ef13_highest_hole::highest_hole_height(board),
        Evaluator::BlocksAboveHighest => ef14_blocks_above_highest::blocks_above_highest(board),
        Evaluator::PotentialRows => ef15_potential_rows::potential_rows(board),
        Evaluator::Smoothness => ef16_smoothness::smoothness(board),
        Evaluator::RowHoles => ef18_row_holes::row_holes(board),
        Evaluator::HoleDepth => ef19_hole_depth::hole_depth(board),
    }
}

impl Evaluator {
    /// Evaluates the board with the evaluator that this tag names.
    pub fn apply(&self, board: &Board) -> (score: u16)
        ensures
            score == feature(*self, *board),
    {
        match self {
            Evaluator::PileHeight => PileHeight.eval(board),
            Evaluator::Holes => ef02_holes::Eval.eval(board),
            Evaluator::ConnectedHoles => ef03_connected_holes::Eval.eval(board),
            Evaluator::AltitudeDiff => AltitudeDiff.eval(board),
            Evaluator::MaxWellDepth => MaxWellDepth.eval(board),
            Evaluator::SumOfWells => SumOfWells.eval(board),
            Evaluator::Blocks => Blocks.eval(board),
            Evaluator::WeightedBlocks => WeightedBlocks.eval(board),
            Evaluator::RowTransitions => RowTransitions.eval(board),
            Evaluator::ColTransitions => ColTransitions.eval(board),
            Evaluator::HighestHole => ef13_highest_hole::Eval.eval(board),
            Evaluator::BlocksAboveHighest => BlocksAboveHighest.eval(board),
            Evaluator::PotentialRows => PotentialRows.eval(board),
            Evaluator::Smoothness => ef16_smoothness::Eval.eval(board),
            Evaluator::RowHoles => RowHoles.eval(board),
            Evaluator::HoleDepth => HoleDepth.eval(board),
        }
    }
}

impl EvalFn for Evaluator {
    open spec fn measure(&self, board: Board) -> int {
        feature(*self, board)
    }

    fn eval(&self, board: &Board) -> (score: u16) {
        self.apply(board)
    }
}

/// The evaluator that the weight at `index` belongs to.
pub open spec fn evaluator_at(index: int) -> Evaluator {
    if index == 0 {
        Evaluator::PileHeight
    } else if index == 1 {
        Evaluator::Holes
    } else if index == 2 {
        Evaluator::ConnectedHoles
    } else if index == 3 {
        Evaluator::AltitudeDiff
    } else if index == 4 {
        Evaluator::MaxWellDepth
    } else if index == 5 {
        Evaluator::SumOfWells
    } else if index == 6 {
        Evaluator::Blocks
    } else if index == 7 {
        Evaluator::WeightedBlocks
    } else if index == 8 {
        Evaluator::RowTransitions
    } else if index == 9 {
        Evaluator::ColTransitions
    } else if index == 10 {
        Evaluator::HighestHole
    } else if index == 11 {
        Evaluator::BlocksAboveHighest
    } else if index == 12 {
        Evaluator::PotentialRows
    } else if index == 13 {
        Evaluator::Smoothness
    } else if index == 14 {
        Evaluator::RowHoles
    } else {
        Evaluator::HoleDepth
    }
}

/// Returns all 16 evaluators, in the order of the weights.
pub fn get_all_evaluators() -> (evaluators: Vec<Evaluator>)
    ensures
        evaluators@.len() == 16,
        forall|i: int| 0 <= i < 16 ==> evaluators@[i] == evaluator_at(i),
{
    let mut evaluators: Vec<Evaluator> = Vec::new();
    evaluators.push(Evaluator::PileHeight);
    evaluators.push(Evaluator::Holes);
    evaluators.push(Evaluator::ConnectedHoles);
    evaluators.push(Evaluator::AltitudeDiff);
    evaluators.push(Evaluator::MaxWellDepth);
    evaluators.push(Evaluator::SumOfWells);
    evaluators.push(Evaluator::Blocks);
    evaluators.push(Evaluator::WeightedBlocks);
    evaluators.push(Evaluator::RowTransitions);
    evaluators.push(Evaluator::ColTransitions);
    evaluators.push(Evaluator::HighestHole);
    evaluators.push(Evaluator::BlocksAboveHighest);
    evaluators.push(Evaluator::PotentialRows);
    evaluators.push(Evaluator::Smoothness);
    evaluators.push(Evaluator::RowHoles);
    evaluators.push(Evaluator::HoleDepth);
    evaluators
}

/// Each feature times its weight, by index.
pub open spec fn weighted_terms(board: Board, weights: [i64; 16]) -> spec_fn(int) -> int {
    |i: int| weights[i] * feature(evaluator_at(i), board)
}

/// How many weights take part when `n_weights` are asked for: no more than
/// there are.
pub open spec fn weights_used(n_weights: int) -> int {
    if n_weights < 16 {
        n_weights
    } else {
        16
    }
}

/// The score of a board: the sum of `weights[i]` times feature `i` over the
/// first `n_weights` features.
pub open spec fn weighted_score(board: Board, weights: [i64; 16], n_weights: int) -> int {
    sum_range(0, weights_used(n_weights), weighted_terms(board, weights))
}

/// Weights that are all zero score every board 0.
pub proof fn lemma_zero_weights_score_zero(board: Board, weights: [i64; 16], n_weights: int)
    requires
        forall|i: int| 0 <= i < 16 ==> weights[i] == 0,
    ensures
        weighted_score(board, weights, n_weights) == 0,
{
    let used = weights_used(n_weights);
    let terms = weighted_terms(board, weights);
    if used > 0 {
        assert forall|i: int| 0 <= i < used implies #[trigger] terms(i) == 0 by {
            assert(weights[i] == 0);
        }
        lemma_sum_bounds(0, used, terms, 0, 0);
    }
}

/// The largest magnitude of one weighted feature: a 64-bit weight times a
/// 16-bit feature.
pub open spec fn term_limit() -> int {
    0x8000_0000_0000_0000int * 0x1_0000int
}

/// Calculates the weighted sum of the first `n_weights` heuristics.
pub fn calculate_weighted_score_n(board: &Board, weights: &[i64; 16], n_weights: usize) -> (score:
    i128)
    ensures
        score == weighted_score(*board, *weights, n_weights as int),
        -16 * term_limit() <= score <= 16 * term_limit(),
{
    let evaluators = get_all_evaluators();
    let used: usize = if n_weights < NUM_WEIGHTS {
        n_weights
    } else {
        NUM_WEIGHTS
    };
    let mut score: i128 = 0;
    let mut i: usize = 0;
    while i < used
        invariant
            i <= used <= 16,
            used == weights_used(n_weights as int),
            evaluators@.len() == 16,
            forall|k: int| 0 <= k < 16 ==> evaluators@[k] == evaluator_at(k),
            -i * term_limit() <= score <= i * term_limit(),
            score == sum_range(0, i as int, weighted_terms(*board, *weights)),
        decreases used - i,
    {
        let value = evaluators[i].apply(board);
        let weight = weights[i];
        assert(-term_limit() <= weight * value <= term_limit()) by (nonlinear_arith)
            requires
                -0x8000_0000_0000_0000 <= weight < 0x8000_0000_0000_0000,
                0 <= value < 0x1_0000,
        ;
        assert((i + 1) * term_limit() == i * term_limit() + term_limit()) by (nonlinear_arith);
        assert(-(i + 1) * term_limit() == -i * term_limit() - term_limit()) by (nonlinear_arith);
        assert(i * term_limit() <= 15 * term_limit()) by (nonlinear_arith)
            requires
                i <= 15,
        ;
        assert(-i * term_limit() >= -15 * term_limit()) by (nonlinear_arith)
            requires
                0 <= i <= 15,
        ;
        score = score + (weight as i128) * (value as i128);
        i += 1;
    }
    assert(i * term_limit() <= 16 * term_limit()) by (nonlinear_arith)
        requires
            i <= 16,
    ;
    assert(-i * term_limit() >= -16 * term_limit()) by (nonlinear_arith)
        requires
            0 <= i <= 16,
    ;
    score
}

/// Calculates the weighted sum of all 16 heuristics.
pub fn calculate_weighted_score(board: &Board, weights: &[i64; 16]) -> (score: i128)
    ensures
        score == weighted_score(*board, *weights, 16),
{
    calculate_weighted_score_n(board, weights, NUM_WEIGHTS)
}

} // verus!
