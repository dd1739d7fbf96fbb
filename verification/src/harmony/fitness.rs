//! Fitness: what both optimizers maximize, how it is measured, and when a
//! run may stop early.
//!
//! A fitness is a number of cleared rows in the fixed-point unit of the
//! weights: the rows of one game, or the mean over several games rounded
//! down. `i64::MIN` stands for "no fitness yet" and `i64::MAX` for a target
//! that is never reached.

use crate::agent::simulator::{ScoringMode, Simulator, MAX_GAME_LENGTH};
use crate::game::Tetromino;
use crate::numeric::{
    lemma_max_range, lemma_min_range, max_range, min_range, quotient_towards_zero, sum_range,
};
use crate::weights::SCALE;
use rand::rngs::StdRng;
use vstd::prelude::*;

verus! {

/// The fitness of a game that cleared `rows` rows.
pub open spec fn fitness_of_rows(rows: int) -> int {
    rows * SCALE
}

/// The fitness of `runs` games that cleared `total` rows between them: the
/// mean, rounded down.
pub open spec fn mean_fitness(total: int, runs: int) -> int {
    (total * SCALE) / runs
}

/// The fitness values of a sequence, by index.
pub open spec fn values(fitnesses: Seq<i64>) -> spec_fn(int) -> int {
    |i: int| fitnesses[i] as int
}

/// The highest fitness of the sequence; `i64::MIN` if it is empty.
pub open spec fn best_of(fitnesses: Seq<i64>) -> int {
    max_range(0, fitnesses.len() as int, values(fitnesses), i64::MIN as int)
}

/// The lowest fitness of the sequence; `i64::MAX` if it is empty.
pub open spec fn worst_of(fitnesses: Seq<i64>) -> int {
    min_range(0, fitnesses.len() as int, values(fitnesses), i64::MAX as int)
}

/// The mean fitness of the sequence, rounded towards zero; 0 if it is
/// empty.
pub open spec fn mean_of(fitnesses: Seq<i64>) -> int {
    if fitnesses.len() == 0 {
        0
    } else {
        quotient_towards_zero(
            sum_range(0, fitnesses.len() as int, values(fitnesses)),
            fitnesses.len() as int,
        )
    }
}

/// `index` is where the lowest fitness stands first.
pub open spec fn is_first_worst(fitnesses: Seq<i64>, index: int) -> bool {
    &&& 0 <= index < fitnesses.len()
    &&& forall|j: int| 0 <= j < fitnesses.len() ==> fitnesses[index] <= fitnesses[j]
    &&& forall|j: int| 0 <= j < index ==> fitnesses[index] < fitnesses[j]
}

/// `index` is where the highest fitness stands last.
pub open spec fn is_last_best(fitnesses: Seq<i64>, index: int) -> bool {
    &&& 0 <= index < fitnesses.len()
    &&& forall|j: int| 0 <= j < fitnesses.len() ==> fitnesses[j] <= fitnesses[index]
    &&& forall|j: int| index < j < fitnesses.len() ==> fitnesses[j] < fitnesses[index]
}

/// A value that is at least every fitness of the sequence and is one of
/// them is the best of the sequence.
pub proof fn lemma_best_of(fitnesses: Seq<i64>, index: int)
    requires
        0 <= index < fitnesses.len(),
        forall|j: int| 0 <= j < fitnesses.len() ==> fitnesses[j] <= fitnesses[index],
    ensures
        best_of(fitnesses) == fitnesses[index],
{
    lemma_max_range(0, fitnesses.len() as int, values(fitnesses), i64::MIN as int);
    assert(values(fitnesses)(index) <= best_of(fitnesses));
    if best_of(fitnesses) != i64::MIN {
        let i = choose|i: int|
            0 <= i < fitnesses.len() && #[trigger] values(fitnesses)(i) == best_of(fitnesses);
        assert(fitnesses[i] <= fitnesses[index]);
    }
}

/// A value that is at most every fitness of the sequence and is one of
/// them is the worst of the sequence.
pub proof fn lemma_worst_of(fitnesses: Seq<i64>, index: int)
    requires
        0 <= index < fitnesses.len(),
        forall|j: int| 0 <= j < fitnesses.len() ==> fitnesses[index] <= fitnesses[j],
    ensures
        worst_of(fitnesses) == fitnesses[index],
{
    lemma_min_range(0, fitnesses.len() as int, values(fitnesses), i64::MAX as int);
    assert(values(fitnesses)(index) >= worst_of(fitnesses));
    if worst_of(fitnesses) != i64::MAX {
        let i = choose|i: int|
            0 <= i < fitnesses.len() && #[trigger] values(fitnesses)(i) == worst_of(fitnesses);
        assert(fitnesses[index] <= fitnesses[i]);
    }
}

/// Finds the lowest fitness; where several are as low, the first.
pub fn worst_index(fitnesses: &Vec<i64>) -> (index: usize)
    requires
        fitnesses@.len() > 0,
    ensures
        is_first_worst(fitnesses@, index as int),
        fitnesses@[index as int] == worst_of(fitnesses@),
{
    let mut index: usize = 0;
    let mut i: usize = 1;
    while i < fitnesses.len()
        invariant
            1 <= i <= fitnesses@.len(),
            index < i,
            forall|j: int| 0 <= j < i ==> fitnesses@[index as int] <= fitnesses@[j],
            forall|j: int| 0 <= j < index ==> fitnesses@[index as int] < fitnesses@[j],
        decreases fitnesses@.len() - i,
    {
        if fitnesses[i] < fitnesses[index] {
            index = i;
        }
        i += 1;
    }
    proof {
        lemma_worst_of(fitnesses@, index as int);
    }
    index
}

/// Finds the highest fitness; where several are as high, the last.
pub fn best_index(fitnesses: &Vec<i64>) -> (index: usize)
    requires
        fitnesses@.len() > 0,
    ensures
        is_last_best(fitnesses@, index as int),
        fitnesses@[index as int] == best_of(fitnesses@),
{
    let mut index: usize = 0;
    let mut i: usize = 1;
    while i < fitnesses.len()
        invariant
            1 <= i <= fitnesses@.len(),
            index < i,
            forall|j: int| 0 <= j < i ==> fitnesses@[j] <= fitnesses@[index as int],
            forall|j: int| index < j < i ==> fitnesses@[j] < fitnesses@[index as int],
        decreases fitnesses@.len() - i,
    {
        if fitnesses[i] >= fitnesses[index] {
            index = i;
        }
        i += 1;
    }
    proof {
        lemma_best_of(fitnesses@, index as int);
    }
    index
}

/// One line of an optimizer's log: the best, mean and worst fitness after
/// an iteration.
#[derive(Debug, Clone, Copy, PartialEq, Eq, Structural)]
pub struct IterationStats {
    pub iteration: usize,
    pub best: i64,
    pub mean: i64,
    pub worst: i64,
}

/// Returns the best, the mean and the worst of the fitness values. Of an
/// empty sequence the best is `i64::MIN`, the mean 0 and the worst
/// `i64::MAX`.
pub fn fitness_stats(fitnesses: &Vec<i64>) -> (stats: (i64, i64, i64))
    ensures
        stats.0 == best_of(fitnesses@),
        stats.1 == mean_of(fitnesses@),
        stats.2 == worst_of(fitnesses@),
{
    if fitnesses.len() == 0 {
        return (i64::MIN, 0, i64::MAX);
    }
    let best = fitnesses[best_index(fitnesses)];
    let worst = fitnesses[worst_index(fitnesses)];
    let mut sum: i128 = 0;
    let mut i: usize = 0;
    while i < fitnesses.len()
        invariant
            i <= fitnesses@.len(),
            -i * 0x8000_0000_0000_0000 <= sum <= i * 0x8000_0000_0000_0000,
            sum == sum_range(0, i as int, values(fitnesses@)),
        decreases fitnesses@.len() - i,
    {
        sum = sum + fitnesses[i] as i128;
        i += 1;
    }
    let count = fitnesses.len() as i128;
    assert(count * 0x8000_0000_0000_0000 <= 0xffff_ffff_ffff_ffff * 0x8000_0000_0000_0000)
        by (nonlinear_arith)
        requires
            0 < count <= 0xffff_ffff_ffff_ffff,
    ;
    let mean: i128 = if sum >= 0 {
        sum / count
    } else {
        -((-sum) / count)
    };
    assert(mean == mean_of(fitnesses@));
    proof {
        lemma_mean_within(fitnesses@);
    }
    (best, mean as i64, worst)
}

/// The mean of a sequence lies between its worst and its best.
pub proof fn lemma_mean_within(fitnesses: Seq<i64>)
    requires
        fitnesses.len() > 0,
    ensures
        worst_of(fitnesses) <= mean_of(fitnesses) <= best_of(fitnesses),
{
    let f = values(fitnesses);
    let n = fitnesses.len() as int;
    let low = worst_of(fitnesses);
    let high = best_of(fitnesses);
    lemma_max_range(0, n, f, i64::MIN as int);
    lemma_min_range(0, n, f, i64::MAX as int);
    crate::numeric::lemma_sum_bounds(0, n, f, low, high);
    let sum = sum_range(0, n, f);
    assert(f(0) <= high && low <= f(0));
    assert(low <= quotient_towards_zero(sum, n) <= high) by (nonlinear_arith)
        requires
            n > 0,
            low <= high,
            low * (n - 0) <= sum <= high * (n - 0),
    ;
}

/// When an optimizer run may stop before its last iteration.
#[derive(Debug, Clone, Copy, PartialEq, Eq, Structural)]
pub struct EarlyStop {
    /// The best fitness seen so far; `i64::MIN` before the first.
    pub best_fitness: i64,
    /// How many iterations in a row have brought no improvement, counted
    /// only when a patience is set.
    pub no_improve: usize,
}

impl EarlyStop {
    /// The tracker after one more iteration whose best fitness was `best`.
    pub open spec fn after(self, best: i64, patience: usize) -> EarlyStop {
        if best > self.best_fitness {
            EarlyStop { best_fitness: best, no_improve: 0 }
        } else if patience > 0 {
            EarlyStop { best_fitness: self.best_fitness, no_improve: (self.no_improve + 1) as usize }
        } else {
            self
        }
    }

    /// The run is to stop: the target is reached, or a patience is set and
    /// as many iterations have passed without improvement.
    pub open spec fn is_done(self, patience: usize, target: i64) -> bool {
        self.best_fitness >= target || (patience > 0 && self.no_improve >= patience)
    }

    /// A tracker that has seen nothing.
    pub fn new() -> (tracker: Self)
        ensures
            tracker == (EarlyStop { best_fitness: i64::MIN, no_improve: 0 }),
    {
        EarlyStop { best_fitness: i64::MIN, no_improve: 0 }
    }

    /// Takes note of an iteration whose best fitness was `best`, and says
    /// whether the run is to stop.
    pub fn observe(&mut self, best: i64, patience: usize, target: i64) -> (done: bool)
        requires
            old(self).no_improve < usize::MAX,
        ensures
            *final(self) == old(self).after(best, patience),
            done == final(self).is_done(patience, target),
            final(self).best_fitness >= old(self).best_fitness,
            final(self).best_fitness >= best,
    {
        if best > self.best_fitness {
            self.best_fitness = best;
            self.no_improve = 0;
        } else if patience > 0 {
            self.no_improve += 1;
        }
        self.best_fitness >= target || (patience > 0 && self.no_improve >= patience)
    }
}

/// Turns the rows of one game into a fitness.
pub fn game_fitness(rows: u32) -> (fitness: i64)
    ensures
        fitness == fitness_of_rows(rows as int),
        0 <= fitness <= u32::MAX * SCALE,
{
    assert(0 <= rows * SCALE <= u32::MAX * SCALE) by (nonlinear_arith)
        requires
            0 <= rows <= u32::MAX,
            SCALE == 1_000_000,
    ;
    (rows as i64) * SCALE
}

/// Turns the rows of several games into a fitness: their mean, rounded
/// down.
pub fn averaged_fitness(total: u128, runs: usize) -> (fitness: i64)
    requires
        runs > 0,
        total <= runs * u32::MAX,
    ensures
        fitness == mean_fitness(total as int, runs as int),
        0 <= fitness <= u32::MAX * SCALE,
{
    assert(total * 1_000_000 <= 0xffff_ffff_ffff_ffff * 0xffff_ffff * 1_000_000) by (nonlinear_arith)
        requires
            total <= runs * 0xffff_ffff,
            runs <= 0xffff_ffff_ffff_ffff,
    ;
    let scaled: u128 = total * 1_000_000;
    let mean: u128 = scaled / (runs as u128);
    assert(mean <= 0xffff_ffff * 1_000_000) by (nonlinear_arith)
        requires
            runs > 0,
            scaled == total * 1_000_000,
            total <= runs * 0xffff_ffff,
            mean == (scaled as int) / (runs as int),
    ;
    mean as i64
}

/// `total` rows are what `runs` games of the simulator can clear between
/// them: each game is played on some pieces, as many as its length.
pub open spec fn is_total_of_games(sim: Simulator, runs: int, total: int) -> bool
    decreases runs,
{
    if runs <= 0 {
        total == 0
    } else {
        exists|pieces: Seq<Tetromino>|
            pieces.len() == sim.max_length && is_total_of_games(
                sim,
                runs - 1,
                total - #[trigger] sim.rows_cleared_by(pieces),
            )
    }
}

/// How the fitness of a weight vector is measured: the length of a game,
/// how its moves are scored, how many weights count, and whether the mean
/// of several games is taken, and of how many.
pub struct Trial {
    pub sim_length: usize,
    pub scoring_mode: ScoringMode,
    pub n_weights: usize,
    pub averaged: bool,
    pub averaged_runs: usize,
}

impl Trial {
    /// The simulator that plays the games of the trial with the given
    /// weights.
    pub open spec fn simulator(self, weights: [i64; 16]) -> Simulator {
        Simulator {
            weights,
            max_length: self.sim_length,
            scoring_mode: self.scoring_mode,
            n_weights: self.n_weights,
        }
    }
}

/// `fitness` is a fitness of the weights under the trial: that of a game
/// played with them on some `sim_length` pieces, or the mean over
/// `averaged_runs` such games.
pub open spec fn is_fitness_of(weights: [i64; 16], trial: Trial, fitness: i64) -> bool {
    if trial.averaged {
        exists|total: int|
            is_total_of_games(trial.simulator(weights), trial.averaged_runs as int, total)
                && fitness == #[trigger] mean_fitness(total, trial.averaged_runs as int)
    } else {
        exists|pieces: Seq<Tetromino>|
            pieces.len() == trial.sim_length && fitness == fitness_of_rows(
                #[trigger] trial.simulator(weights).rows_cleared_by(pieces),
            )
    }
}

/// With games of no piece, the only fitness is 0.
pub proof fn lemma_fitness_of_no_game(weights: [i64; 16], trial: Trial, fitness: i64)
    requires
        trial.sim_length == 0,
        trial.averaged ==> trial.averaged_runs > 0,
        is_fitness_of(weights, trial, fitness),
    ensures
        fitness == 0,
{
    let sim = trial.simulator(weights);
    if trial.averaged {
        let total = choose|total: int|
            is_total_of_games(sim, trial.averaged_runs as int, total) && fitness
                == #[trigger] mean_fitness(total, trial.averaged_runs as int);
        lemma_total_of_no_game(sim, trial.averaged_runs as int, total);
    } else {
        let pieces = choose|pieces: Seq<Tetromino>|
            pieces.len() == trial.sim_length && fitness == fitness_of_rows(
                #[trigger] sim.rows_cleared_by(pieces),
            );
        assert(sim.rows_cleared_by(pieces) == 0);
    }
}

/// Games of no piece clear no row between them.
pub proof fn lemma_total_of_no_game(sim: Simulator, runs: int, total: int)
    requires
        sim.max_length == 0,
        is_total_of_games(sim, runs, total),
    ensures
        total == 0,
    decreases runs,
{
    if runs > 0 {
        let pieces = choose|pieces: Seq<Tetromino>|
            pieces.len() == sim.max_length && is_total_of_games(
                sim,
                runs - 1,
                total - #[trigger] sim.rows_cleared_by(pieces),
            );
        assert(sim.rows_cleared_by(pieces) == 0);
        lemma_total_of_no_game(sim, runs - 1, total);
    }
}

/// `stats` are the statistics of the fitness values, numbered
/// `iteration`.
pub open spec fn is_stats_of(stats: IterationStats, fitnesses: Seq<i64>, iteration: int) -> bool {
    &&& stats.iteration == iteration
    &&& stats.best == best_of(fitnesses)
    &&& stats.mean == mean_of(fitnesses)
    &&& stats.worst == worst_of(fitnesses)
}

/// Measures the fitness of a weight vector: the rows cleared by one
/// simulated game, or by `averaged_runs` games on average.
///
/// The games are drawn from `rng`, so the contract states what holds of
/// every outcome: the result is the fitness of some game, or of as many
/// games as were asked for.
pub fn evaluate_weights(
    rng: &mut StdRng,
    weights: [i64; 16],
    sim_length: usize,
    scoring_mode: ScoringMode,
    n_weights: usize,
    averaged: bool,
    averaged_runs: usize,
) -> (fitness: i64)
    requires
        sim_length <= MAX_GAME_LENGTH,
        averaged ==> averaged_runs > 0,
    ensures
        0 <= fitness <= u32::MAX * SCALE,
        is_fitness_of(
            weights,
            Trial { sim_length, scoring_mode, n_weights, averaged, averaged_runs },
            fitness,
        ),
{
    if averaged {
        let ghost games = Simulator { weights, max_length: sim_length, scoring_mode, n_weights };
        let mut total: u128 = 0;
        let mut run: usize = 0;
        while run < averaged_runs
            invariant
                run <= averaged_runs,
                sim_length <= MAX_GAME_LENGTH,
                total <= run * u32::MAX,
                games == (Simulator { weights, max_length: sim_length, scoring_mode, n_weights }),
                is_total_of_games(games, run as int, total as int),
            decreases averaged_runs - run,
        {
            let sim = Simulator::new(weights, sim_length, scoring_mode).with_n_weights(n_weights);
            let rows = sim.simulate_game_with_rng(rng);
            proof {
                let pieces = choose|pieces: Seq<Tetromino>|
                    pieces.len() == sim.max_length && rows == #[trigger] sim.rows_cleared_by(
                        pieces,
                    );
                assert(sim == games);
                assert(is_total_of_games(games, run as int, total + rows - games.rows_cleared_by(pieces)));
            }
            assert((run + 1) * u32::MAX == run * u32::MAX + u32::MAX) by (nonlinear_arith);
            assert(run * u32::MAX <= 0xffff_ffff_ffff_ffff * 0xffff_ffff) by (nonlinear_arith)
                requires
                    run <= 0xffff_ffff_ffff_ffff,
            ;
            total = total + rows as u128;
            run += 1;
        }
        let fitness = averaged_fitness(total, averaged_runs);
        proof {
            let trial = Trial { sim_length, scoring_mode, n_weights, averaged, averaged_runs };
            assert(trial.simulator(weights) == games);
            assert(fitness == mean_fitness(total as int, averaged_runs as int));
            assert(is_total_of_games(trial.simulator(weights), trial.averaged_runs as int, total as int));
            assert(is_fitness_of(weights, trial, fitness));
        }
        fitness
    } else {
        let sim = Simulator::new(weights, sim_length, scoring_mode).with_n_weights(n_weights);
        let rows = sim.simulate_game_with_rng(rng);
        let fitness = game_fitness(rows);
        proof {
            let trial = Trial { sim_length, scoring_mode, n_weights, averaged, averaged_runs };
            assert(trial.simulator(weights) == sim);
            let pieces = choose|pieces: Seq<Tetromino>|
                pieces.len() == sim.max_length && rows == #[trigger] sim.rows_cleared_by(pieces);
            assert(fitness == fitness_of_rows(trial.simulator(weights).rows_cleared_by(pieces)));
            assert(is_fitness_of(weights, trial, fitness));
        }
        fitness
    }
}

/// The tracker after the log entries from `from` up to, not including,
/// `upto` have been observed one after the other.
pub open spec fn tracker_after(
    log: Seq<IterationStats>,
    from: int,
    upto: int,
    patience: usize,
) -> EarlyStop
    decreases upto - from,
{
    if upto <= from {
        EarlyStop { best_fitness: i64::MIN, no_improve: 0 }
    } else {
        tracker_after(log, from, upto - 1, patience).after(log[upto - 1].best, patience)
    }
}

/// What the tracker has seen depends on the entries it was shown and on no
/// others.
pub proof fn lemma_tracker_of_prefix(
    a: Seq<IterationStats>,
    b: Seq<IterationStats>,
    from: int,
    upto: int,
    patience: usize,
)
    requires
        0 <= from,
        upto <= a.len(),
        upto <= b.len(),
        forall|i: int| from <= i < upto ==> a[i] == b[i],
    ensures
        tracker_after(a, from, upto, patience) == tracker_after(b, from, upto, patience),
    decreases upto - from,
{
    if upto > from {
        lemma_tracker_of_prefix(a, b, from, upto - 1, patience);
    }
}

/// `log` is `start` followed by the statistics of `count` iterations,
/// numbered from 0.
pub open spec fn extends_log(
    start: Seq<IterationStats>,
    log: Seq<IterationStats>,
    count: int,
) -> bool {
    &&& log.len() == start.len() + count
    &&& forall|i: int| 0 <= i < start.len() ==> log[i] == start[i]
    &&& forall|k: int| 0 <= k < count ==> (#[trigger] log[start.len() + k]).iteration == k
}

/// `log` is what a run of `count` iterations makes of the log `start`: the
/// earlier entries followed by one for each iteration. The run went on as
/// long as it was not to stop, and it ended because `max_iter` was reached
/// or because the tracker, having observed every iteration, said so.
pub open spec fn is_run_log(
    start: Seq<IterationStats>,
    log: Seq<IterationStats>,
    count: int,
    max_iter: int,
    patience: usize,
    target: i64,
) -> bool {
    &&& extends_log(start, log, count)
    &&& forall|j: int|
        start.len() < j < log.len() ==> !(#[trigger] tracker_after(
            log,
            start.len() as int,
            j,
            patience,
        )).is_done(patience, target)
    &&& count == max_iter || (count > 0 && tracker_after(
        log,
        start.len() as int,
        log.len() as int,
        patience,
    ).is_done(patience, target))
}


/// A run that was not to stop after any of its iterations but perhaps the
/// last is, with one more iteration in its log, still one that was not to
/// stop after any but perhaps the last.
pub proof fn lemma_not_done_before(
    earlier: Seq<IterationStats>,
    log: Seq<IterationStats>,
    from: int,
    patience: usize,
    target: i64,
)
    requires
        0 <= from <= earlier.len(),
        log.len() == earlier.len() + 1,
        forall|i: int| 0 <= i < earlier.len() ==> log[i] == earlier[i],
        forall|j: int|
            from < j < earlier.len() ==> !(#[trigger] tracker_after(earlier, from, j, patience)).is_done(
                patience,
                target,
            ),
        earlier.len() > from ==> !tracker_after(earlier, from, earlier.len() as int, patience).is_done(
            patience,
            target,
        ),
    ensures
        tracker_after(log, from, earlier.len() as int, patience) == tracker_after(
            earlier,
            from,
            earlier.len() as int,
            patience,
        ),
        forall|j: int|
            from < j < log.len() ==> !(#[trigger] tracker_after(log, from, j, patience)).is_done(
                patience,
                target,
            ),
{
    lemma_tracker_of_prefix(earlier, log, from, earlier.len() as int, patience);
    assert forall|j: int| from < j < log.len() implies !(#[trigger] tracker_after(
        log,
        from,
        j,
        patience,
    )).is_done(patience, target) by {
        lemma_tracker_of_prefix(earlier, log, from, j, patience);
    }
}

} // verus!
