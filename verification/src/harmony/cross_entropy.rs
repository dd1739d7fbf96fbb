//! The Cross-Entropy Method: a Gaussian for every weight, refitted in every
//! iteration to the best of the vectors sampled from it.
//!
//! A sample is the mean plus the standard deviation times a standard
//! normal deviate. The deviates are handed in by the caller, as fixed-point
//! numbers, so that every step here is a function of its arguments.

use crate::agent::simulator::{ScoringMode, MAX_GAME_LENGTH};
use crate::harmony::fitness::{
    best_of, evaluate_weights, extends_log, fitness_stats, is_fitness_of, is_run_log, is_stats_of,
    lemma_best_of, lemma_mean_within, lemma_not_done_before, tracker_after, EarlyStop,
    IterationStats, Trial,
};
use crate::numeric::{
    floor_sqrt, integer_sqrt, is_floor_sqrt, lemma_floor_sqrt, quotient_towards_zero, sum_range,
};
use crate::weights::{add_product, plus_product, NUM_WEIGHTS};
use rand::rngs::StdRng;
use vstd::prelude::*;

verus! {

/// Configuration for a Cross-Entropy Search optimization run. Standard
/// deviations and the target are fixed-point numbers in the unit of the
/// weights.
#[derive(Debug, Clone, Copy)]
pub struct CeConfig {
    pub n_samples: usize,
    pub n_elite: usize,
    pub iterations: usize,
    pub sim_length: usize,
    pub scoring_mode: ScoringMode,
    pub n_weights: usize,
    pub averaged: bool,
    pub averaged_runs: usize,
    pub initial_std_dev: i64,
    pub std_dev_floor: i64,
    pub early_stop_patience: usize,
    pub early_stop_target: i64,
}

impl CeConfig {
    pub const DEFAULT_N_SAMPLES: usize = 50;

    pub const DEFAULT_N_ELITE: usize = 10;

    pub const DEFAULT_ITERATIONS: usize = 500;

    pub const DEFAULT_SIM_LENGTH: usize = 1000;

    pub const DEFAULT_N_WEIGHTS: usize = 16;

    pub const DEFAULT_AVERAGED_RUNS: usize = 20;

    /// 10
    pub const DEFAULT_INITIAL_STD_DEV: i64 = 10_000_000;

    /// 0.01
    pub const DEFAULT_STD_DEV_FLOOR: i64 = 10_000;

    /// A target that no fitness reaches.
    pub const DEFAULT_EARLY_STOP_TARGET: i64 = i64::MAX;

    /// A run can be made of the configuration.
    pub open spec fn valid(&self) -> bool {
        &&& self.n_samples > 0
        &&& self.n_elite <= self.n_samples
        &&& self.sim_length <= MAX_GAME_LENGTH
        &&& self.averaged ==> self.averaged_runs > 0
    }

    /// Checks that a run can be made of the configuration: at least one
    /// sample is drawn in an iteration, the elite is no larger than the
    /// sample, the games are not longer than `MAX_GAME_LENGTH`, and an
    /// average is taken over at least one game.
    pub fn is_valid(&self) -> (valid: bool)
        ensures
            valid == self.valid(),
    {
        self.n_samples > 0 && self.n_elite <= self.n_samples && self.sim_length as u64
            <= MAX_GAME_LENGTH && (!self.averaged || self.averaged_runs > 0)
    }
}

impl Default for CeConfig {
    fn default() -> (config: Self)
        ensures
            config.n_samples == 50,
            config.n_elite == 10,
            config.iterations == 500,
            config.sim_length == 1000,
            config.scoring_mode == ScoringMode::Full,
            config.n_weights == 16,
            !config.averaged,
            config.averaged_runs == 20,
            config.initial_std_dev == 10_000_000,
            config.std_dev_floor == 10_000,
            config.early_stop_patience == 0,
            config.early_stop_target == i64::MAX,
            config.valid(),
    {
        CeConfig {
            n_samples: Self::DEFAULT_N_SAMPLES,
            n_elite: Self::DEFAULT_N_ELITE,
            iterations: Self::DEFAULT_ITERATIONS,
            sim_length: Self::DEFAULT_SIM_LENGTH,
            scoring_mode: ScoringMode::Full,
            n_weights: Self::DEFAULT_N_WEIGHTS,
            averaged: false,
            averaged_runs: Self::DEFAULT_AVERAGED_RUNS,
            initial_std_dev: Self::DEFAULT_INITIAL_STD_DEV,
            std_dev_floor: Self::DEFAULT_STD_DEV_FLOOR,
            early_stop_patience: 0,
            early_stop_target: Self::DEFAULT_EARLY_STOP_TARGET,
        }
    }
}

/// The state of a Cross-Entropy search: its parameters and, for every
/// weight, the mean and the standard deviation of the Gaussian it is
/// sampled from.
#[derive(Debug, Clone, Copy)]
pub struct CrossEntropySearch {
    pub n_samples: usize,
    pub n_elite: usize,
    pub max_iter: usize,
    pub means: [i64; 16],
    pub std_devs: [i64; 16],
}

/// What a run found: the best weights sampled, their fitness, and the
/// number of iterations run.
#[derive(Debug, Clone, Copy)]
pub struct CeOptimizeResult {
    pub weights: [i64; 16],
    pub best_score: i64,
    pub iterations: usize,
}

/// What a run carries from one iteration to the next: the best weights
/// sampled so far, and the tracker that knows their fitness.
#[derive(Debug, Clone, Copy)]
pub struct CeProgress {
    pub best_weights: [i64; 16],
    pub tracker: EarlyStop,
}

/// The sample whose fitness is at `i` comes before the one at `j` in the
/// ranking: it is fitter, or as fit and sampled earlier.
pub open spec fn ranks_before(fitnesses: Seq<i64>, i: int, j: int) -> bool {
    fitnesses[i] > fitnesses[j] || (fitnesses[i] == fitnesses[j] && i < j)
}

/// The index `i` has a rank among the first `upto` of `order`.
pub open spec fn is_ranked(order: Seq<usize>, upto: int, i: int) -> bool {
    exists|a: int| 0 <= a < upto && #[trigger] order[a] == i
}

/// `order` ranks the samples: it lists the index of each, the fittest first
/// and equals in the order they were sampled in.
pub open spec fn is_ranking(fitnesses: Seq<i64>, order: Seq<usize>) -> bool {
    &&& order.len() == fitnesses.len()
    &&& forall|a: int| 0 <= a < order.len() ==> (#[trigger] order[a]) < fitnesses.len()
    &&& forall|i: int| 0 <= i < fitnesses.len() ==> #[trigger] is_ranked(order, order.len() as int, i)
    &&& forall|a: int, b: int|
        0 <= a < b < order.len() ==> ranks_before(
            fitnesses,
            (#[trigger] order[a]) as int,
            (#[trigger] order[b]) as int,
        )
}

/// The first of a ranking is a sample of the best fitness.
pub proof fn lemma_ranking_puts_best_first(fitnesses: Seq<i64>, order: Seq<usize>)
    requires
        is_ranking(fitnesses, order),
        fitnesses.len() > 0,
    ensures
        fitnesses[order[0] as int] == best_of(fitnesses),
{
    assert forall|i: int| 0 <= i < fitnesses.len() implies #[trigger] fitnesses[i]
        <= fitnesses[order[0] as int] by {
        assert(is_ranked(order, order.len() as int, i));
        let a = choose|a: int| 0 <= a < order.len() && #[trigger] order[a] == i;
        if a > 0 {
            assert(ranks_before(fitnesses, order[0] as int, order[a] as int));
        }
    }
    lemma_best_of(fitnesses, order[0] as int);
}

/// Ranks the samples by fitness, the fittest first; samples of equal
/// fitness keep the order they were sampled in.
pub fn rank_by_fitness(fitnesses: &Vec<i64>) -> (order: Vec<usize>)
    ensures
        is_ranking(fitnesses@, order@),
        order@.len() > 0 ==> fitnesses@[order@[0] as int] == best_of(fitnesses@),
{
    let mut order: Vec<usize> = Vec::new();
    let mut k: usize = 0;
    while k < fitnesses.len()
        invariant
            k <= fitnesses@.len(),
            order@.len() == k,
            forall|a: int| 0 <= a < k ==> (#[trigger] order@[a]) < k,
            forall|a: int, b: int|
                0 <= a < b < k ==> ranks_before(
                    fitnesses@,
                    (#[trigger] order@[a]) as int,
                    (#[trigger] order@[b]) as int,
                ),
            forall|i: int| 0 <= i < k ==> #[trigger] is_ranked(order@, k as int, i),
        decreases fitnesses@.len() - k,
    {
        let mut place: usize = 0;
        while place < k && fitnesses[order[place]] >= fitnesses[k]
            invariant
                place <= k < fitnesses@.len(),
                order@.len() == k,
                forall|a: int| 0 <= a < k ==> (#[trigger] order@[a]) < k,
                forall|a: int|
                    0 <= a < place ==> fitnesses@[(#[trigger] order@[a]) as int] >= fitnesses@[k as int],
            decreases k - place,
        {
            place += 1;
        }
        let ghost earlier = order@;
        order.insert(place, k);
        proof {
            assert forall|a: int, b: int| 0 <= a < b < k + 1 implies ranks_before(
                fitnesses@,
                (#[trigger] order@[a]) as int,
                (#[trigger] order@[b]) as int,
            ) by {
                if b < place {
                    assert(order@[a] == earlier[a] && order@[b] == earlier[b]);
                } else if b == place {
                    assert(order@[a] == earlier[a]);
                } else if a < place {
                    assert(order@[a] == earlier[a] && order@[b] == earlier[b - 1]);
                } else if a == place {
                    assert(order@[b] == earlier[b - 1]);
                    if place < b - 1 {
                        assert(ranks_before(
                            fitnesses@,
                            earlier[place as int] as int,
                            earlier[b - 1] as int,
                        ));
                    }
                } else {
                    assert(order@[a] == earlier[a - 1] && order@[b] == earlier[b - 1]);
                }
            }
            assert forall|a: int| 0 <= a < k + 1 implies (#[trigger] order@[a]) < k + 1 by {
                if a < place {
                    assert(order@[a] == earlier[a]);
                } else if a > place {
                    assert(order@[a] == earlier[a - 1]);
                }
            }
            assert forall|i: int| 0 <= i < k + 1 implies #[trigger] is_ranked(
                order@,
                k + 1,
                i,
            ) by {
                if i == k {
                    assert(order@[place as int] == i);
                } else {
                    assert(is_ranked(earlier, k as int, i));
                    let a = choose|a: int| 0 <= a < k && #[trigger] earlier[a] == i;
                    if a < place {
                        assert(order@[a] == i);
                    } else {
                        assert(order@[a + 1] == i);
                    }
                }
            }
        }
        k += 1;
    }
    proof {
        if order@.len() > 0 {
            lemma_ranking_puts_best_first(fitnesses@, order@);
        }
    }
    order
}

/// The note that the `e`-th best sample has in dimension `dim`, by rank.
pub open spec fn elite_notes(samples: Seq<[i64; 16]>, order: Seq<usize>, dim: int) -> spec_fn(
    int,
) -> int {
    |e: int| samples[order[e] as int][dim] as int
}

/// The mean of dimension `dim` over the `n_elite` best samples, rounded
/// towards zero.
pub open spec fn elite_mean(
    samples: Seq<[i64; 16]>,
    order: Seq<usize>,
    n_elite: int,
    dim: int,
) -> int {
    quotient_towards_zero(sum_range(0, n_elite, elite_notes(samples, order, dim)), n_elite)
}

/// The squared distance of each elite note from `mean`, by rank.
pub open spec fn squared_gaps(
    samples: Seq<[i64; 16]>,
    order: Seq<usize>,
    dim: int,
    mean: int,
) -> spec_fn(int) -> int {
    |e: int|
        (samples[order[e] as int][dim] - mean) * (samples[order[e] as int][dim] - mean)
}

/// `value`, or `limit` if `value` is above it.
pub open spec fn at_most(value: int, limit: int) -> int {
    if value > limit {
        limit
    } else {
        value
    }
}

/// The standard deviation of dimension `dim` over the `n_elite` best
/// samples: the root of the mean squared distance from their mean, rounded
/// down and never below `floor`. Sums and roots beyond the range of the
/// machine's integers are taken at the end of that range.
pub open spec fn elite_std_dev(
    samples: Seq<[i64; 16]>,
    order: Seq<usize>,
    n_elite: int,
    dim: int,
    floor: i64,
) -> int {
    let mean = elite_mean(samples, order, n_elite, dim);
    let total = at_most(
        sum_range(0, n_elite, squared_gaps(samples, order, dim, mean)),
        u128::MAX as int,
    );
    let deviation = at_most(floor_sqrt(total / n_elite), i64::MAX as int);
    if deviation < floor {
        floor as int
    } else {
        deviation
    }
}

/// With an elite of one the mean is the note of the fittest sample, and
/// the standard deviation is the floor, or 0 under a floor below that.
pub proof fn lemma_elite_of_one(
    samples: Seq<[i64; 16]>,
    order: Seq<usize>,
    dim: int,
    floor: i64,
)
    ensures
        elite_mean(samples, order, 1, dim) == samples[order[0] as int][dim],
        elite_std_dev(samples, order, 1, dim, floor) == if floor > 0 {
            floor as int
        } else {
            0
        },
{
    let note = samples[order[0] as int][dim] as int;
    let notes = elite_notes(samples, order, dim);
    reveal_with_fuel(sum_range, 2);
    assert(sum_range(0, 1, notes) == notes(0));
    assert(elite_mean(samples, order, 1, dim) == note);
    let gaps = squared_gaps(samples, order, dim, note);
    assert(sum_range(0, 1, gaps) == gaps(0));
    assert(gaps(0) == 0);
    assert(is_floor_sqrt(0, 0));
    lemma_floor_sqrt(0, 0);
}

/// `samples` are what the deviates stand for under the distributions of
/// `before`, as many as it draws in an iteration, and `fitnesses` holds a
/// fitness of each under the trial.
pub open spec fn is_sampled(
    before: CrossEntropySearch,
    deviates: Seq<[i64; 16]>,
    trial: Trial,
    samples: Seq<[i64; 16]>,
    fitnesses: Seq<i64>,
) -> bool {
    &&& deviates.len() == before.n_samples
    &&& samples.len() == before.n_samples
    &&& fitnesses.len() == before.n_samples
    &&& forall|k: int|
        0 <= k < before.n_samples ==> before.is_sample_of(deviates[k], #[trigger] samples[k])
            && is_fitness_of(samples[k], trial, fitnesses[k])
}

/// `after` and `progress_after` are what taking in the samples with their
/// fitness values makes of `before` and `progress`. `order` ranks the
/// samples. The distributions are refitted to the elite. The fittest
/// sample becomes the best weights if its fitness exceeds the best so far.
/// The tracker has observed the best fitness of the round. `stats` are the
/// statistics of the fitness values.
pub open spec fn is_absorbed(
    before: CrossEntropySearch,
    progress: CeProgress,
    samples: Seq<[i64; 16]>,
    fitnesses: Seq<i64>,
    order: Seq<usize>,
    floor: i64,
    patience: usize,
    iteration: int,
    after: CrossEntropySearch,
    progress_after: CeProgress,
    stats: IterationStats,
) -> bool {
    &&& is_ranking(fitnesses, order)
    &&& after.refitted_from(before, samples, order, floor)
    &&& progress_after.best_weights == if best_of(fitnesses) > progress.tracker.best_fitness {
        samples[order[0] as int]
    } else {
        progress.best_weights
    }
    &&& progress_after.tracker == progress.tracker.after(stats.best, patience)
    &&& is_stats_of(stats, fitnesses, iteration)
    &&& stats.worst <= stats.mean <= stats.best
}

/// `after` and `progress_after` are what taking in the samples with their
/// fitness values, ranked in some way, makes of `before` and `progress`.
pub open spec fn has_absorbed(
    before: CrossEntropySearch,
    progress: CeProgress,
    samples: Seq<[i64; 16]>,
    fitnesses: Seq<i64>,
    floor: i64,
    patience: usize,
    iteration: int,
    after: CrossEntropySearch,
    progress_after: CeProgress,
    stats: IterationStats,
) -> bool {
    exists|order: Seq<usize>| #[trigger]
        is_absorbed(
            before,
            progress,
            samples,
            fitnesses,
            order,
            floor,
            patience,
            iteration,
            after,
            progress_after,
            stats,
        )
}

/// `after` and `progress_after` are what one iteration on the deviates
/// makes of `before` and `progress`: some samples with some fitness of
/// each are drawn and taken in.
pub open spec fn is_round(
    before: CrossEntropySearch,
    progress: CeProgress,
    deviates: Seq<[i64; 16]>,
    trial: Trial,
    floor: i64,
    patience: usize,
    iteration: int,
    after: CrossEntropySearch,
    progress_after: CeProgress,
    stats: IterationStats,
) -> bool {
    exists|samples: Seq<[i64; 16]>, fitnesses: Seq<i64>, order: Seq<usize>|
        {
            &&& is_sampled(before, deviates, trial, samples, fitnesses)
            &&& #[trigger] is_absorbed(
                before,
                progress,
                samples,
                fitnesses,
                order,
                floor,
                patience,
                iteration,
                after,
                progress_after,
                stats,
            )
        }
}

/// The run has seen nothing yet: the best weights are zero and the tracker
/// is new.
pub open spec fn is_first_progress(progress: CeProgress) -> bool {
    &&& forall|d: int| 0 <= d < 16 ==> progress.best_weights[d] == 0
    &&& progress.tracker == (EarlyStop { best_fitness: i64::MIN, no_improve: 0 })
}

/// `states` and `progresses` are the distributions and the progress of a
/// run of `count` iterations, from the start on: each is what an iteration
/// makes of the one before it, with its statistics in the log.
pub open spec fn are_rounds(
    states: Seq<CrossEntropySearch>,
    progresses: Seq<CeProgress>,
    deviates: Seq<Vec<[i64; 16]>>,
    trial: Trial,
    floor: i64,
    patience: usize,
    start: Seq<IterationStats>,
    log: Seq<IterationStats>,
    count: int,
) -> bool {
    &&& states.len() == count + 1
    &&& progresses.len() == count + 1
    &&& log.len() == start.len() + count
    &&& count <= deviates.len()
    &&& is_first_progress(progresses[0])
    &&& forall|t: int|
        0 <= t < count ==> #[trigger] is_round(
            states[t],
            progresses[t],
            deviates[t]@,
            trial,
            floor,
            patience,
            t,
            states[t + 1],
            progresses[t + 1],
            log[start.len() + t],
        )
}

/// A run of `count` iterations from the distributions `first` ends with
/// the distributions `last`, the progress `last_progress` and the log
/// `log`.
pub open spec fn has_rounds(
    first: CrossEntropySearch,
    deviates: Seq<Vec<[i64; 16]>>,
    trial: Trial,
    floor: i64,
    patience: usize,
    start: Seq<IterationStats>,
    log: Seq<IterationStats>,
    count: int,
    last: CrossEntropySearch,
    last_progress: CeProgress,
) -> bool {
    exists|states: Seq<CrossEntropySearch>, progresses: Seq<CeProgress>|
        {
            &&& #[trigger] are_rounds(
                states,
                progresses,
                deviates,
                trial,
                floor,
                patience,
                start,
                log,
                count,
            )
            &&& states[0] == first
            &&& states.last() == last
            &&& progresses.last() == last_progress
        }
}

/// `weights` were sampled in one of the first `upto` rounds, and `fitness`
/// is a fitness of theirs under the trial: they are what some deviates of
/// that round stand for under the distributions it began with.
pub open spec fn was_sampled(
    states: Seq<CrossEntropySearch>,
    deviates: Seq<Vec<[i64; 16]>>,
    trial: Trial,
    upto: int,
    weights: [i64; 16],
    fitness: i64,
) -> bool {
    &&& is_fitness_of(weights, trial, fitness)
    &&& exists|round: int, k: int|
        0 <= round < upto && 0 <= k < deviates[round]@.len() && #[trigger] states[round].is_sample_of(
            deviates[round]@[k],
            weights,
        )
}

/// Nothing was sampled yet that had a fitness above the lowest there is:
/// the best weights are all zero.
pub open spec fn has_no_best(progress: CeProgress) -> bool {
    &&& progress.tracker.best_fitness == i64::MIN
    &&& forall|d: int| 0 <= d < 16 ==> progress.best_weights[d] == 0
}

/// The best weights of a run are one of the vectors that the run has
/// sampled, and the best fitness is a fitness of theirs; unless nothing
/// that was sampled had a fitness above the lowest there is.
pub proof fn lemma_best_weights_were_sampled(
    states: Seq<CrossEntropySearch>,
    progresses: Seq<CeProgress>,
    deviates: Seq<Vec<[i64; 16]>>,
    trial: Trial,
    floor: i64,
    patience: usize,
    start: Seq<IterationStats>,
    log: Seq<IterationStats>,
    count: int,
    upto: int,
)
    requires
        are_rounds(states, progresses, deviates, trial, floor, patience, start, log, count),
        0 <= upto <= count,
    ensures
        has_no_best(progresses[upto]) || was_sampled(
            states,
            deviates,
            trial,
            upto,
            progresses[upto].best_weights,
            progresses[upto].tracker.best_fitness,
        ),
    decreases upto,
{
    if upto > 0 {
        lemma_best_weights_were_sampled(
            states,
            progresses,
            deviates,
            trial,
            floor,
            patience,
            start,
            log,
            count,
            upto - 1,
        );
        let t = upto - 1;
        assert(is_round(
            states[t],
            progresses[t],
            deviates[t]@,
            trial,
            floor,
            patience,
            t,
            states[t + 1],
            progresses[t + 1],
            log[start.len() + t],
        ));
        let (samples, fitnesses, order) = choose|
            samples: Seq<[i64; 16]>,
            fitnesses: Seq<i64>,
            order: Seq<usize>,
        |
            {
                &&& is_sampled(states[t], deviates[t]@, trial, samples, fitnesses)
                &&& #[trigger] is_absorbed(
                    states[t],
                    progresses[t],
                    samples,
                    fitnesses,
                    order,
                    floor,
                    patience,
                    t,
                    states[t + 1],
                    progresses[t + 1],
                    log[start.len() + t],
                )
            };
        if best_of(fitnesses) > progresses[t].tracker.best_fitness {
            assert(fitnesses.len() > 0);
            lemma_ranking_puts_best_first(fitnesses, order);
            let k = order[0] as int;
            assert(states[t].is_sample_of(deviates[t]@[k], samples[k]));
            assert(is_fitness_of(samples[k], trial, fitnesses[k]));
        } else if !has_no_best(progresses[t]) {
            let (round, k) = choose|round: int, k: int|
                0 <= round < t && 0 <= k < deviates[round]@.len()
                    && #[trigger] states[round].is_sample_of(
                    deviates[round]@[k],
                    progresses[t].best_weights,
                );
            assert(states[round].is_sample_of(deviates[round]@[k], progresses[upto].best_weights));
        }
    }
}

/// After every iteration of a run no standard deviation is below the
/// floor.
pub proof fn lemma_rounds_keep_floor(
    states: Seq<CrossEntropySearch>,
    progresses: Seq<CeProgress>,
    deviates: Seq<Vec<[i64; 16]>>,
    trial: Trial,
    floor: i64,
    patience: usize,
    start: Seq<IterationStats>,
    log: Seq<IterationStats>,
    count: int,
    t: int,
)
    requires
        are_rounds(states, progresses, deviates, trial, floor, patience, start, log, count),
        0 < t <= count,
    ensures
        states[t].floored(floor),
{
    assert(is_round(
        states[t - 1],
        progresses[t - 1],
        deviates[t - 1]@,
        trial,
        floor,
        patience,
        t - 1,
        states[t - 1 + 1],
        progresses[t - 1 + 1],
        log[start.len() + (t - 1)],
    ));
}

/// No standard deviation that a refit gives is below the floor.
pub proof fn lemma_std_dev_not_below_floor(
    samples: Seq<[i64; 16]>,
    order: Seq<usize>,
    n_elite: int,
    dim: int,
    floor: i64,
)
    ensures
        elite_std_dev(samples, order, n_elite, dim, floor) >= floor,
{
}

impl CrossEntropySearch {
    /// The parameters are in order: at least one sample is drawn in an
    /// iteration, and the elite is no larger than the sample.
    pub open spec fn wf(&self) -> bool {
        self.n_samples > 0 && self.n_elite <= self.n_samples
    }

    /// The parameters are those of `other`; the distributions may differ.
    pub open spec fn same_parameters(&self, other: CrossEntropySearch) -> bool {
        &&& self.n_samples == other.n_samples
        &&& self.n_elite == other.n_elite
        &&& self.max_iter == other.max_iter
    }

    /// No standard deviation is below `floor`.
    pub open spec fn floored(&self, floor: i64) -> bool {
        forall|d: int| 0 <= d < 16 ==> #[trigger] self.std_devs[d] >= floor
    }

    /// The weight vector that the deviates `z` stand for: in every
    /// dimension the mean plus the standard deviation times the deviate.
    pub open spec fn is_sample_of(&self, z: [i64; 16], sample: [i64; 16]) -> bool {
        forall|d: int|
            0 <= d < 16 ==> #[trigger] sample[d] == plus_product(
                self.means[d],
                self.std_devs[d],
                z[d],
            )
    }

    /// The distributions are those of `before`, refitted to the `n_elite`
    /// best of the samples: every mean is the mean of the elite, and every
    /// standard deviation that of the elite, floored. Without an elite the
    /// means stay and the standard deviations are the floor.
    pub open spec fn refitted_from(
        &self,
        before: CrossEntropySearch,
        samples: Seq<[i64; 16]>,
        order: Seq<usize>,
        floor: i64,
    ) -> bool {
        &&& self.same_parameters(before)
        &&& forall|d: int|
            0 <= d < 16 ==> #[trigger] self.means[d] == if before.n_elite == 0 {
                before.means[d] as int
            } else {
                elite_mean(samples, order, before.n_elite as int, d)
            }
        &&& forall|d: int|
            0 <= d < 16 ==> #[trigger] self.std_devs[d] == if before.n_elite == 0 {
                floor as int
            } else {
                elite_std_dev(samples, order, before.n_elite as int, d, floor)
            }
    }

    /// Creates a new `CrossEntropySearch` with every mean at 0 and every
    /// standard deviation at `initial_std_dev`.
    ///
    /// At least one sample must be drawn in an iteration, and the elite
    /// must not be larger than the sample.
    pub fn new(n_samples: usize, n_elite: usize, max_iter: usize, initial_std_dev: i64) -> (search:
        Self)
        requires
            n_samples > 0,
            n_elite <= n_samples,
        ensures
            search.wf(),
            search.n_samples == n_samples,
            search.n_elite == n_elite,
            search.max_iter == max_iter,
            forall|d: int| 0 <= d < 16 ==> search.means[d] == 0,
            forall|d: int| 0 <= d < 16 ==> search.std_devs[d] == initial_std_dev,
    {
        CrossEntropySearch {
            n_samples,
            n_elite,
            max_iter,
            means: [0i64; 16],
            std_devs: [initial_std_dev; 16],
        }
    }

    /// Turns sixteen standard normal deviates into a weight vector: in
    /// every dimension the mean plus the standard deviation times the
    /// deviate.
    pub fn sample(&self, z: &[i64; 16]) -> (sample: [i64; 16])
        ensures
            self.is_sample_of(*z, sample),
    {
        let mut sample = [0i64; 16];
        let mut d: usize = 0;
        while d < NUM_WEIGHTS
            invariant
                d <= 16,
                forall|i: int|
                    0 <= i < d ==> #[trigger] sample[i] == plus_product(
                        self.means[i],
                        self.std_devs[i],
                        z[i],
                    ),
            decreases 16 - d,
        {
            sample[d] = add_product(self.means[d], self.std_devs[d], z[d]);
            d += 1;
        }
        sample
    }

    /// Refits the distributions to the `n_elite` best of the samples.
    /// Afterwards no standard deviation is below `std_dev_floor`.
    pub fn refit(&mut self, samples: &Vec<[i64; 16]>, order: &Vec<usize>, std_dev_floor: i64)
        requires
            old(self).n_elite <= order@.len(),
            forall|a: int| 0 <= a < order@.len() ==> (#[trigger] order@[a]) < samples@.len(),
        ensures
            final(self).refitted_from(*old(self), samples@, order@, std_dev_floor),
            final(self).floored(std_dev_floor),
    {
        let ghost before = *self;
        let n_elite = self.n_elite;
        let mut d: usize = 0;
        while d < NUM_WEIGHTS
            invariant
                d <= 16,
                n_elite == before.n_elite,
                n_elite <= order@.len(),
                self.same_parameters(before),
                forall|a: int| 0 <= a < order@.len() ==> (#[trigger] order@[a]) < samples@.len(),
                forall|i: int| d <= i < 16 ==> self.means[i] == before.means[i],
                forall|i: int|
                    0 <= i < d ==> #[trigger] self.means[i] == if n_elite == 0 {
                        before.means[i] as int
                    } else {
                        elite_mean(samples@, order@, n_elite as int, i)
                    },
                forall|i: int|
                    0 <= i < d ==> #[trigger] self.std_devs[i] == if n_elite == 0 {
                        std_dev_floor as int
                    } else {
                        elite_std_dev(samples@, order@, n_elite as int, i, std_dev_floor)
                    },
                forall|i: int| 0 <= i < d ==> #[trigger] self.std_devs[i] >= std_dev_floor,
            decreases 16 - d,
        {
            if n_elite == 0 {
                self.std_devs[d] = std_dev_floor;
            } else {
                let mean = elite_mean_of(samples, order, n_elite, d);
                let deviation = elite_deviation_of(samples, order, n_elite, d, mean);
                self.means[d] = mean;
                self.std_devs[d] = if deviation < std_dev_floor {
                    std_dev_floor
                } else {
                    deviation
                };
            }
            d += 1;
        }
    }

    /// Takes in the samples of one iteration with their fitness values:
    /// ranks them, remembers the fittest if it beats the best so far, and
    /// refits the distributions to the elite. Returns the statistics of the
    /// fitness values, numbered `iteration`, and whether the run is to stop.
    pub fn absorb(
        &mut self,
        progress: &mut CeProgress,
        iteration: usize,
        samples: &Vec<[i64; 16]>,
        fitnesses: &Vec<i64>,
        std_dev_floor: i64,
        early_stop_patience: usize,
        early_stop_target: i64,
    ) -> (outcome: (IterationStats, bool))
        requires
            old(self).wf(),
            samples@.len() == old(self).n_samples,
            fitnesses@.len() == old(self).n_samples,
            old(progress).tracker.no_improve < usize::MAX,
        ensures
            final(self).wf(),
            final(self).floored(std_dev_floor),
            has_absorbed(
                *old(self),
                *old(progress),
                samples@,
                fitnesses@,
                std_dev_floor,
                early_stop_patience,
                iteration as int,
                *final(self),
                *final(progress),
                outcome.0,
            ),
            outcome.1 == final(progress).tracker.is_done(early_stop_patience, early_stop_target),
    {
        let order = rank_by_fitness(fitnesses);
        let top = order[0];
        if fitnesses[top] > progress.tracker.best_fitness {
            progress.best_weights = samples[top];
        }
        let done = progress.tracker.observe(fitnesses[top], early_stop_patience, early_stop_target);
        self.refit(samples, &order, std_dev_floor);
        let (best, mean, worst) = fitness_stats(fitnesses);
        let stats = IterationStats { iteration, best, mean, worst };
        proof {
            lemma_mean_within(fitnesses@);
            assert(is_absorbed(
                *old(self),
                *old(progress),
                samples@,
                fitnesses@,
                order@,
                std_dev_floor,
                early_stop_patience,
                iteration as int,
                *self,
                *progress,
                stats,
            ));
            assert(has_absorbed(
                *old(self),
                *old(progress),
                samples@,
                fitnesses@,
                std_dev_floor,
                early_stop_patience,
                iteration as int,
                *self,
                *progress,
                stats,
            ));
        }
        (stats, done)
    }

    /// Runs one iteration on the deviates handed in, one vector of sixteen
    /// for each sample: turns them into weight vectors, measures the fitness
    /// of each in turn, and absorbs the lot.
    pub fn iterate(
        &mut self,
        progress: &mut CeProgress,
        iteration: usize,
        deviates: &Vec<[i64; 16]>,
        sim_length: usize,
        scoring_mode: ScoringMode,
        n_weights: usize,
        averaged: bool,
        averaged_runs: usize,
        std_dev_floor: i64,
        early_stop_patience: usize,
        early_stop_target: i64,
        rng: &mut StdRng,
    ) -> (outcome: (IterationStats, bool))
        requires
            old(self).wf(),
            deviates@.len() == old(self).n_samples,
            sim_length <= MAX_GAME_LENGTH,
            averaged ==> averaged_runs > 0,
            old(progress).tracker.no_improve < usize::MAX,
        ensures
            final(self).wf(),
            final(self).same_parameters(*old(self)),
            final(self).floored(std_dev_floor),
            is_round(
                *old(self),
                *old(progress),
                deviates@,
                Trial { sim_length, scoring_mode, n_weights, averaged, averaged_runs },
                std_dev_floor,
                early_stop_patience,
                iteration as int,
                *final(self),
                *final(progress),
                outcome.0,
            ),
            final(progress).tracker == old(progress).tracker.after(
                outcome.0.best,
                early_stop_patience,
            ),
            outcome.1 == final(progress).tracker.is_done(early_stop_patience, early_stop_target),
    {
        let ghost trial = Trial { sim_length, scoring_mode, n_weights, averaged, averaged_runs };
        let mut samples: Vec<[i64; 16]> = Vec::new();
        let mut fitnesses: Vec<i64> = Vec::new();
        let mut s: usize = 0;
        while s < self.n_samples
            invariant
                *self == *old(self),
                s <= self.n_samples,
                deviates@.len() == self.n_samples,
                samples@.len() == s,
                fitnesses@.len() == s,
                sim_length <= MAX_GAME_LENGTH,
                averaged ==> averaged_runs > 0,
                trial == (Trial { sim_length, scoring_mode, n_weights, averaged, averaged_runs }),
                forall|k: int|
                    0 <= k < s ==> self.is_sample_of(deviates@[k], #[trigger] samples@[k])
                        && is_fitness_of(samples@[k], trial, fitnesses@[k]),
            decreases self.n_samples - s,
        {
            let weights = self.sample(&deviates[s]);
            let fitness = evaluate_weights(
                rng,
                weights,
                sim_length,
                scoring_mode,
                n_weights,
                averaged,
                averaged_runs,
            );
            samples.push(weights);
            fitnesses.push(fitness);
            s += 1;
        }
        let outcome = self.absorb(
            progress,
            iteration,
            &samples,
            &fitnesses,
            std_dev_floor,
            early_stop_patience,
            early_stop_target,
        );
        proof {
            assert(is_sampled(*old(self), deviates@, trial, samples@, fitnesses@));
        }
        outcome
    }

    /// Runs the Cross-Entropy Search optimization loop: iterates until
    /// `max_iter` iterations are done, the best fitness reaches
    /// `early_stop_target`, or, with a patience set, `early_stop_patience`
    /// iterations in a row have brought no improvement. Iteration `t` takes
    /// its deviates from `deviates[t]`, and adds its statistics to `log`.
    ///
    /// Returns the best weights sampled in any iteration, their fitness and
    /// the number of iterations run. After an iteration no standard
    /// deviation is below `std_dev_floor`.
    pub fn optimize_with_rng(
        &mut self,
        sim_length: usize,
        scoring_mode: ScoringMode,
        n_weights: usize,
        averaged: bool,
        averaged_runs: usize,
        std_dev_floor: i64,
        early_stop_patience: usize,
        early_stop_target: i64,
        rng: &mut StdRng,
        deviates: &Vec<Vec<[i64; 16]>>,
        log: &mut Vec<IterationStats>,
    ) -> (result: CeOptimizeResult)
        requires
            old(self).wf(),
            deviates@.len() >= old(self).max_iter,
            forall|t: int|
                0 <= t < old(self).max_iter ==> (#[trigger] deviates@[t])@.len() == old(
                    self,
                ).n_samples,
            sim_length <= MAX_GAME_LENGTH,
            averaged ==> averaged_runs > 0,
        ensures
            final(self).wf(),
            final(self).same_parameters(*old(self)),
            result.iterations <= final(self).max_iter,
            result.iterations > 0 ==> final(self).floored(std_dev_floor),
            result.iterations == 0 ==> *final(self) == *old(self),
            has_rounds(
                *old(self),
                deviates@,
                Trial { sim_length, scoring_mode, n_weights, averaged, averaged_runs },
                std_dev_floor,
                early_stop_patience,
                old(log)@,
                final(log)@,
                result.iterations as int,
                *final(self),
                CeProgress {
                    best_weights: result.weights,
                    tracker: tracker_after(
                        final(log)@,
                        old(log)@.len() as int,
                        final(log)@.len() as int,
                        early_stop_patience,
                    ),
                },
            ),
            is_run_log(
                old(log)@,
                final(log)@,
                result.iterations as int,
                final(self).max_iter as int,
                early_stop_patience,
                early_stop_target,
            ),
            result.best_score == tracker_after(
                final(log)@,
                old(log)@.len() as int,
                final(log)@.len() as int,
                early_stop_patience,
            ).best_fitness,
            forall|k: int|
                old(log)@.len() <= k < final(log)@.len() ==> (#[trigger] final(log)@[k]).best
                    <= result.best_score,
            result.iterations == 0 ==> result.best_score == i64::MIN && forall|d: int|
                0 <= d < 16 ==> result.weights[d] == 0,
    {
        let ghost trial = Trial { sim_length, scoring_mode, n_weights, averaged, averaged_runs };
        let mut progress = CeProgress { best_weights: [0i64; 16], tracker: EarlyStop::new() };
        let mut iterations_used: usize = 0;
        let ghost start = log@;
        let ghost mut states: Seq<CrossEntropySearch> = seq![*self];
        let ghost mut progresses: Seq<CeProgress> = seq![progress];
        let mut iteration: usize = 0;
        while iteration < self.max_iter
            invariant_except_break
                iterations_used == iteration,
                iteration > 0 ==> !progress.tracker.is_done(early_stop_patience, early_stop_target),
            invariant
                self.wf(),
                self.same_parameters(*old(self)),
                deviates@.len() >= self.max_iter,
                forall|t: int|
                    0 <= t < self.max_iter ==> (#[trigger] deviates@[t])@.len() == self.n_samples,
                sim_length <= MAX_GAME_LENGTH,
                averaged ==> averaged_runs > 0,
                trial == (Trial { sim_length, scoring_mode, n_weights, averaged, averaged_runs }),
                iteration <= self.max_iter,
                iterations_used <= self.max_iter,
                progress.tracker.no_improve <= iterations_used,
                iterations_used > 0 ==> self.floored(std_dev_floor),
                iterations_used == 0 ==> *self == *old(self),
                are_rounds(
                    states,
                    progresses,
                    deviates@,
                    trial,
                    std_dev_floor,
                    early_stop_patience,
                    start,
                    log@,
                    iterations_used as int,
                ),
                states[0] == *old(self),
                states.last() == *self,
                progresses.last() == progress,
                extends_log(start, log@, iterations_used as int),
                progress.tracker == tracker_after(
                    log@,
                    start.len() as int,
                    log@.len() as int,
                    early_stop_patience,
                ),
                forall|k: int|
                    start.len() <= k < log@.len() ==> (#[trigger] log@[k]).best
                        <= progress.tracker.best_fitness,
                forall|j: int|
                    start.len() < j < log@.len() ==> !(#[trigger] tracker_after(
                        log@,
                        start.len() as int,
                        j,
                        early_stop_patience,
                    )).is_done(early_stop_patience, early_stop_target),
            ensures
                iterations_used == self.max_iter || (iterations_used > 0
                    && progress.tracker.is_done(early_stop_patience, early_stop_target)),
            decreases self.max_iter - iteration,
        {
            iterations_used = iteration + 1;
            let ghost earlier_log = log@;
            let ghost earlier_states = states;
            let ghost earlier_progresses = progresses;
            let (stats, done) = self.iterate(
                &mut progress,
                iteration,
                &deviates[iteration],
                sim_length,
                scoring_mode,
                n_weights,
                averaged,
                averaged_runs,
                std_dev_floor,
                early_stop_patience,
                early_stop_target,
                rng,
            );
            log.push(stats);
            proof {
                states = states.push(*self);
                progresses = progresses.push(progress);
                lemma_not_done_before(
                    earlier_log,
                    log@,
                    start.len() as int,
                    early_stop_patience,
                    early_stop_target,
                );
                assert forall|k: int| start.len() <= k < log@.len() implies (#[trigger] log@[k]).best
                    <= progress.tracker.best_fitness by {
                    if k < earlier_log.len() {
                        assert(log@[k] == earlier_log[k]);
                    }
                }
                assert(is_round(
                    states[iteration as int],
                    progresses[iteration as int],
                    deviates@[iteration as int]@,
                    trial,
                    std_dev_floor,
                    early_stop_patience,
                    iteration as int,
                    states[iteration + 1],
                    progresses[iteration + 1],
                    log@[start.len() + iteration],
                ));
                assert forall|t: int| 0 <= t < iteration + 1 implies #[trigger] is_round(
                    states[t],
                    progresses[t],
                    deviates@[t]@,
                    trial,
                    std_dev_floor,
                    early_stop_patience,
                    t,
                    states[t + 1],
                    progresses[t + 1],
                    log@[start.len() + t],
                ) by {
                    if t < iteration {
                        assert(states[t] == earlier_states[t]);
                        assert(states[t + 1] == earlier_states[t + 1]);
                        assert(progresses[t] == earlier_progresses[t]);
                        assert(progresses[t + 1] == earlier_progresses[t + 1]);
                        assert(log@[start.len() + t] == earlier_log[start.len() + t]);
                        assert(is_round(
                            earlier_states[t],
                            earlier_progresses[t],
                            deviates@[t]@,
                            trial,
                            std_dev_floor,
                            early_stop_patience,
                            t,
                            earlier_states[t + 1],
                            earlier_progresses[t + 1],
                            earlier_log[start.len() + t],
                        ));
                    }
                }
            }
            if done {
                break ;
            }
            iteration += 1;
        }
        proof {
            assert(has_rounds(
                *old(self),
                deviates@,
                trial,
                std_dev_floor,
                early_stop_patience,
                start,
                log@,
                iterations_used as int,
                *self,
                progress,
            ));
        }
        CeOptimizeResult {
            weights: progress.best_weights,
            best_score: progress.tracker.best_fitness,
            iterations: iterations_used,
        }
    }
}

/// Computes the mean of one dimension over the elite.
fn elite_mean_of(samples: &Vec<[i64; 16]>, order: &Vec<usize>, n_elite: usize, dim: usize) -> (mean:
    i64)
    requires
        0 < n_elite <= order@.len(),
        dim < 16,
        forall|a: int| 0 <= a < order@.len() ==> (#[trigger] order@[a]) < samples@.len(),
    ensures
        mean == elite_mean(samples@, order@, n_elite as int, dim as int),
{
    let mut sum: i128 = 0;
    let mut e: usize = 0;
    while e < n_elite
        invariant
            e <= n_elite <= order@.len(),
            dim < 16,
            forall|a: int| 0 <= a < order@.len() ==> (#[trigger] order@[a]) < samples@.len(),
            -e * 0x8000_0000_0000_0000 <= sum <= e * 0x7fff_ffff_ffff_ffff,
            sum == sum_range(0, e as int, elite_notes(samples@, order@, dim as int)),
        decreases n_elite - e,
    {
        assert(e * 0x8000_0000_0000_0000 <= 0xffff_ffff_ffff_ffff * 0x8000_0000_0000_0000)
            by (nonlinear_arith)
            requires
                0 <= e <= 0xffff_ffff_ffff_ffff,
        ;
        let note = samples[order[e]][dim];
        sum = sum + note as i128;
        e += 1;
    }
    assert(n_elite * 0x8000_0000_0000_0000 <= 0xffff_ffff_ffff_ffff * 0x8000_0000_0000_0000)
        by (nonlinear_arith)
        requires
            0 <= n_elite <= 0xffff_ffff_ffff_ffff,
    ;
    let count = n_elite as i128;
    let mean: i128 = if sum >= 0 {
        sum / count
    } else {
        -((-sum) / count)
    };
    assert(-0x8000_0000_0000_0000 <= mean <= 0x7fff_ffff_ffff_ffff) by (nonlinear_arith)
        requires
            count > 0,
            -count * 0x8000_0000_0000_0000 <= sum <= count * 0x7fff_ffff_ffff_ffff,
            mean == quotient_towards_zero(sum as int, count as int),
    ;
    mean as i64
}

/// Computes the standard deviation of one dimension over the elite, given
/// their mean, before the floor is applied.
fn elite_deviation_of(
    samples: &Vec<[i64; 16]>,
    order: &Vec<usize>,
    n_elite: usize,
    dim: usize,
    mean: i64,
) -> (deviation: i64)
    requires
        0 < n_elite <= order@.len(),
        dim < 16,
        forall|a: int| 0 <= a < order@.len() ==> (#[trigger] order@[a]) < samples@.len(),
    ensures
        deviation == at_most(
            floor_sqrt(
                at_most(
                    sum_range(
                        0,
                        n_elite as int,
                        squared_gaps(samples@, order@, dim as int, mean as int),
                    ),
                    u128::MAX as int,
                ) / (n_elite as int),
            ),
            i64::MAX as int,
        ),
        deviation >= 0,
{
    let mut total: u128 = 0;
    let mut e: usize = 0;
    while e < n_elite
        invariant
            e <= n_elite <= order@.len(),
            dim < 16,
            forall|a: int| 0 <= a < order@.len() ==> (#[trigger] order@[a]) < samples@.len(),
            0 <= sum_range(0, e as int, squared_gaps(samples@, order@, dim as int, mean as int)),
            total == at_most(
                sum_range(0, e as int, squared_gaps(samples@, order@, dim as int, mean as int)),
                u128::MAX as int,
            ),
        decreases n_elite - e,
    {
        let gap: i128 = samples[order[e]][dim] as i128 - mean as i128;
        assert(0 <= gap * gap <= 0xffff_ffff_ffff_ffff * 0xffff_ffff_ffff_ffff) by (nonlinear_arith)
            requires
                -0xffff_ffff_ffff_ffff <= gap <= 0xffff_ffff_ffff_ffff,
        ;
        let magnitude: u128 = if gap >= 0 {
            gap as u128
        } else {
            (-gap) as u128
        };
        assert(magnitude * magnitude == gap * gap) by (nonlinear_arith)
            requires
                magnitude == gap || magnitude == -gap,
        ;
        let square: u128 = magnitude * magnitude;
        total = if total > u128::MAX - square {
            u128::MAX
        } else {
            total + square
        };
        e += 1;
    }
    let root = integer_sqrt(total / (n_elite as u128));
    if root > i64::MAX as u128 {
        i64::MAX
    } else {
        root as i64
    }
}

} // verus!
