//! Harmony Search: a memory of weight vectors from which new ones are
//! improvised, the worst giving way whenever a better one turns up.

use crate::agent::simulator::{ScoringMode, MAX_GAME_LENGTH};
use crate::harmony::fitness::{
    best_index, best_of, evaluate_weights, extends_log, fitness_stats, is_first_worst,
    is_fitness_of, is_last_best, is_run_log, is_stats_of, lemma_best_of, lemma_not_done_before,
    tracker_after, values, worst_index, worst_of, EarlyStop, IterationStats, Trial,
};
use crate::numeric::lemma_max_range;
use crate::random::{random_between, random_index};
use crate::weights::{add_product, plus_product, NUM_WEIGHTS, SCALE};
use rand::rngs::StdRng;
use vstd::prelude::*;

verus! {

/// Configuration for a full optimization run. Rates, bandwidth, bounds and
/// the target are fixed-point numbers in the unit of the weights.
#[derive(Debug, Clone, Copy)]
pub struct OptimizeConfig {
    pub memory_size: usize,
    pub iterations: usize,
    pub accept_rate: i64,
    pub pitch_adj_rate: i64,
    pub bandwidth: i64,
    pub sim_length: usize,
    pub bounds: (i64, i64),
    pub scoring_mode: ScoringMode,
    pub n_weights: usize,
    pub averaged: bool,
    pub averaged_runs: usize,
    pub early_stop_patience: usize,
    pub early_stop_target: i64,
}

impl OptimizeConfig {
    pub const DEFAULT_MEMORY_SIZE: usize = 5;

    pub const DEFAULT_ITERATIONS: usize = 500;

    /// 0.95
    pub const DEFAULT_ACCEPT_RATE: i64 = 950_000;

    /// 0.99
    pub const DEFAULT_PITCH_ADJ_RATE: i64 = 990_000;

    /// 0.1
    pub const DEFAULT_BANDWIDTH: i64 = 100_000;

    pub const DEFAULT_SIM_LENGTH: usize = 1000;

    /// -1 to 1
    pub const DEFAULT_BOUNDS: (i64, i64) = (-1_000_000, 1_000_000);

    pub const DEFAULT_N_WEIGHTS: usize = 16;

    pub const DEFAULT_AVERAGED_RUNS: usize = 20;

    /// A target that no fitness reaches.
    pub const DEFAULT_EARLY_STOP_TARGET: i64 = i64::MAX;

    /// A run can be made of the configuration.
    pub open spec fn valid(&self) -> bool {
        &&& self.memory_size > 0
        &&& 0 <= self.accept_rate <= SCALE
        &&& 0 <= self.pitch_adj_rate <= SCALE
        &&& self.bounds.0 <= self.bounds.1
        &&& self.sim_length <= MAX_GAME_LENGTH
        &&& self.averaged ==> self.averaged_runs > 0
    }

    /// Checks that a run can be made of the configuration: the memory has
    /// room for a harmony, both rates lie between 0 and 1, the bounds are
    /// in order, the games are not longer than `MAX_GAME_LENGTH`, and an
    /// average is taken over at least one game.
    pub fn is_valid(&self) -> (valid: bool)
        ensures
            valid == self.valid(),
    {
        self.memory_size > 0 && 0 <= self.accept_rate && self.accept_rate <= SCALE && 0
            <= self.pitch_adj_rate && self.pitch_adj_rate <= SCALE && self.bounds.0
            <= self.bounds.1 && self.sim_length as u64 <= MAX_GAME_LENGTH && (!self.averaged
            || self.averaged_runs > 0)
    }
}

impl Default for OptimizeConfig {
    fn default() -> (config: Self)
        ensures
            config.memory_size == 5,
            config.iterations == 500,
            config.accept_rate == 950_000,
            config.pitch_adj_rate == 990_000,
            config.bandwidth == 100_000,
            config.sim_length == 1000,
            config.bounds == (-1_000_000i64, 1_000_000i64),
            config.scoring_mode == ScoringMode::Full,
            config.n_weights == 16,
            !config.averaged,
            config.averaged_runs == 20,
            config.early_stop_patience == 0,
            config.early_stop_target == i64::MAX,
            config.valid(),
    {
        OptimizeConfig {
            memory_size: Self::DEFAULT_MEMORY_SIZE,
            iterations: Self::DEFAULT_ITERATIONS,
            accept_rate: Self::DEFAULT_ACCEPT_RATE,
            pitch_adj_rate: Self::DEFAULT_PITCH_ADJ_RATE,
            bandwidth: Self::DEFAULT_BANDWIDTH,
            sim_length: Self::DEFAULT_SIM_LENGTH,
            bounds: Self::DEFAULT_BOUNDS,
            scoring_mode: ScoringMode::Full,
            n_weights: Self::DEFAULT_N_WEIGHTS,
            averaged: false,
            averaged_runs: Self::DEFAULT_AVERAGED_RUNS,
            early_stop_patience: 0,
            early_stop_target: Self::DEFAULT_EARLY_STOP_TARGET,
        }
    }
}

/// The state of a Harmony Search: its parameters and its memory, a list of
/// weight vectors with the fitness of each.
#[derive(Debug)]
pub struct HarmonySearch {
    pub hm_mem_size: usize,
    pub max_iter: usize,
    pub accept_rate: i64,
    pub pitch_adj_rate: i64,
    pub band_width: i64,
    pub harm_mem: Vec<[i64; 16]>,
    pub fitness_mem: Vec<i64>,
}

/// What a run found: the best weights in memory, their fitness, and the
/// number of iterations run.
#[derive(Debug, Clone, Copy)]
pub struct OptimizeResult {
    pub weights: [i64; 16],
    pub best_score: i64,
    pub iterations: usize,
}

/// Every note of the harmony lies within the bounds.
pub open spec fn within(harmony: [i64; 16], bounds: (i64, i64)) -> bool {
    forall|i: int| 0 <= i < 16 ==> bounds.0 <= #[trigger] harmony[i] <= bounds.1
}

/// `value` moved by the share `offset` of the bandwidth, the share being a
/// fixed-point number from -1 to 1; the move is rounded towards zero and the
/// result kept within `i64`.
pub open spec fn adjusted(value: i64, offset: i64, band_width: i64) -> int {
    plus_product(value, offset, band_width)
}

/// Moves `value` by the share `offset` of the bandwidth.
pub fn pitch_adjusted(value: i64, offset: i64, band_width: i64) -> (note: i64)
    ensures
        note == adjusted(value, offset, band_width),
{
    add_product(value, offset, band_width)
}

/// The rates and the bandwidth that a harmony is improvised with.
pub struct Rates {
    pub accept_rate: i64,
    pub pitch_adj_rate: i64,
    pub band_width: i64,
}

/// What a harmony memory holds: harmonies, and the fitness of each.
pub struct Memory {
    pub harmonies: Seq<[i64; 16]>,
    pub fitnesses: Seq<i64>,
}

/// The note that four draws and a note from memory give. If the first draw
/// is below the accept rate, the note is the one from memory, moved by the
/// share `offset` of the bandwidth if the second draw is below the pitch
/// adjustment rate. Else it is the note drawn afresh.
pub open spec fn note_of(
    rates: Rates,
    memory_note: i64,
    accept_draw: i64,
    adjust_draw: i64,
    offset: i64,
    fresh: i64,
) -> int {
    if accept_draw < rates.accept_rate {
        if adjust_draw < rates.pitch_adj_rate {
            adjusted(memory_note, offset, rates.band_width)
        } else {
            memory_note as int
        }
    } else {
        fresh as int
    }
}

/// `note` can be improvised for dimension `dim`: it is what `note_of` makes
/// of the note of some harmony in memory, two draws below 1, a share
/// between -1 and 1, and a fresh note within the bounds.
pub open spec fn is_improvised_note(
    rates: Rates,
    memory: Memory,
    bounds: (i64, i64),
    dim: int,
    note: i64,
) -> bool {
    exists|k: int, accept_draw: i64, adjust_draw: i64, offset: i64, fresh: i64|
        {
            &&& 0 <= k < memory.harmonies.len()
            &&& 0 <= accept_draw < SCALE
            &&& 0 <= adjust_draw < SCALE
            &&& -SCALE <= offset <= SCALE
            &&& bounds.0 <= fresh <= bounds.1
            &&& note == #[trigger] note_of(
                rates,
                memory.harmonies[k][dim],
                accept_draw,
                adjust_draw,
                offset,
                fresh,
            )
        }
}

/// Every note of the harmony can be improvised.
pub open spec fn is_improvised(
    rates: Rates,
    memory: Memory,
    bounds: (i64, i64),
    harmony: [i64; 16],
) -> bool {
    forall|i: int|
        0 <= i < 16 ==> is_improvised_note(rates, memory, bounds, i, #[trigger] harmony[i])
}

/// `note` is the note that a harmony in memory has in dimension `dim`.
pub open spec fn is_memory_note(memory: Memory, dim: int, note: i64) -> bool {
    exists|k: int| 0 <= k < memory.harmonies.len() && note == (#[trigger] memory.harmonies[k])[dim]
}

/// `note` is the note that a harmony in memory has in dimension `dim`,
/// moved by some share of the bandwidth between -1 and 1.
pub open spec fn is_adjusted_note(memory: Memory, band_width: i64, dim: int, note: i64) -> bool {
    exists|k: int, offset: i64|
        0 <= k < memory.harmonies.len() && -SCALE <= offset <= SCALE && note == #[trigger] adjusted(
            memory.harmonies[k][dim],
            offset,
            band_width,
        )
}

/// What the rates at their ends mean for a note: with an accept rate of 1
/// it comes from memory, moved or not; with an accept rate of 0 it lies
/// within the bounds; with a pitch adjustment rate of 0 it is not moved.
pub open spec fn keeps_rates(
    rates: Rates,
    memory: Memory,
    bounds: (i64, i64),
    dim: int,
    note: i64,
) -> bool {
    &&& rates.accept_rate == SCALE ==> is_memory_note(memory, dim, note) || is_adjusted_note(
        memory,
        rates.band_width,
        dim,
        note,
    )
    &&& rates.accept_rate == 0 ==> bounds.0 <= note <= bounds.1
    &&& rates.pitch_adj_rate == 0 ==> is_memory_note(memory, dim, note) || bounds.0 <= note
        <= bounds.1
}

/// The memory is a first one: it holds `size` harmonies within the bounds,
/// each with a fitness of its own under the trial.
pub open spec fn is_first_memory(
    memory: Memory,
    size: usize,
    bounds: (i64, i64),
    trial: Trial,
) -> bool {
    &&& memory.harmonies.len() == size
    &&& memory.fitnesses.len() == size
    &&& forall|k: int|
        0 <= k < size ==> within(#[trigger] memory.harmonies[k], bounds) && is_fitness_of(
            memory.harmonies[k],
            trial,
            memory.fitnesses[k],
        )
}

/// Every fitness in memory is a fitness of its harmony under the trial.
pub open spec fn holds_fitnesses(memory: Memory, trial: Trial) -> bool {
    &&& memory.harmonies.len() == memory.fitnesses.len()
    &&& forall|k: int|
        0 <= k < memory.harmonies.len() ==> is_fitness_of(
            #[trigger] memory.harmonies[k],
            trial,
            memory.fitnesses[k],
        )
}

/// Offering a harmony with a fitness of its own to a memory in which every
/// fitness is that of its harmony leaves such a memory.
pub proof fn lemma_considered_holds_fitnesses(
    before: Memory,
    harmony: [i64; 16],
    fitness: i64,
    after: Memory,
    trial: Trial,
)
    requires
        holds_fitnesses(before, trial),
        is_fitness_of(harmony, trial, fitness),
        is_considered(before, harmony, fitness, after),
    ensures
        holds_fitnesses(after, trial),
{
    let worst = choose|worst: int|
        {
            &&& #[trigger] is_first_worst(before.fitnesses, worst)
            &&& after == if fitness > before.fitnesses[worst] {
                Memory {
                    harmonies: before.harmonies.update(worst, harmony),
                    fitnesses: before.fitnesses.update(worst, fitness),
                }
            } else {
                before
            }
        };
    assert forall|k: int| 0 <= k < after.harmonies.len() implies is_fitness_of(
        #[trigger] after.harmonies[k],
        trial,
        after.fitnesses[k],
    ) by {
        if fitness > before.fitnesses[worst] && k != worst {
            assert(after.harmonies[k] == before.harmonies[k]);
        }
    }
}

/// `after` is what offering the harmony makes of the memory `before`: if
/// its fitness exceeds the worst in memory, it stands where the first of
/// the worst stood; else nothing has changed.
pub open spec fn is_considered(
    before: Memory,
    harmony: [i64; 16],
    fitness: i64,
    after: Memory,
) -> bool {
    exists|worst: int|
        {
            &&& #[trigger] is_first_worst(before.fitnesses, worst)
            &&& after == if fitness > before.fitnesses[worst] {
                Memory {
                    harmonies: before.harmonies.update(worst, harmony),
                    fitnesses: before.fitnesses.update(worst, fitness),
                }
            } else {
                before
            }
        }
}

/// `after` is what one iteration makes of the memory `before`: some
/// harmony is improvised from it, its fitness under the trial is
/// `candidate`, and it is offered to the memory. `stats` are the statistics
/// of the memory after that.
pub open spec fn is_step(
    rates: Rates,
    before: Memory,
    bounds: (i64, i64),
    trial: Trial,
    after: Memory,
    stats: IterationStats,
    iteration: int,
    candidate: i64,
) -> bool {
    &&& exists|harmony: [i64; 16]|
        {
            &&& is_improvised(rates, before, bounds, harmony)
            &&& keeps_all_rates(rates, before, bounds, harmony)
            &&& is_fitness_of(harmony, trial, candidate)
            &&& #[trigger] is_considered(before, harmony, candidate, after)
        }
    &&& is_stats_of(stats, after.fitnesses, iteration)
}

/// Every note of the harmony is as the rates at their ends demand.
pub open spec fn keeps_all_rates(
    rates: Rates,
    memory: Memory,
    bounds: (i64, i64),
    harmony: [i64; 16],
) -> bool {
    forall|i: int| 0 <= i < 16 ==> keeps_rates(rates, memory, bounds, i, #[trigger] harmony[i])
}

/// `after` is what one iteration with some candidate makes of `before`.
pub open spec fn has_step(
    rates: Rates,
    before: Memory,
    bounds: (i64, i64),
    trial: Trial,
    after: Memory,
    stats: IterationStats,
    iteration: int,
) -> bool {
    exists|candidate: i64| #[trigger]
        is_step(rates, before, bounds, trial, after, stats, iteration, candidate)
}

/// `memories` are the memories of a run of `count` iterations, from the
/// first one on: each is what an iteration makes of the one before it, its
/// best fitness is no lower, and its statistics are in the log.
pub open spec fn is_run(
    rates: Rates,
    size: usize,
    memories: Seq<Memory>,
    bounds: (i64, i64),
    trial: Trial,
    start: Seq<IterationStats>,
    log: Seq<IterationStats>,
    count: int,
) -> bool {
    &&& memories.len() == count + 1
    &&& log.len() == start.len() + count
    &&& is_first_memory(memories[0], size, bounds, trial)
    &&& forall|t: int|
        0 <= t < count ==> #[trigger] has_step(
            rates,
            memories[t],
            bounds,
            trial,
            memories[t + 1],
            log[start.len() + t],
            t,
        )
    &&& forall|t: int|
        0 <= t < count ==> best_of(memories[t].fitnesses) <= best_of(
            (#[trigger] memories[t + 1]).fitnesses,
        )
}

/// A run of `count` iterations from some first memory ends with the memory
/// `last` and with the log `log`.
pub open spec fn has_run(
    rates: Rates,
    size: usize,
    bounds: (i64, i64),
    trial: Trial,
    start: Seq<IterationStats>,
    log: Seq<IterationStats>,
    count: int,
    last: Memory,
) -> bool {
    exists|memories: Seq<Memory>| #[trigger]
        is_run(rates, size, memories, bounds, trial, start, log, count) && memories.last() == last
}

/// What offering the harmony makes of a memory of one: the harmony alone
/// with its fitness, if that exceeds the fitness in memory; else the memory
/// as it was.
pub open spec fn climbed(before: Memory, harmony: [i64; 16], fitness: i64) -> Memory {
    if fitness > before.fitnesses[0] {
        Memory { harmonies: seq![harmony], fitnesses: seq![fitness] }
    } else {
        before
    }
}

/// With one harmony in memory the search climbs greedily: an offered
/// harmony takes the place of the one in memory if its fitness is strictly
/// higher, and never otherwise.
pub proof fn lemma_memory_of_one_climbs(
    before: Memory,
    harmony: [i64; 16],
    fitness: i64,
    after: Memory,
)
    requires
        before.harmonies.len() == 1,
        before.fitnesses.len() == 1,
        is_considered(before, harmony, fitness, after),
    ensures
        after == climbed(before, harmony, fitness),
        after.harmonies.len() == 1,
        after.fitnesses.len() == 1,
{
    let worst = choose|worst: int|
        {
            &&& #[trigger] is_first_worst(before.fitnesses, worst)
            &&& after == if fitness > before.fitnesses[worst] {
                Memory {
                    harmonies: before.harmonies.update(worst, harmony),
                    fitnesses: before.fitnesses.update(worst, fitness),
                }
            } else {
                before
            }
        };
    assert(worst == 0);
    assert(before.harmonies.update(0, harmony) =~= seq![harmony]);
    assert(before.fitnesses.update(0, fitness) =~= seq![fitness]);
}

/// `after` is what one iteration makes of the memory of one `before`: some
/// harmony is improvised from it, and stands alone in memory after that
/// exactly if its fitness under the trial exceeds the one in memory.
pub open spec fn is_climb(
    rates: Rates,
    before: Memory,
    bounds: (i64, i64),
    trial: Trial,
    after: Memory,
) -> bool {
    exists|harmony: [i64; 16], candidate: i64|
        {
            &&& is_improvised(rates, before, bounds, harmony)
            &&& is_fitness_of(harmony, trial, candidate)
            &&& after == #[trigger] climbed(before, harmony, candidate)
        }
}

/// In a run with a memory of one, every iteration is a greedy step: the
/// memory keeps its one harmony unless the improvised one is strictly
/// fitter, which then takes its place.
pub proof fn lemma_run_of_one_climbs(
    rates: Rates,
    memories: Seq<Memory>,
    bounds: (i64, i64),
    trial: Trial,
    start: Seq<IterationStats>,
    log: Seq<IterationStats>,
    count: int,
    t: int,
)
    requires
        is_run(rates, 1, memories, bounds, trial, start, log, count),
        0 <= t < count,
    ensures
        memories[t].harmonies.len() == 1,
        memories[t].fitnesses.len() == 1,
        memories[t + 1].harmonies.len() == 1,
        memories[t + 1].fitnesses.len() == 1,
        is_climb(rates, memories[t], bounds, trial, memories[t + 1]),
    decreases t,
{
    if t > 0 {
        lemma_run_of_one_climbs(rates, memories, bounds, trial, start, log, count, t - 1);
    }
    let before = memories[t];
    let after = memories[t + 1];
    let stats = log[start.len() + t];
    assert(has_step(rates, before, bounds, trial, after, stats, t));
    let candidate = choose|candidate: i64| #[trigger]
        is_step(rates, before, bounds, trial, after, stats, t, candidate);
    let harmony = choose|harmony: [i64; 16]|
        {
            &&& is_improvised(rates, before, bounds, harmony)
            &&& keeps_all_rates(rates, before, bounds, harmony)
            &&& is_fitness_of(harmony, trial, candidate)
            &&& #[trigger] is_considered(before, harmony, candidate, after)
        };
    lemma_memory_of_one_climbs(before, harmony, candidate, after);
    assert(after == climbed(before, harmony, candidate));
}

impl HarmonySearch {
    /// The parameters are in order: the memory has room for at least one
    /// harmony, and both rates are between 0 and 1.
    pub open spec fn wf(&self) -> bool {
        &&& self.hm_mem_size > 0
        &&& 0 <= self.accept_rate <= SCALE
        &&& 0 <= self.pitch_adj_rate <= SCALE
    }

    /// The memory is full: it holds `hm_mem_size` harmonies and as many
    /// fitness values.
    pub open spec fn populated(&self) -> bool {
        &&& self.harm_mem@.len() == self.hm_mem_size
        &&& self.fitness_mem@.len() == self.hm_mem_size
    }

    /// The best fitness in memory.
    pub open spec fn best_fitness(&self) -> int {
        best_of(self.fitness_mem@)
    }

    /// The rates and the bandwidth of the search.
    pub open spec fn rates(&self) -> Rates {
        Rates {
            accept_rate: self.accept_rate,
            pitch_adj_rate: self.pitch_adj_rate,
            band_width: self.band_width,
        }
    }

    /// What the memory holds.
    pub open spec fn memory(&self) -> Memory {
        Memory { harmonies: self.harm_mem@, fitnesses: self.fitness_mem@ }
    }

    /// The parameters are those of `other`; the memories may differ.
    pub open spec fn same_parameters(&self, other: HarmonySearch) -> bool {
        &&& self.hm_mem_size == other.hm_mem_size
        &&& self.max_iter == other.max_iter
        &&& self.accept_rate == other.accept_rate
        &&& self.pitch_adj_rate == other.pitch_adj_rate
        &&& self.band_width == other.band_width
    }

    /// Creates a new `HarmonySearch` with an empty memory.
    ///
    /// The memory size must not be zero, and the accept rate and the pitch
    /// adjustment rate must lie between 0 and 1, that is 0 and `SCALE`.
    pub fn new(
        hm_mem_size: usize,
        max_iter: usize,
        accept_rate: i64,
        pitch_adj_rate: i64,
        band_width: i64,
    ) -> (search: Self)
        requires
            hm_mem_size > 0,
            0 <= accept_rate <= SCALE,
            0 <= pitch_adj_rate <= SCALE,
        ensures
            search.wf(),
            search.hm_mem_size == hm_mem_size,
            search.max_iter == max_iter,
            search.accept_rate == accept_rate,
            search.pitch_adj_rate == pitch_adj_rate,
            search.band_width == band_width,
            search.harm_mem@.len() == 0,
            search.fitness_mem@.len() == 0,
    {
        HarmonySearch {
            hm_mem_size,
            max_iter,
            accept_rate,
            pitch_adj_rate,
            band_width,
            harm_mem: Vec::new(),
            fitness_mem: Vec::new(),
        }
    }

    /// Draws a harmony with every note uniformly within the bounds.
    pub fn random_harmony(bounds: (i64, i64), rng: &mut StdRng) -> (harmony: [i64; 16])
        requires
            bounds.0 <= bounds.1,
        ensures
            within(harmony, bounds),
    {
        let mut harmony = [0i64; 16];
        let mut i: usize = 0;
        while i < NUM_WEIGHTS
            invariant
                i <= 16,
                bounds.0 <= bounds.1,
                forall|j: int| 0 <= j < i ==> bounds.0 <= #[trigger] harmony[j] <= bounds.1,
            decreases 16 - i,
        {
            harmony[i] = random_between(rng, bounds.0, bounds.1);
            i += 1;
        }
        harmony
    }

    /// Fills the memory with `hm_mem_size` random harmonies, each with its
    /// fitness, discarding what it held.
    pub fn initialize(
        &mut self,
        sim_length: usize,
        bounds: (i64, i64),
        scoring_mode: ScoringMode,
        n_weights: usize,
        averaged: bool,
        averaged_runs: usize,
        rng: &mut StdRng,
    )
        requires
            old(self).wf(),
            bounds.0 <= bounds.1,
            sim_length <= MAX_GAME_LENGTH,
            averaged ==> averaged_runs > 0,
        ensures
            final(self).wf(),
            final(self).populated(),
            final(self).same_parameters(*old(self)),
            is_first_memory(
                final(self).memory(),
                final(self).hm_mem_size,
                bounds,
                Trial { sim_length, scoring_mode, n_weights, averaged, averaged_runs },
            ),
    {
        let ghost trial = Trial { sim_length, scoring_mode, n_weights, averaged, averaged_runs };
        self.harm_mem.clear();
        self.fitness_mem.clear();
        let mut count: usize = 0;
        while count < self.hm_mem_size
            invariant
                self.wf(),
                self.same_parameters(*old(self)),
                count <= self.hm_mem_size,
                self.harm_mem@.len() == count,
                self.fitness_mem@.len() == count,
                bounds.0 <= bounds.1,
                sim_length <= MAX_GAME_LENGTH,
                averaged ==> averaged_runs > 0,
                trial == (Trial { sim_length, scoring_mode, n_weights, averaged, averaged_runs }),
                forall|k: int|
                    0 <= k < count ==> within(#[trigger] self.harm_mem@[k], bounds) && is_fitness_of(
                        self.harm_mem@[k],
                        trial,
                        self.fitness_mem@[k],
                    ),
            decreases self.hm_mem_size - count,
        {
            let harmony = Self::random_harmony(bounds, rng);
            self.harm_mem.push(harmony);
            let fitness = evaluate_weights(
                rng,
                harmony,
                sim_length,
                scoring_mode,
                n_weights,
                averaged,
                averaged_runs,
            );
            self.fitness_mem.push(fitness);
            count += 1;
        }
    }

    /// Makes a note of four draws and a note from memory: see `note_of`.
    pub fn compose_note(
        &self,
        memory_note: i64,
        accept_draw: i64,
        adjust_draw: i64,
        offset: i64,
        fresh: i64,
    ) -> (note: i64)
        ensures
            note == note_of(self.rates(), memory_note, accept_draw, adjust_draw, offset, fresh),
    {
        if accept_draw < self.accept_rate {
            if adjust_draw < self.pitch_adj_rate {
                pitch_adjusted(memory_note, offset, self.band_width)
            } else {
                memory_note
            }
        } else {
            fresh
        }
    }

    /// Improvises a new harmony, note by note. With probability
    /// `accept_rate` a note is taken from a harmony in memory drawn at
    /// random, and then with probability `pitch_adj_rate` moved by a random
    /// share of the bandwidth; otherwise it is drawn within the bounds.
    /// What is not needed for a note is not drawn.
    pub fn improvise(&self, bounds: (i64, i64), rng: &mut StdRng) -> (harmony: [i64; 16])
        requires
            self.wf(),
            self.populated(),
            bounds.0 <= bounds.1,
        ensures
            is_improvised(self.rates(), self.memory(), bounds, harmony),
            keeps_all_rates(self.rates(), self.memory(), bounds, harmony),
    {
        let mut new_harmony = [0i64; 16];
        let mut i: usize = 0;
        while i < NUM_WEIGHTS
            invariant
                i <= 16,
                self.wf(),
                self.populated(),
                bounds.0 <= bounds.1,
                forall|j: int|
                    0 <= j < i ==> is_improvised_note(
                        self.rates(),
                        self.memory(),
                        bounds,
                        j,
                        #[trigger] new_harmony[j],
                    ),
                forall|j: int|
                    0 <= j < i ==> keeps_rates(
                        self.rates(),
                        self.memory(),
                        bounds,
                        j,
                        #[trigger] new_harmony[j],
                    ),
            decreases 16 - i,
        {
            let accept_draw = random_between(rng, 0, SCALE - 1);
            let taken = accept_draw < self.accept_rate;
            let index = if taken {
                random_index(rng, self.hm_mem_size)
            } else {
                0
            };
            let adjust_draw = if taken {
                random_between(rng, 0, SCALE - 1)
            } else {
                0
            };
            let offset = if taken && adjust_draw < self.pitch_adj_rate {
                random_between(rng, -SCALE, SCALE)
            } else {
                0
            };
            let fresh = if taken {
                bounds.0
            } else {
                random_between(rng, bounds.0, bounds.1)
            };
            let memory_note = self.harm_mem[index][i];
            let note = self.compose_note(memory_note, accept_draw, adjust_draw, offset, fresh);
            proof {
                let memory = self.memory();
                assert(memory.harmonies[index as int][i as int] == memory_note);
                assert(note == note_of(
                    self.rates(),
                    memory.harmonies[index as int][i as int],
                    accept_draw,
                    adjust_draw,
                    offset,
                    fresh,
                ));
                if taken && adjust_draw < self.pitch_adj_rate {
                    assert(note == adjusted(
                        memory.harmonies[index as int][i as int],
                        offset,
                        self.band_width,
                    ));
                    assert(is_adjusted_note(memory, self.band_width, i as int, note));
                } else if taken {
                    assert(note == memory.harmonies[index as int][i as int]);
                    assert(is_memory_note(memory, i as int, note));
                }
            }
            new_harmony[i] = note;
            i += 1;
        }
        new_harmony
    }

    /// Offers a harmony to the memory. If its fitness exceeds the worst in
    /// memory, it takes the place of the worst one, the first of them where
    /// several are as bad, and the call returns `true`; else the memory
    /// stays as it is. The best fitness in memory never falls.
    pub fn consider(&mut self, harmony: [i64; 16], fitness: i64) -> (replaced: bool)
        requires
            old(self).wf(),
            old(self).populated(),
        ensures
            final(self).wf(),
            final(self).populated(),
            final(self).same_parameters(*old(self)),
            is_considered(old(self).memory(), harmony, fitness, final(self).memory()),
            replaced == (fitness > worst_of(old(self).fitness_mem@)),
            !replaced ==> final(self).memory() == old(self).memory(),
            final(self).best_fitness() == if fitness > old(self).best_fitness() {
                fitness as int
            } else {
                old(self).best_fitness()
            },
    {
        let worst_idx = worst_index(&self.fitness_mem);
        let ghost before = self.fitness_mem@;
        if fitness > self.fitness_mem[worst_idx] {
            self.harm_mem[worst_idx] = harmony;
            self.fitness_mem[worst_idx] = fitness;
            proof {
                lemma_best_never_falls(before, worst_idx as int, fitness);
                assert(is_first_worst(old(self).memory().fitnesses, worst_idx as int));
            }
            true
        } else {
            proof {
                assert(is_first_worst(old(self).memory().fitnesses, worst_idx as int));
            }
            false
        }
    }

    /// Returns the best harmony in memory with its fitness; where several
    /// are as good, the last.
    pub fn best(&self) -> (found: ([i64; 16], i64))
        requires
            self.populated(),
            self.hm_mem_size > 0,
        ensures
            found.1 == self.best_fitness(),
            exists|index: int|
                #[trigger] is_last_best(self.fitness_mem@, index) && found.0
                    == self.harm_mem@[index] && found.1 == self.fitness_mem@[index],
    {
        let index = best_index(&self.fitness_mem);
        (self.harm_mem[index], self.fitness_mem[index])
    }

    /// Runs one iteration: improvises a harmony, measures its fitness and
    /// offers it to the memory. Returns the statistics of the memory after
    /// it, numbered `iteration`, and the fitness of the harmony offered.
    pub fn iterate(
        &mut self,
        iteration: usize,
        sim_length: usize,
        bounds: (i64, i64),
        scoring_mode: ScoringMode,
        n_weights: usize,
        averaged: bool,
        averaged_runs: usize,
        rng: &mut StdRng,
    ) -> (outcome: (IterationStats, i64))
        requires
            old(self).wf(),
            old(self).populated(),
            bounds.0 <= bounds.1,
            sim_length <= MAX_GAME_LENGTH,
            averaged ==> averaged_runs > 0,
        ensures
            final(self).wf(),
            final(self).populated(),
            final(self).same_parameters(*old(self)),
            is_step(
                old(self).rates(),
                old(self).memory(),
                bounds,
                Trial { sim_length, scoring_mode, n_weights, averaged, averaged_runs },
                final(self).memory(),
                outcome.0,
                iteration as int,
                outcome.1,
            ),
            final(self).best_fitness() >= old(self).best_fitness(),
            holds_fitnesses(
                old(self).memory(),
                Trial { sim_length, scoring_mode, n_weights, averaged, averaged_runs },
            ) ==> holds_fitnesses(
                final(self).memory(),
                Trial { sim_length, scoring_mode, n_weights, averaged, averaged_runs },
            ),
    {
        let new_harmony = self.improvise(bounds, rng);
        let new_fitness = evaluate_weights(
            rng,
            new_harmony,
            sim_length,
            scoring_mode,
            n_weights,
            averaged,
            averaged_runs,
        );
        self.consider(new_harmony, new_fitness);
        let (best, mean, worst) = fitness_stats(&self.fitness_mem);
        proof {
            let trial = Trial { sim_length, scoring_mode, n_weights, averaged, averaged_runs };
            assert(is_considered(old(self).memory(), new_harmony, new_fitness, self.memory()));
            if holds_fitnesses(old(self).memory(), trial) {
                lemma_considered_holds_fitnesses(
                    old(self).memory(),
                    new_harmony,
                    new_fitness,
                    self.memory(),
                    trial,
                );
            }
        }
        (IterationStats { iteration, best, mean, worst }, new_fitness)
    }

    /// Runs one iteration of a run and shows its best fitness to the run's
    /// tracker. Returns the statistics of the memory after the iteration,
    /// the fitness of the harmony offered, and whether the run is to stop.
    pub fn advance(
        &mut self,
        tracker: &mut EarlyStop,
        iteration: usize,
        sim_length: usize,
        bounds: (i64, i64),
        scoring_mode: ScoringMode,
        n_weights: usize,
        averaged: bool,
        averaged_runs: usize,
        early_stop_patience: usize,
        early_stop_target: i64,
        rng: &mut StdRng,
    ) -> (outcome: (IterationStats, i64, bool))
        requires
            old(self).wf(),
            old(self).populated(),
            bounds.0 <= bounds.1,
            sim_length <= MAX_GAME_LENGTH,
            averaged ==> averaged_runs > 0,
            old(tracker).no_improve < usize::MAX,
        ensures
            final(self).wf(),
            final(self).populated(),
            final(self).same_parameters(*old(self)),
            is_step(
                old(self).rates(),
                old(self).memory(),
                bounds,
                Trial { sim_length, scoring_mode, n_weights, averaged, averaged_runs },
                final(self).memory(),
                outcome.0,
                iteration as int,
                outcome.1,
            ),
            final(self).best_fitness() >= old(self).best_fitness(),
            holds_fitnesses(
                old(self).memory(),
                Trial { sim_length, scoring_mode, n_weights, averaged, averaged_runs },
            ) ==> holds_fitnesses(
                final(self).memory(),
                Trial { sim_length, scoring_mode, n_weights, averaged, averaged_runs },
            ),
            *final(tracker) == old(tracker).after(outcome.0.best, early_stop_patience),
            outcome.2 == final(tracker).is_done(early_stop_patience, early_stop_target),
    {
        let (stats, offered) = self.iterate(
            iteration,
            sim_length,
            bounds,
            scoring_mode,
            n_weights,
            averaged,
            averaged_runs,
            rng,
        );
        let done = tracker.observe(stats.best, early_stop_patience, early_stop_target);
        (stats, offered, done)
    }

    /// Runs the Harmony Search optimization loop: fills the memory, then
    /// iterates until `max_iter` iterations are done, the best fitness
    /// reaches `early_stop_target`, or, with a patience set,
    /// `early_stop_patience` iterations in a row have brought no
    /// improvement. Every iteration adds its statistics to `log`.
    ///
    /// Returns the best harmony in memory, its fitness and the number of
    /// iterations run. From one iteration to the next the best fitness never
    /// falls.
    pub fn optimize_with_rng(
        &mut self,
        sim_length: usize,
        bounds: (i64, i64),
        scoring_mode: ScoringMode,
        n_weights: usize,
        averaged: bool,
        averaged_runs: usize,
        early_stop_patience: usize,
        early_stop_target: i64,
        rng: &mut StdRng,
        log: &mut Vec<IterationStats>,
    ) -> (result: OptimizeResult)
        requires
            old(self).wf(),
            bounds.0 <= bounds.1,
            sim_length <= MAX_GAME_LENGTH,
            averaged ==> averaged_runs > 0,
        ensures
            final(self).wf(),
            final(self).populated(),
            final(self).same_parameters(*old(self)),
            result.iterations <= final(self).max_iter,
            result.best_score == final(self).best_fitness(),
            exists|index: int|
                #[trigger] is_last_best(final(self).fitness_mem@, index) && result.weights
                    == final(self).harm_mem@[index],
            has_run(
                old(self).rates(),
                old(self).hm_mem_size,
                bounds,
                Trial { sim_length, scoring_mode, n_weights, averaged, averaged_runs },
                old(log)@,
                final(log)@,
                result.iterations as int,
                final(self).memory(),
            ),
            holds_fitnesses(
                final(self).memory(),
                Trial { sim_length, scoring_mode, n_weights, averaged, averaged_runs },
            ),
            is_run_log(
                old(log)@,
                final(log)@,
                result.iterations as int,
                final(self).max_iter as int,
                early_stop_patience,
                early_stop_target,
            ),
            best_never_falls(final(log)@, old(log)@.len() as int),
            result.iterations > 0 ==> final(log)@.last().best == result.best_score,
    {
        let ghost trial = Trial { sim_length, scoring_mode, n_weights, averaged, averaged_runs };
        let ghost rates = self.rates();
        let mut tracker = EarlyStop::new();
        let mut iterations_used: usize = 0;
        let ghost start = log@;
        self.initialize(sim_length, bounds, scoring_mode, n_weights, averaged, averaged_runs, rng);
        let ghost mut history: Seq<Memory> = seq![self.memory()];
        let mut cnt: usize = 0;
        while cnt < self.max_iter
            invariant_except_break
                iterations_used == cnt,
                cnt > 0 ==> !tracker.is_done(early_stop_patience, early_stop_target),
            invariant
                self.wf(),
                self.populated(),
                self.same_parameters(*old(self)),
                rates == self.rates(),
                trial == (Trial { sim_length, scoring_mode, n_weights, averaged, averaged_runs }),
                bounds.0 <= bounds.1,
                sim_length <= MAX_GAME_LENGTH,
                averaged ==> averaged_runs > 0,
                cnt <= self.max_iter,
                iterations_used <= self.max_iter,
                tracker.no_improve <= iterations_used,
                is_run(
                    rates,
                    self.hm_mem_size,
                    history,
                    bounds,
                    trial,
                    start,
                    log@,
                    iterations_used as int,
                ),
                history.last() == self.memory(),
                holds_fitnesses(self.memory(), trial),
                extends_log(start, log@, iterations_used as int),
                best_never_falls(log@, start.len() as int),
                tracker == tracker_after(
                    log@,
                    start.len() as int,
                    log@.len() as int,
                    early_stop_patience,
                ),
                iterations_used > 0 ==> log@.last().best == self.best_fitness(),
                iterations_used > 0 ==> tracker.best_fitness == self.best_fitness(),
                forall|j: int|
                    start.len() < j < log@.len() ==> !(#[trigger] tracker_after(
                        log@,
                        start.len() as int,
                        j,
                        early_stop_patience,
                    )).is_done(early_stop_patience, early_stop_target),
            ensures
                iterations_used == self.max_iter || (iterations_used > 0 && tracker.is_done(
                    early_stop_patience,
                    early_stop_target,
                )),
            decreases self.max_iter - cnt,
        {
            iterations_used = cnt + 1;
            let ghost earlier_log = log@;
            let ghost earlier_history = history;
            let (stats, _, done) = self.advance(
                &mut tracker,
                cnt,
                sim_length,
                bounds,
                scoring_mode,
                n_weights,
                averaged,
                averaged_runs,
                early_stop_patience,
                early_stop_target,
                rng,
            );
            log.push(stats);
            proof {
                history = history.push(self.memory());
                lemma_not_done_before(
                    earlier_log,
                    log@,
                    start.len() as int,
                    early_stop_patience,
                    early_stop_target,
                );
                assert(has_step(
                    rates,
                    history[cnt as int],
                    bounds,
                    trial,
                    history[cnt + 1],
                    log@[start.len() + cnt],
                    cnt as int,
                ));
                assert forall|t: int| 0 <= t < cnt + 1 implies #[trigger] has_step(
                    rates,
                    history[t],
                    bounds,
                    trial,
                    history[t + 1],
                    log@[start.len() + t],
                    t,
                ) by {
                    if t < cnt {
                        assert(history[t] == earlier_history[t]);
                        assert(history[t + 1] == earlier_history[t + 1]);
                        assert(log@[start.len() + t] == earlier_log[start.len() + t]);
                        assert(has_step(
                            rates,
                            earlier_history[t],
                            bounds,
                            trial,
                            earlier_history[t + 1],
                            earlier_log[start.len() + t],
                            t,
                        ));
                    }
                }
                assert forall|t: int| 0 <= t < cnt + 1 implies best_of(history[t].fitnesses)
                    <= best_of((#[trigger] history[t + 1]).fitnesses) by {
                    if t < cnt {
                        assert(history[t] == earlier_history[t]);
                        assert(history[t + 1] == earlier_history[t + 1]);
                    }
                }
            }
            if done {
                break ;
            }
            cnt += 1;
        }
        let (weights, best_score) = self.best();
        assert(is_run(
            old(self).rates(),
            old(self).hm_mem_size,
            history,
            bounds,
            trial,
            start,
            log@,
            iterations_used as int,
        ));
        assert(has_run(
            old(self).rates(),
            old(self).hm_mem_size,
            bounds,
            trial,
            start,
            log@,
            iterations_used as int,
            self.memory(),
        ));
        OptimizeResult { weights, best_score, iterations: iterations_used }
    }
}

/// Replacing a worst fitness in memory by a higher one never lowers the
/// best: the best is then the higher of the old best and the newcomer.
pub proof fn lemma_best_never_falls(fitnesses: Seq<i64>, worst: int, fitness: i64)
    requires
        0 <= worst < fitnesses.len(),
        forall|j: int| 0 <= j < fitnesses.len() ==> fitnesses[worst] <= fitnesses[j],
        fitness > fitnesses[worst],
    ensures
        best_of(fitnesses.update(worst, fitness)) == if fitness > best_of(fitnesses) {
            fitness as int
        } else {
            best_of(fitnesses)
        },
        best_of(fitnesses.update(worst, fitness)) >= best_of(fitnesses),
{
    let after = fitnesses.update(worst, fitness);
    lemma_max_range(0, fitnesses.len() as int, values(fitnesses), i64::MIN as int);
    assert(values(fitnesses)(worst) <= best_of(fitnesses));
    let best = choose|i: int|
        0 <= i < fitnesses.len() && #[trigger] values(fitnesses)(i) == best_of(fitnesses);
    assert forall|j: int| 0 <= j < fitnesses.len() implies fitnesses[j] <= fitnesses[best] by {
        assert(values(fitnesses)(j) <= best_of(fitnesses));
    }
    if fitness > fitnesses[best] {
        lemma_best_of(after, worst);
    } else {
        assert(best != worst);
        lemma_best_of(after, best);
    }
}

/// From entry `from` on, the best fitness in the log never falls from one
/// entry to the next.
pub open spec fn best_never_falls(log: Seq<IterationStats>, from: int) -> bool {
    forall|k: int| from < k < log.len() ==> log[k - 1].best <= (#[trigger] log[k]).best
}

} // verus!
