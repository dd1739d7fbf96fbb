//! Parameter sweeps: one parameter of Harmony Search is given a range of
//! values while the others stay as they are.

use crate::harmony::search::OptimizeConfig;
use crate::text::same_text;
use vstd::prelude::*;

verus! {

/// A parameter that can be swept.
#[derive(Debug, Clone, Copy, PartialEq, Eq, Structural)]
pub enum SweepParam {
    PitchAdjRate,
    Iterations,
    Bandwidth,
    SimLength,
}

impl SweepParam {
    /// The name of the parameter, as characters.
    pub open spec fn name_text(self) -> Seq<char> {
        match self {
            SweepParam::PitchAdjRate => "pitch-adj-rate"@,
            SweepParam::Iterations => "iterations"@,
            SweepParam::Bandwidth => "bandwidth"@,
            SweepParam::SimLength => "sim-length"@,
        }
    }

    /// How many values the parameter takes in a sweep.
    pub open spec fn count(self) -> int {
        match self {
            SweepParam::PitchAdjRate => 6,
            SweepParam::Iterations => 10,
            SweepParam::Bandwidth => 4,
            SweepParam::SimLength => 20,
        }
    }

    /// The `i`-th value that the parameter takes in a sweep: the pitch
    /// adjustment rate goes from 0.49 to 0.99 in steps of 0.1, the
    /// iterations from 100 to 1000 and the game length from 100 to 2000 in
    /// steps of 100, and the bandwidth is 0.05, 0.1, 0.5 and 1.
    pub open spec fn value(self, i: int) -> int {
        match self {
            SweepParam::PitchAdjRate => 490_000 + 100_000 * i,
            SweepParam::Iterations => 100 + 100 * i,
            SweepParam::Bandwidth => if i == 0 {
                50_000
            } else if i == 1 {
                100_000
            } else if i == 2 {
                500_000
            } else {
                1_000_000
            },
            SweepParam::SimLength => 100 + 100 * i,
        }
    }

    /// The configuration `base` with this parameter set to `value`.
    pub open spec fn applied(self, base: OptimizeConfig, value: int) -> OptimizeConfig {
        match self {
            SweepParam::PitchAdjRate => OptimizeConfig { pitch_adj_rate: value as i64, ..base },
            SweepParam::Iterations => OptimizeConfig { iterations: value as usize, ..base },
            SweepParam::Bandwidth => OptimizeConfig { bandwidth: value as i64, ..base },
            SweepParam::SimLength => OptimizeConfig { sim_length: value as usize, ..base },
        }
    }

    /// The name of the parameter: `pitch-adj-rate`, `iterations`,
    /// `bandwidth` or `sim-length`.
    pub fn name(self) -> (name: &'static str)
        ensures
            name@ == self.name_text(),
    {
        match self {
            SweepParam::PitchAdjRate => "pitch-adj-rate",
            SweepParam::Iterations => "iterations",
            SweepParam::Bandwidth => "bandwidth",
            SweepParam::SimLength => "sim-length",
        }
    }

    /// The parameter of the given name, if it names one.
    pub fn from_name(name: &str) -> (param: Option<Self>)
        ensures
            param == if name@ == "pitch-adj-rate"@ {
                Some(SweepParam::PitchAdjRate)
            } else if name@ == "iterations"@ {
                Some(SweepParam::Iterations)
            } else if name@ == "bandwidth"@ {
                Some(SweepParam::Bandwidth)
            } else if name@ == "sim-length"@ {
                Some(SweepParam::SimLength)
            } else {
                None
            },
    {
        if same_text(name, "pitch-adj-rate") {
            Some(SweepParam::PitchAdjRate)
        } else if same_text(name, "iterations") {
            Some(SweepParam::Iterations)
        } else if same_text(name, "bandwidth") {
            Some(SweepParam::Bandwidth)
        } else if same_text(name, "sim-length") {
            Some(SweepParam::SimLength)
        } else {
            None
        }
    }

    /// Returns the `i`-th value of the sweep.
    pub fn value_at(self, i: usize) -> (value: u64)
        requires
            i < self.count(),
        ensures
            value == self.value(i as int),
    {
        match self {
            SweepParam::PitchAdjRate => 490_000 + 100_000 * (i as u64),
            SweepParam::Iterations => 100 + 100 * (i as u64),
            SweepParam::Bandwidth => {
                if i == 0 {
                    50_000
                } else if i == 1 {
                    100_000
                } else if i == 2 {
                    500_000
                } else {
                    1_000_000
                }
            },
            SweepParam::SimLength => 100 + 100 * (i as u64),
        }
    }

    /// Returns how many values the sweep has.
    pub fn len(self) -> (count: usize)
        ensures
            count == self.count(),
    {
        match self {
            SweepParam::PitchAdjRate => 6,
            SweepParam::Iterations => 10,
            SweepParam::Bandwidth => 4,
            SweepParam::SimLength => 20,
        }
    }
}

/// Builds a base config with shared sweep settings; what is not given is
/// as in the default configuration.
pub fn sweep_base_config(
    sim_length: usize,
    n_weights: usize,
    averaged: bool,
    averaged_runs: usize,
) -> (config: OptimizeConfig)
    ensures
        config.sim_length == sim_length,
        config.n_weights == n_weights,
        config.averaged == averaged,
        config.averaged_runs == averaged_runs,
        config.memory_size == 5,
        config.iterations == 500,
        config.accept_rate == 950_000,
        config.pitch_adj_rate == 990_000,
        config.bandwidth == 100_000,
        config.bounds == (-1_000_000i64, 1_000_000i64),
        config.scoring_mode == crate::agent::simulator::ScoringMode::Full,
        config.early_stop_patience == 0,
        config.early_stop_target == i64::MAX,
{
    let mut config = OptimizeConfig::default();
    config.sim_length = sim_length;
    config.n_weights = n_weights;
    config.averaged = averaged;
    config.averaged_runs = averaged_runs;
    config
}

/// Returns the configurations of a sweep: `base` with the parameter set to
/// each of its values in turn.
pub fn sweep_configs(param: SweepParam, base: OptimizeConfig) -> (configs: Vec<OptimizeConfig>)
    ensures
        configs@.len() == param.count(),
        forall|i: int|
            0 <= i < configs@.len() ==> #[trigger] configs@[i] == param.applied(base, param.value(i)),
{
    let mut configs: Vec<OptimizeConfig> = Vec::new();
    let count = param.len();
    let mut i: usize = 0;
    while i < count
        invariant
            i <= count,
            count == param.count(),
            configs@.len() == i,
            forall|k: int|
                0 <= k < i ==> #[trigger] configs@[k] == param.applied(base, param.value(k)),
        decreases count - i,
    {
        let value = param.value_at(i);
        let mut config = base;
        match param {
            SweepParam::PitchAdjRate => {
                config.pitch_adj_rate = value as i64;
            },
            SweepParam::Iterations => {
                config.iterations = value as usize;
            },
            SweepParam::Bandwidth => {
                config.bandwidth = value as i64;
            },
            SweepParam::SimLength => {
                config.sim_length = value as usize;
            },
        }
        configs.push(config);
        i += 1;
    }
    configs
}

} // verus!
