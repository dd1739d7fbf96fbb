//! Optimization algorithms for tuning the agent's evaluation weights.

pub mod cross_entropy;
pub mod fitness;
pub mod search;
pub mod sweep;

pub use cross_entropy::{CeConfig, CeOptimizeResult, CeProgress, CrossEntropySearch};
pub use fitness::{evaluate_weights, fitness_stats, EarlyStop, IterationStats};
pub use search::{HarmonySearch, OptimizeConfig, OptimizeResult};
pub use sweep::{sweep_base_config, sweep_configs, SweepParam};
