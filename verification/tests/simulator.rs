use harmonomino::agent::simulator::{ScoringMode, Simulator};
use harmonomino::weights;
use rand::SeedableRng;

#[test]
fn simulate_game_with_rng_is_deterministic() {
    let weights = [0; weights::NUM_WEIGHTS];
    let sim_length = 100;

    let sim_a = Simulator::new(weights, sim_length, ScoringMode::RowsOnly);
    let sim_b = Simulator::new(weights, sim_length, ScoringMode::RowsOnly);

    let mut rng_a = rand::rngs::StdRng::seed_from_u64(1234);
    let mut rng_b = rand::rngs::StdRng::seed_from_u64(1234);

    let rows_a = sim_a.simulate_game_with_rng(&mut rng_a);
    let rows_b = sim_b.simulate_game_with_rng(&mut rng_b);

    assert_eq!(rows_a, rows_b);
}
