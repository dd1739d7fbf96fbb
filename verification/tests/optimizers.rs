use harmonomino::agent::simulator::ScoringMode;
use harmonomino::harmony::cross_entropy::{rank_by_fitness, CeConfig, CeProgress, CrossEntropySearch};
use harmonomino::harmony::fitness::{
    averaged_fitness, best_index, evaluate_weights, fitness_stats, game_fitness, worst_index,
    EarlyStop, IterationStats,
};
use harmonomino::harmony::search::{pitch_adjusted, HarmonySearch, OptimizeConfig};
use harmonomino::numeric::integer_sqrt;
use harmonomino::weights::{add_product, NUM_WEIGHTS, SCALE};
use rand::rngs::StdRng;
use rand::SeedableRng;

fn harmony(note: i64) -> [i64; 16] {
    [note; 16]
}

fn search_with_memory(fitnesses: &[i64]) -> HarmonySearch {
    let mut search = HarmonySearch::new(fitnesses.len(), 10, SCALE, 0, 100_000);
    for (i, &fitness) in fitnesses.iter().enumerate() {
        search.harm_mem.push(harmony(i as i64));
        search.fitness_mem.push(fitness);
    }
    search
}

#[test]
fn fixed_point_products() {
    assert_eq!(SCALE, 1_000_000);
    assert_eq!(NUM_WEIGHTS, 16);
    // 1 + 0.5 * 0.1
    assert_eq!(add_product(1_000_000, 500_000, 100_000), 1_050_000);
    assert_eq!(add_product(1_000_000, -500_000, 100_000), 950_000);
    // Products are rounded towards zero.
    assert_eq!(add_product(7, 1, 999_999), 7);
    assert_eq!(add_product(7, -1, 999_999), 7);
    assert_eq!(add_product(0, 1_500_000, 1), 1);
    assert_eq!(add_product(0, -1_500_000, 1), -1);
    // The result stays within the type.
    assert_eq!(add_product(i64::MAX, SCALE, SCALE), i64::MAX);
    assert_eq!(add_product(i64::MIN, -SCALE, SCALE), i64::MIN);
    assert_eq!(add_product(0, i64::MAX, i64::MAX), i64::MAX);
    assert_eq!(add_product(0, i64::MIN, i64::MAX), i64::MIN);
    assert_eq!(pitch_adjusted(2_000_000, -1_000_000, 250_000), 1_750_000);
}

#[test]
fn integer_square_roots() {
    assert_eq!(integer_sqrt(0), 0);
    assert_eq!(integer_sqrt(1), 1);
    assert_eq!(integer_sqrt(15), 3);
    assert_eq!(integer_sqrt(16), 4);
    assert_eq!(integer_sqrt(17), 4);
    assert_eq!(integer_sqrt(1_000_000_000_000), 1_000_000);
    assert_eq!(integer_sqrt(u128::MAX), u64::MAX as u128);
}

#[test]
fn fitness_of_games() {
    assert_eq!(game_fitness(0), 0);
    assert_eq!(game_fitness(3), 3_000_000);
    assert_eq!(game_fitness(u32::MAX), u32::MAX as i64 * 1_000_000);
    assert_eq!(averaged_fitness(7, 2), 3_500_000);
    assert_eq!(averaged_fitness(1, 3), 333_333);
    assert_eq!(averaged_fitness(0, 5), 0);
}

#[test]
fn statistics_of_fitness_values() {
    assert_eq!(fitness_stats(&vec![3, 1, 2]), (3, 2, 1));
    assert_eq!(fitness_stats(&vec![5]), (5, 5, 5));
    assert_eq!(fitness_stats(&vec![1, 2]), (2, 1, 1));
    assert_eq!(fitness_stats(&vec![-3, 0]), (0, -1, -3));
    assert_eq!(fitness_stats(&Vec::new()), (i64::MIN, 0, i64::MAX));
    assert_eq!(
        fitness_stats(&vec![i64::MAX, i64::MAX, i64::MAX]),
        (i64::MAX, i64::MAX, i64::MAX)
    );
    assert_eq!(worst_index(&vec![4, 1, 7, 1]), 1);
    assert_eq!(best_index(&vec![4, 7, 1, 7]), 3);
}

#[test]
fn early_stop_tracks_the_best() {
    let mut tracker = EarlyStop::new();
    assert_eq!(tracker.best_fitness, i64::MIN);
    assert!(!tracker.observe(5, 2, 100));
    assert_eq!((tracker.best_fitness, tracker.no_improve), (5, 0));
    assert!(!tracker.observe(5, 2, 100));
    assert_eq!((tracker.best_fitness, tracker.no_improve), (5, 1));
    assert!(tracker.observe(4, 2, 100));
    assert_eq!((tracker.best_fitness, tracker.no_improve), (5, 2));
    assert!(!tracker.observe(6, 2, 100));
    assert_eq!((tracker.best_fitness, tracker.no_improve), (6, 0));
    assert!(tracker.observe(100, 2, 100));

    // Without a patience, iterations without improvement are not counted.
    let mut patient = EarlyStop::new();
    assert!(!patient.observe(1, 0, i64::MAX));
    assert!(!patient.observe(1, 0, i64::MAX));
    assert_eq!(patient.no_improve, 0);
}

#[test]
fn a_memory_of_one_is_replaced_only_by_a_better_harmony() {
    let mut search = HarmonySearch::new(1, 10, 950_000, 990_000, 100_000);
    search.harm_mem.push(harmony(1));
    search.fitness_mem.push(5_000_000);

    assert!(!search.consider(harmony(2), 4_000_000));
    assert_eq!(search.harm_mem, vec![harmony(1)]);
    assert!(!search.consider(harmony(3), 5_000_000));
    assert_eq!(search.harm_mem, vec![harmony(1)]);
    assert_eq!(search.fitness_mem, vec![5_000_000]);

    assert!(search.consider(harmony(4), 6_000_000));
    assert_eq!(search.harm_mem, vec![harmony(4)]);
    assert_eq!(search.fitness_mem, vec![6_000_000]);
    assert_eq!(search.best(), (harmony(4), 6_000_000));
}

#[test]
fn the_first_of_the_worst_gives_way() {
    let mut search = search_with_memory(&[3, 1, 2, 1]);
    assert!(search.consider(harmony(9), 2));
    assert_eq!(search.fitness_mem, vec![3, 2, 2, 1]);
    assert_eq!(search.harm_mem[1], harmony(9));
    assert_eq!(search.harm_mem[3], harmony(3));
    // The best in memory is the last of the best.
    assert!(search.consider(harmony(8), 3));
    assert_eq!(search.fitness_mem, vec![3, 2, 2, 3]);
    assert_eq!(search.best(), (harmony(8), 3));
}

#[test]
fn the_best_in_memory_never_falls() {
    let mut search = search_with_memory(&[10, 20, 30]);
    let offers = [5i64, 25, 15, 40, 0, 40, 35];
    let mut best = 30;
    for (i, &offer) in offers.iter().enumerate() {
        search.consider(harmony(100 + i as i64), offer);
        let now = *search.fitness_mem.iter().max().expect("a memory");
        assert_eq!(now, best.max(offer));
        assert!(now >= best);
        best = now;
    }
}

#[test]
fn random_harmonies_stay_within_bounds() {
    let mut rng = StdRng::seed_from_u64(3);
    assert_eq!(HarmonySearch::random_harmony((5, 5), &mut rng), harmony(5));
    let mut distinct = Vec::new();
    for _ in 0..20 {
        let drawn = HarmonySearch::random_harmony((-3, 7), &mut rng);
        for note in drawn {
            assert!((-3..=7).contains(&note));
            if !distinct.contains(&note) {
                distinct.push(note);
            }
        }
    }
    assert!(distinct.len() > 1);
}

#[test]
fn improvised_notes_come_from_memory_or_from_the_bounds() {
    let mut rng = StdRng::seed_from_u64(8);
    // Always from memory, never adjusted.
    let mut search = HarmonySearch::new(2, 10, SCALE, 0, 100_000);
    search.harm_mem = vec![harmony(10), harmony(20)];
    search.fitness_mem = vec![0, 0];
    for _ in 0..10 {
        for note in search.improvise((-1, 1), &mut rng) {
            assert!(note == 10 || note == 20);
        }
    }
    // Always from memory, always adjusted, by at most the bandwidth.
    search.pitch_adj_rate = SCALE;
    for _ in 0..10 {
        for note in search.improvise((-1, 1), &mut rng) {
            assert!((10 - 100_000..=20 + 100_000).contains(&note));
        }
    }
    // Never from memory.
    search.accept_rate = 0;
    for _ in 0..10 {
        assert_eq!(search.improvise((100, 100), &mut rng), harmony(100));
    }
}

#[test]
fn the_fitness_of_weights_is_that_of_a_game() {
    let mut rng = StdRng::seed_from_u64(21);
    let single = evaluate_weights(&mut rng, [0; 16], 30, ScoringMode::RowsOnly, 16, false, 0);
    assert!(single >= 0);
    assert_eq!(single % SCALE, 0);
    let mean = evaluate_weights(&mut rng, [0; 16], 30, ScoringMode::RowsOnly, 16, true, 4);
    assert!((0..=600 * SCALE).contains(&mean));
    assert_eq!(mean % (SCALE / 4), 0);
    // No games, no rows.
    assert_eq!(
        evaluate_weights(&mut rng, [0; 16], 0, ScoringMode::Full, 16, true, 3),
        0
    );
}

#[test]
fn harmony_search_runs_to_the_end() {
    let mut rng = StdRng::seed_from_u64(42);
    let mut search = HarmonySearch::new(3, 6, 950_000, 990_000, 100_000);
    let mut log = vec![IterationStats {
        iteration: 77,
        best: 1,
        mean: 1,
        worst: 1,
    }];
    let result = search.optimize_with_rng(
        20,
        (-1_000_000, 1_000_000),
        ScoringMode::Full,
        16,
        false,
        0,
        0,
        i64::MAX,
        &mut rng,
        &mut log,
    );
    assert_eq!(result.iterations, 6);
    assert_eq!(log.len(), 7);
    assert_eq!(log[0].iteration, 77);
    for k in 0..6 {
        let entry = log[k + 1];
        assert_eq!(entry.iteration, k);
        assert!(entry.worst <= entry.mean && entry.mean <= entry.best);
        if k > 0 {
            assert!(log[k].best <= entry.best);
        }
    }
    assert_eq!(log[6].best, result.best_score);
    assert_eq!(search.harm_mem.len(), 3);
    assert_eq!(search.fitness_mem.len(), 3);
    assert_eq!(*search.fitness_mem.iter().max().expect("a memory"), result.best_score);
    assert!(search.harm_mem.contains(&result.weights));
}

#[test]
fn harmony_search_repeats_with_the_seed() {
    let run = |seed: u64| {
        let mut rng = StdRng::seed_from_u64(seed);
        let mut search = HarmonySearch::new(2, 4, 950_000, 990_000, 100_000);
        let mut log = Vec::new();
        let result = search.optimize_with_rng(
            15,
            (-1_000_000, 1_000_000),
            ScoringMode::Full,
            16,
            true,
            2,
            0,
            i64::MAX,
            &mut rng,
            &mut log,
        );
        (result.weights, result.best_score, result.iterations, log)
    };
    assert_eq!(run(7), run(7));
}

#[test]
fn harmony_search_stops_early() {
    // Every fitness reaches a target of 0: one iteration.
    let mut rng = StdRng::seed_from_u64(1);
    let mut search = HarmonySearch::new(2, 50, 950_000, 990_000, 100_000);
    let mut log = Vec::new();
    let result = search.optimize_with_rng(
        5,
        (-1_000_000, 1_000_000),
        ScoringMode::Full,
        16,
        false,
        0,
        0,
        0,
        &mut rng,
        &mut log,
    );
    assert_eq!(result.iterations, 1);
    assert_eq!(log.len(), 1);

    // Games of no pieces never improve on 0: the patience runs out.
    let mut search = HarmonySearch::new(2, 50, 950_000, 990_000, 100_000);
    let mut log = Vec::new();
    let result = search.optimize_with_rng(
        0,
        (-1_000_000, 1_000_000),
        ScoringMode::Full,
        16,
        false,
        0,
        3,
        i64::MAX,
        &mut rng,
        &mut log,
    );
    assert_eq!(result.best_score, 0);
    assert_eq!(result.iterations, 4);

    // No iterations at all: the best of the first memory.
    let mut search = HarmonySearch::new(2, 0, 950_000, 990_000, 100_000);
    let mut log = Vec::new();
    let result = search.optimize_with_rng(
        0,
        (4, 4),
        ScoringMode::Full,
        16,
        false,
        0,
        0,
        i64::MAX,
        &mut rng,
        &mut log,
    );
    assert_eq!(result.iterations, 0);
    assert_eq!(result.weights, harmony(4));
    assert!(log.is_empty());
}

#[test]
fn configurations_say_whether_they_can_run() {
    let config = OptimizeConfig::default();
    assert!(config.is_valid());
    assert_eq!(config.memory_size, 5);
    assert_eq!(config.iterations, 500);
    assert_eq!(config.accept_rate, 950_000);
    assert_eq!(config.pitch_adj_rate, 990_000);
    assert_eq!(config.bandwidth, 100_000);
    assert_eq!(config.sim_length, 1000);
    assert_eq!(config.bounds, (-1_000_000, 1_000_000));
    assert_eq!(config.averaged_runs, 20);
    assert_eq!(config.early_stop_target, i64::MAX);
    assert!(!OptimizeConfig { memory_size: 0, ..config }.is_valid());
    assert!(!OptimizeConfig { accept_rate: -1, ..config }.is_valid());
    assert!(!OptimizeConfig { accept_rate: SCALE + 1, ..config }.is_valid());
    assert!(!OptimizeConfig { pitch_adj_rate: SCALE + 1, ..config }.is_valid());
    assert!(!OptimizeConfig { bounds: (1, 0), ..config }.is_valid());
    assert!(!OptimizeConfig { averaged: true, averaged_runs: 0, ..config }.is_valid());
    assert!(OptimizeConfig { accept_rate: SCALE, pitch_adj_rate: 0, ..config }.is_valid());

    let config = CeConfig::default();
    assert!(config.is_valid());
    assert_eq!(config.n_samples, 50);
    assert_eq!(config.n_elite, 10);
    assert_eq!(config.initial_std_dev, 10_000_000);
    assert_eq!(config.std_dev_floor, 10_000);
    assert!(!CeConfig { n_elite: 51, ..config }.is_valid());
    assert!(!CeConfig { n_samples: 0, n_elite: 0, ..config }.is_valid());
    assert!(CeConfig { n_elite: 50, ..config }.is_valid());
    assert!(CeConfig { n_elite: 0, ..config }.is_valid());
}

#[test]
fn samples_are_ranked_by_fitness() {
    assert_eq!(rank_by_fitness(&vec![1, 3, 3, 2]), vec![1, 2, 3, 0]);
    assert_eq!(rank_by_fitness(&vec![5, 5, 5]), vec![0, 1, 2]);
    assert_eq!(rank_by_fitness(&vec![1, 2, 3]), vec![2, 1, 0]);
    assert!(rank_by_fitness(&Vec::new()).is_empty());
}

#[test]
fn a_sample_is_the_mean_plus_deviation_times_deviate() {
    let mut search = CrossEntropySearch::new(4, 2, 10, 10_000_000);
    assert_eq!(search.means, [0; 16]);
    assert_eq!(search.std_devs, [10_000_000; 16]);
    search.means[1] = 3_000_000;
    search.std_devs[2] = 0;
    let mut z = [0i64; 16];
    z[0] = 1_000_000;
    z[1] = -500_000;
    z[2] = 2_000_000;
    let sample = search.sample(&z);
    assert_eq!(sample[0], 10_000_000);
    assert_eq!(sample[1], -2_000_000);
    assert_eq!(sample[2], 0);
    assert_eq!(sample[3], 0);
}

#[test]
fn the_distributions_are_refitted_to_the_elite() {
    let mut search = CrossEntropySearch::new(3, 2, 10, 10_000_000);
    let mut samples = vec![[2_000_000i64; 16], [4_000_000; 16], [100; 16]];
    samples[0][1] = -7;
    samples[1][1] = -7;
    let order = vec![1usize, 0, 2];
    search.refit(&samples, &order, 10_000);
    assert_eq!(search.means[0], 3_000_000);
    assert_eq!(search.std_devs[0], 1_000_000);
    // Equal notes have no deviation: the floor takes its place.
    assert_eq!(search.means[1], -7);
    assert_eq!(search.std_devs[1], 10_000);

    // A floor above the deviation replaces it.
    let mut floored = CrossEntropySearch::new(3, 2, 10, 10_000_000);
    floored.refit(&samples, &order, 2_000_000);
    assert_eq!(floored.std_devs, [2_000_000; 16]);

    // Means are rounded towards zero, deviations down.
    let mut odd = CrossEntropySearch::new(3, 3, 10, 1);
    let samples = vec![[-1i64; 16], [-2; 16], [-2; 16]];
    odd.refit(&samples, &vec![0, 1, 2], 0);
    assert_eq!(odd.means, [-1; 16]);
    assert_eq!(odd.std_devs, [0; 16]);

    // Without an elite the means stay and the deviations are the floor.
    let mut none = CrossEntropySearch::new(3, 0, 10, 5);
    none.means = [9; 16];
    none.refit(&samples, &vec![0, 1, 2], 33);
    assert_eq!(none.means, [9; 16]);
    assert_eq!(none.std_devs, [33; 16]);
}

#[test]
fn no_deviation_falls_below_the_floor() {
    let mut rng = StdRng::seed_from_u64(17);
    for floor in [0i64, 10_000, 5_000_000, i64::MAX] {
        let mut search = CrossEntropySearch::new(4, 2, 5, 1_000_000);
        let samples: Vec<[i64; 16]> = (0..4)
            .map(|_| HarmonySearch::random_harmony((-3_000_000, 3_000_000), &mut rng))
            .collect();
        search.refit(&samples, &vec![3, 1, 0, 2], floor);
        assert!(search.std_devs.iter().all(|&deviation| deviation >= floor));
    }
}

#[test]
fn an_iteration_is_absorbed() {
    let mut search = CrossEntropySearch::new(3, 1, 10, 1_000_000);
    let mut progress = CeProgress {
        best_weights: [0; 16],
        tracker: EarlyStop::new(),
    };
    let samples = vec![[1i64; 16], [2; 16], [3; 16]];
    let (stats, done) = search.absorb(&mut progress, 4, &samples, &vec![10, 30, 20], 7, 0, 30);
    assert_eq!(
        stats,
        IterationStats {
            iteration: 4,
            best: 30,
            mean: 20,
            worst: 10
        }
    );
    assert!(done);
    assert_eq!(progress.best_weights, [2; 16]);
    assert_eq!(progress.tracker.best_fitness, 30);
    assert_eq!(search.means, [2; 16]);
    assert_eq!(search.std_devs, [7; 16]);

    // A round that does not beat the best leaves the best weights alone.
    let (stats, done) = search.absorb(&mut progress, 5, &samples, &vec![1, 2, 30], 7, 0, 31);
    assert_eq!(stats.best, 30);
    assert!(!done);
    assert_eq!(progress.best_weights, [2; 16]);
    assert_eq!(search.means, [3; 16]);
}

#[test]
fn cross_entropy_runs_on_the_deviates_it_is_given() {
    let mut rng = StdRng::seed_from_u64(5);
    let mut search = CrossEntropySearch::new(3, 2, 4, 1_000_000);
    let mut round = Vec::new();
    for s in 0..3i64 {
        let mut z = [0i64; 16];
        for (d, deviate) in z.iter_mut().enumerate() {
            *deviate = (s - 1) * 700_000 + d as i64 * 10_000;
        }
        round.push(z);
    }
    let deviates = vec![round; 4];
    let mut log = Vec::new();
    let result = search.optimize_with_rng(
        20,
        ScoringMode::Full,
        16,
        false,
        0,
        50_000,
        0,
        i64::MAX,
        &mut rng,
        &deviates,
        &mut log,
    );
    assert_eq!(result.iterations, 4);
    assert_eq!(log.len(), 4);
    for (k, entry) in log.iter().enumerate() {
        assert_eq!(entry.iteration, k);
        assert!(entry.worst <= entry.mean && entry.mean <= entry.best);
        assert!(entry.best <= result.best_score);
    }
    assert_eq!(
        result.best_score,
        log.iter().map(|entry| entry.best).max().expect("a log")
    );
    assert!(search.std_devs.iter().all(|&deviation| deviation >= 50_000));

    // A target of 0 is reached by the first round.
    let mut search = CrossEntropySearch::new(3, 2, 4, 1_000_000);
    let mut log = Vec::new();
    let result = search.optimize_with_rng(
        20,
        ScoringMode::Full,
        16,
        false,
        0,
        50_000,
        0,
        0,
        &mut rng,
        &deviates,
        &mut log,
    );
    assert_eq!(result.iterations, 1);

    // Without iterations nothing is sampled.
    let mut search = CrossEntropySearch::new(3, 2, 0, 1_000_000);
    let mut log = Vec::new();
    let result = search.optimize_with_rng(
        20,
        ScoringMode::Full,
        16,
        false,
        0,
        50_000,
        0,
        0,
        &mut rng,
        &Vec::new(),
        &mut log,
    );
    assert_eq!(
        (result.weights, result.best_score, result.iterations),
        ([0; 16], i64::MIN, 0)
    );
    assert_eq!(search.std_devs, [1_000_000; 16]);
}

#[test]
fn a_note_is_composed_of_its_draws() {
    let search = HarmonySearch::new(1, 0, 300_000, 600_000, 2_000_000);
    // Taken from memory and moved by half the bandwidth.
    assert_eq!(search.compose_note(5_000_000, 299_999, 599_999, 500_000, 77), 6_000_000);
    assert_eq!(search.compose_note(5_000_000, 0, 0, -1_000_000, 77), 3_000_000);
    // Taken from memory as it is.
    assert_eq!(search.compose_note(5_000_000, 299_999, 600_000, 500_000, 77), 5_000_000);
    // Drawn afresh.
    assert_eq!(search.compose_note(5_000_000, 300_000, 0, 500_000, 77), 77);
    assert_eq!(search.compose_note(5_000_000, 999_999, 999_999, 0, -3), -3);

    // At the ends of the rates the draws decide nothing.
    let always = HarmonySearch::new(1, 0, SCALE, SCALE, 1_000_000);
    assert_eq!(always.compose_note(1, 999_999, 999_999, 1_000_000, 9), 1_000_001);
    let never = HarmonySearch::new(1, 0, 0, 0, 1_000_000);
    assert_eq!(never.compose_note(1, 0, 0, 1_000_000, 9), 9);
}

#[test]
fn an_iteration_reports_the_fitness_it_offered() {
    let mut rng = StdRng::seed_from_u64(4);
    let mut search = HarmonySearch::new(2, 5, SCALE, 0, 100_000);
    search.harm_mem = vec![harmony(1), harmony(2)];
    search.fitness_mem = vec![-5, -7];
    // Games of no piece have fitness 0, which beats both.
    let (stats, offered) =
        search.iterate(9, 0, (0, 0), ScoringMode::Full, 16, false, 0, &mut rng);
    assert_eq!(offered, 0);
    assert_eq!(search.fitness_mem, vec![-5, 0]);
    assert_eq!(
        stats,
        IterationStats {
            iteration: 9,
            best: 0,
            mean: -2,
            worst: -5
        }
    );
    // Every note came from memory, unmoved.
    assert!(search.harm_mem[1].iter().all(|&note| note == 1 || note == 2));
}

#[test]
fn harmony_search_without_games_runs_out_of_patience() {
    // One harmony in memory, all notes zero, and games of no piece: the
    // first iteration sets the best fitness, the next two bring nothing.
    let mut rng = StdRng::seed_from_u64(0);
    let mut search = HarmonySearch::new(1, 10, SCALE, 0, 100_000);
    let mut log = Vec::new();
    let result = search.optimize_with_rng(
        0,
        (0, 0),
        ScoringMode::RowsOnly,
        16,
        false,
        1,
        2,
        i64::MAX,
        &mut rng,
        &mut log,
    );
    assert_eq!(result.iterations, 3);
    assert_eq!(result.best_score, 0);
    assert_eq!(result.weights, [0; 16]);
    assert_eq!(search.harm_mem, vec![[0; 16]]);
    assert_eq!(search.fitness_mem, vec![0]);
    assert_eq!(log.len(), 3);
}

#[test]
fn cross_entropy_without_games_keeps_the_first_sample() {
    // Two samples of equal fitness: the first is the elite and the best.
    let mut rng = StdRng::seed_from_u64(0);
    let mut search = CrossEntropySearch::new(2, 1, 1, 1_000_000);
    let mut first = [0i64; 16];
    let mut second = [0i64; 16];
    for d in 0..16 {
        first[d] = 100_000 * d as i64 - 700_000;
        second[d] = 2_000_000;
    }
    let deviates = vec![vec![first, second]];
    let mut log = Vec::new();
    let result = search.optimize_with_rng(
        0,
        ScoringMode::RowsOnly,
        16,
        false,
        1,
        500_000,
        0,
        i64::MAX,
        &mut rng,
        &deviates,
        &mut log,
    );
    assert_eq!(result.iterations, 1);
    assert_eq!(result.best_score, 0);
    // With means of 0 and deviations of 1 a sample is its deviates.
    assert_eq!(result.weights, first);
    assert_eq!(search.means, result.weights);
    assert_eq!(search.std_devs, [500_000; 16]);
    assert_eq!(
        log,
        vec![IterationStats {
            iteration: 0,
            best: 0,
            mean: 0,
            worst: 0
        }]
    );
}

#[test]
fn the_best_weights_are_those_of_the_best_round() {
    let mut search = CrossEntropySearch::new(2, 2, 3, 1_000_000);
    let mut progress = CeProgress {
        best_weights: [0; 16],
        tracker: EarlyStop::new(),
    };
    let rounds = [
        (vec![[1i64; 16], [2; 16]], vec![5i64, 9]),
        (vec![[3; 16], [4; 16]], vec![9, 8]),
        (vec![[5; 16], [6; 16]], vec![10, 10]),
    ];
    let expected = [[2i64; 16], [2; 16], [5; 16]];
    for (t, (samples, fitnesses)) in rounds.iter().enumerate() {
        search.absorb(&mut progress, t, samples, fitnesses, 0, 0, i64::MAX);
        assert_eq!(progress.best_weights, expected[t]);
    }
    assert_eq!(progress.tracker.best_fitness, 10);
    // The means are those of the last elite, here both samples.
    assert_eq!(search.means, [5; 16]);
    assert_eq!(search.std_devs, [0; 16]);
}

#[test]
fn an_advance_is_an_iteration_shown_to_the_tracker() {
    let mut rng = StdRng::seed_from_u64(11);
    let mut search = HarmonySearch::new(1, 10, SCALE, 0, 100_000);
    search.harm_mem = vec![harmony(3)];
    search.fitness_mem = vec![-4];
    let mut tracker = EarlyStop::new();
    // Games of no piece have fitness 0: the first iteration improves on
    // the memory, the second brings nothing and uses up the patience.
    let (stats, offered, done) = search.advance(
        &mut tracker,
        0,
        0,
        (0, 0),
        ScoringMode::Full,
        16,
        false,
        0,
        1,
        i64::MAX,
        &mut rng,
    );
    assert_eq!((stats.best, offered, done), (0, 0, false));
    assert_eq!(search.harm_mem, vec![harmony(3)]);
    assert_eq!(search.fitness_mem, vec![0]);
    assert_eq!((tracker.best_fitness, tracker.no_improve), (0, 0));
    let (stats, offered, done) = search.advance(
        &mut tracker,
        1,
        0,
        (0, 0),
        ScoringMode::Full,
        16,
        false,
        0,
        1,
        i64::MAX,
        &mut rng,
    );
    assert_eq!((stats.iteration, stats.best, offered, done), (1, 0, 0, true));
    assert_eq!((tracker.best_fitness, tracker.no_improve), (0, 1));
}
