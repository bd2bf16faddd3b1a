use genetic_algorithms::{
    best_fitness, build_trial, draw_plan, draw_plans, eval_fitness, evaluate, evolve_generation,
    mutate_value, random_position, run_world, select_greedy, validate, Bounds, ConfigError,
    DimensionMismatch, Fraction, Individual, Optimizer, Opts, Plan,
};
use rand::rngs::StdRng;
use rand::SeedableRng;

fn opts(pop_sz: usize, ratio: Fraction, generations: u64) -> Opts {
    Opts {
        generations,
        pop_sz,
        lower_limit: -5,
        upper_limit: 5,
        mutation_ratio: ratio,
        mutation_factor: Fraction { num: 1, den: 2 },
        verbose: 0,
    }
}

fn individual(position: Vec<i32>, target: &Vec<i32>) -> Individual {
    let fitness = eval_fitness(target, &position).unwrap();
    Individual { position, fitness: Some(fitness) }
}

fn plan(dims: Vec<bool>, a: usize, b: usize, c: usize) -> Plan {
    Plan { dims, donor_a: a, donor_b: b, donor_c: c }
}

#[test]
fn fitness_is_sum_of_products() {
    assert_eq!(eval_fitness(&vec![1, 2, 3], &vec![4, -5, 6]), Ok(12));
    assert_eq!(eval_fitness(&vec![], &vec![]), Ok(0));
    let big = vec![i32::MIN, i32::MIN];
    assert_eq!(eval_fitness(&big, &big), Ok(2 * (1i128 << 62)));
}

#[test]
fn fitness_rejects_mismatched_lengths() {
    assert_eq!(
        eval_fitness(&vec![1, 2], &vec![1]),
        Err(DimensionMismatch { expected: 2, found: 1 })
    );
}

#[test]
fn mutation_rounds_toward_zero_and_clamps() {
    let b = Bounds { low: -5, high: 5 };
    let half = Fraction { num: 1, den: 2 };
    assert_eq!(mutate_value(1, 7, 3, half, b), 3);
    assert_eq!(mutate_value(0, 0, 3, half, b), -1);
    assert_eq!(mutate_value(4, 10, 0, Fraction { num: 1, den: 1 }, b), 5);
    assert_eq!(mutate_value(-4, 0, 10, Fraction { num: 1, den: 1 }, b), -5);
    assert_eq!(mutate_value(2, 4, 1, Fraction { num: -3, den: 1 }, b), -5);
}

#[test]
fn greedy_selection_accepts_only_strict_improvement() {
    let target = vec![1, 1];
    let better = select_greedy(individual(vec![2, 2], &target), vec![1, 0], &target);
    assert_eq!(better.position, vec![1, 0]);
    assert_eq!(better.fitness, Some(1));
    let worse = select_greedy(individual(vec![2, 2], &target), vec![3, 3], &target);
    assert_eq!(worse.position, vec![2, 2]);
    assert_eq!(worse.fitness, Some(4));
    let equal = select_greedy(individual(vec![2, 2], &target), vec![4, 0], &target);
    assert_eq!(equal.position, vec![2, 2]);
    assert_eq!(equal.fitness, Some(4));
}

#[test]
fn trial_is_built_from_donors_on_chosen_dimensions() {
    let target = vec![1, 1, 1];
    let pop = vec![
        individual(vec![0, 0, 0], &target),
        individual(vec![4, 2, 1], &target),
        individual(vec![2, -1, 3], &target),
        individual(vec![0, 3, -3], &target),
    ];
    let b = Bounds { low: -5, high: 5 };
    let p = plan(vec![true, false, true], 1, 2, 3);
    let trial = build_trial(&pop, 0, &p, Fraction { num: 1, den: 1 }, b);
    assert_eq!(trial, vec![5, 0, 5]);
}

#[test]
fn one_generation_matches_hand_computation() {
    let target = vec![1, 1];
    let pop = vec![
        individual(vec![5, 5], &target),
        individual(vec![4, 2], &target),
        individual(vec![3, -1], &target),
        individual(vec![1, 5], &target),
    ];
    let plans = vec![
        plan(vec![true, true], 1, 2, 3),
        plan(vec![true, true], 0, 2, 3),
        plan(vec![true, true], 3, 0, 1),
        plan(vec![true, true], 2, 1, 0),
    ];
    let b = Bounds { low: -5, high: 5 };
    let next = evolve_generation(&pop, &target, &plans, Fraction { num: 1, den: 2 }, b);
    assert_eq!(next[0].position, vec![5, -1]);
    assert_eq!(next[0].fitness, Some(4));
    assert_eq!(next[1].position, vec![4, 2]);
    assert_eq!(next[1].fitness, Some(6));
    assert_eq!(next[2].position, vec![3, -1]);
    assert_eq!(next[2].fitness, Some(2));
    assert_eq!(next[3].position, vec![3, -2]);
    assert_eq!(next[3].fitness, Some(1));
    assert_eq!(best_fitness(&next), Some(1));
}

#[test]
fn evaluate_fills_missing_or_all() {
    let target = vec![2, 3];
    let mut pop = vec![
        Individual { position: vec![1, 1], fitness: None },
        Individual { position: vec![1, 2], fitness: Some(100) },
    ];
    assert_eq!(evaluate(&mut pop, &target, false), Ok(()));
    assert_eq!(pop[0].fitness, Some(5));
    assert_eq!(pop[1].fitness, Some(100));
    assert_eq!(evaluate(&mut pop, &target, true), Ok(()));
    assert_eq!(pop[1].fitness, Some(8));
    assert_eq!(pop[1].position, vec![1, 2]);
}

#[test]
fn evaluate_rejects_mismatched_positions() {
    let target = vec![2, 3];
    let mut pop = vec![
        Individual { position: vec![1, 1], fitness: None },
        Individual { position: vec![1, 2, 3], fitness: None },
    ];
    assert_eq!(
        evaluate(&mut pop, &target, true),
        Err(DimensionMismatch { expected: 2, found: 3 })
    );
    assert_eq!(pop[0].fitness, None);
    assert_eq!(pop[1].fitness, None);
}

#[test]
fn best_fitness_takes_least_evaluated() {
    let none = vec![Individual { position: vec![1], fitness: None }];
    assert_eq!(best_fitness(&none), None);
    let pop = vec![
        Individual { position: vec![1], fitness: Some(3) },
        Individual { position: vec![2], fitness: None },
        Individual { position: vec![3], fitness: Some(-7) },
        Individual { position: vec![4], fitness: Some(-7) },
    ];
    assert_eq!(best_fitness(&pop), Some(-7));
}

#[test]
fn validation_reports_each_error() {
    let full = Fraction { num: 1, den: 1 };
    assert_eq!(validate(&opts(4, full, 1), 2), Ok(()));
    assert_eq!(validate(&opts(3, full, 1), 2), Err(ConfigError::PopulationTooSmall));
    let mut inverted = opts(4, full, 1);
    inverted.lower_limit = 6;
    assert_eq!(validate(&inverted, 2), Err(ConfigError::InvertedBounds));
    assert_eq!(validate(&opts(4, full, 1), 0), Err(ConfigError::NoDimensions));
    assert_eq!(
        validate(&opts(4, Fraction { num: 3, den: 2 }, 1), 2),
        Err(ConfigError::RatioOutOfRange)
    );
    assert_eq!(
        validate(&opts(4, Fraction { num: -1, den: 2 }, 1), 2),
        Err(ConfigError::RatioOutOfRange)
    );
    assert_eq!(
        validate(&opts(4, Fraction { num: 0, den: 0 }, 1), 2),
        Err(ConfigError::ZeroDenominator)
    );
}

#[test]
fn population_of_three_is_refused() {
    let r = run_world(opts(3, Fraction { num: 1, den: 1 }, 1), vec![1, 1], 7);
    assert!(matches!(r, Err(ConfigError::PopulationTooSmall)));
}

#[test]
fn population_of_four_finds_donors() {
    let mut rng = StdRng::seed_from_u64(11);
    for idx in 0..4 {
        let p = draw_plan(&mut rng, idx, 4, 3, Fraction { num: 1, den: 1 });
        let mut donors = vec![p.donor_a, p.donor_b, p.donor_c];
        assert!(!donors.contains(&idx));
        donors.sort();
        donors.dedup();
        assert_eq!(donors.len(), 3);
        assert!(donors.iter().all(|d| *d < 4));
        assert_eq!(p.dims, vec![true, true, true]);
    }
    let r = run_world(opts(4, Fraction { num: 1, den: 1 }, 20), vec![1, 1], 3).unwrap();
    assert_eq!(r.history.len(), 20);
}

#[test]
fn zero_ratio_mutates_nothing() {
    let mut rng = StdRng::seed_from_u64(5);
    let p = draw_plan(&mut rng, 2, 6, 4, Fraction { num: 0, den: 10 });
    assert_eq!(p.dims, vec![false, false, false, false]);
    let o = opts(6, Fraction { num: 0, den: 10 }, 1);
    let mut opt = Optimizer::new(&o, vec![3, -2, 1], &mut rng).unwrap();
    let before: Vec<Vec<i32>> = opt.population.iter().map(|i| i.position.clone()).collect();
    let best = opt.best;
    for _ in 0..10 {
        assert_eq!(opt.step(&mut rng), best);
    }
    let after: Vec<Vec<i32>> = opt.population.iter().map(|i| i.position.clone()).collect();
    assert_eq!(before, after);
    let r = run_world(opts(6, Fraction { num: 0, den: 10 }, 15), vec![3, -2, 1], 9).unwrap();
    assert!(r.history.iter().all(|h| *h == r.history[0]));
}

#[test]
fn same_seed_same_run() {
    let o = opts(8, Fraction { num: 1, den: 2 }, 30);
    let a = run_world(o, vec![4, -2, 3, 5], 42).unwrap();
    let b = run_world(o, vec![4, -2, 3, 5], 42).unwrap();
    assert_eq!(a.history, b.history);
    for (x, y) in a.population.iter().zip(b.population.iter()) {
        assert_eq!(x.position, y.position);
        assert_eq!(x.fitness, y.fitness);
    }
}

#[test]
fn run_keeps_invariants_and_improves() {
    let target = vec![4, -2, 3, 5, -11];
    let o = opts(10, Fraction { num: 1, den: 2 }, 50);
    let r = run_world(o, target.clone(), 1).unwrap();
    assert_eq!(r.history.len(), 50);
    assert_eq!(r.population.len(), 10);
    for w in r.history.windows(2) {
        assert!(w[1] <= w[0]);
    }
    for ind in &r.population {
        assert_eq!(ind.position.len(), target.len());
        assert!(ind.position.iter().all(|v| -5 <= *v && *v <= 5));
        assert_eq!(ind.fitness, Some(eval_fitness(&target, &ind.position).unwrap()));
    }
    assert_eq!(best_fitness(&r.population), Some(*r.history.last().unwrap()));
}

#[test]
fn zero_generations_leave_empty_history() {
    let r = run_world(opts(5, Fraction { num: 1, den: 2 }, 0), vec![1], 2).unwrap();
    assert!(r.history.is_empty());
    assert_eq!(r.population.len(), 5);
}

#[test]
fn random_positions_stay_in_bounds() {
    let mut rng = StdRng::seed_from_u64(3);
    let fixed = random_position(&mut rng, 4, Bounds { low: 7, high: 7 });
    assert_eq!(fixed, vec![7, 7, 7, 7]);
    let p = random_position(&mut rng, 50, Bounds { low: -3, high: 2 });
    assert_eq!(p.len(), 50);
    assert!(p.iter().all(|v| -3 <= *v && *v <= 2));
}

#[test]
fn seeded_generation_matches_hand_computation() {
    let target = vec![1, 1];
    let o = Opts {
        generations: 1,
        pop_sz: 4,
        lower_limit: -5,
        upper_limit: 5,
        mutation_ratio: Fraction { num: 1, den: 1 },
        mutation_factor: Fraction { num: 1, den: 2 },
        verbose: 0,
    };
    let mut rng = StdRng::seed_from_u64(2024);
    let mut opt = Optimizer::new(&o, target.clone(), &mut rng).unwrap();
    let before: Vec<(Vec<i32>, i128)> = opt
        .population
        .iter()
        .map(|i| (i.position.clone(), i.fitness.unwrap()))
        .collect();
    let mut trace = rng.clone();
    let plans = draw_plans(&mut trace, 4, 2, Fraction { num: 1, den: 1 });
    opt.step(&mut rng);
    for idx in 0..4 {
        let p = &plans[idx];
        let trial: Vec<i32> = (0..2)
            .map(|d| {
                let a = before[p.donor_a].0[d] as i64;
                let b = before[p.donor_b].0[d] as i64;
                let c = before[p.donor_c].0[d] as i64;
                (a + (b - c) / 2).max(-5).min(5) as i32
            })
            .collect();
        let trial_fitness = (trial[0] + trial[1]) as i128;
        let (position, fitness) = if trial_fitness < before[idx].1 {
            (trial, trial_fitness)
        } else {
            before[idx].clone()
        };
        assert_eq!(opt.population[idx].position, position);
        assert_eq!(opt.population[idx].fitness, Some(fitness));
    }
}
