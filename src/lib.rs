//! A differential-evolution optimizer over fixed-point integer vectors,
//! with every step of the engine verified.

mod engine;
mod evolve;
mod fitness;
mod laws;
mod population;
mod random;

pub use engine::{
    draw_plan, draw_plans, init_population, random_position, run_world, validate, ConfigError,
    Optimizer, Opts, RunReport, DONORS, MIN_POPULATION,
};
pub use evolve::{build_trial, evolve_generation, mutate_value, select_greedy, Fraction, Plan};
pub use fitness::{dot_product, eval_fitness, DimensionMismatch};
pub use laws::{
    lemma_best_fitness_never_rises, lemma_generation_determined,
    lemma_generation_respects_members, lemma_min_fitness_unique, lemma_run_determined,
    lemma_same_members_same_min, lemma_unmutated_plan_keeps_position,
};
pub use population::{best_fitness, evaluate, Bounds, Individual};
