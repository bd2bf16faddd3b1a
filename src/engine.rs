use vstd::prelude::*;

use rand::rngs::StdRng;

use crate::evolve::{
    evolve_generation, evolves_by, next_position, plan_fits, plans_fit, plans_follow_ratio, Fraction,
    Plan,
};
use crate::population::{
    best_fitness, coherent, evaluate, is_coherent, is_min_fitness, well_shaped, within, Bounds,
    Individual,
};
use crate::laws::{
    lemma_best_fitness_never_rises, lemma_min_fitness_unique, lemma_unmutated_plan_keeps_position,
};
use crate::random::{choose_multiple, draw_between, seeded_rng};

verus! {

/// The fewest individuals with which three distinct donors can be found for each.
pub const MIN_POPULATION: usize = 4;

/// Number of donors taken for each trial vector.
pub const DONORS: usize = 3;

/// Settings of one run.
#[derive(Debug, Clone, Copy)]
pub struct Opts {
    /// Number of generations to run.
    pub generations: u64,
    /// Number of individuals.
    pub pop_sz: usize,
    /// Lower bound of every component.
    pub lower_limit: i32,
    /// Upper bound of every component.
    pub upper_limit: i32,
    /// Probability that a dimension mutates, within `[0, 1]`.
    pub mutation_ratio: Fraction,
    /// Scale of the donors' difference.
    pub mutation_factor: Fraction,
    /// Amount of detail to report.
    pub verbose: i32,
}

/// Why a run cannot start.
#[derive(Debug, Clone, Copy, PartialEq, Eq)]
pub enum ConfigError {
    PopulationTooSmall,
    InvertedBounds,
    NoDimensions,
    RatioOutOfRange,
    ZeroDenominator,
}

/// The first setting that rules a run out, if any, checked in this order:
/// population size, bounds, dimensions, mutation ratio, the fractions' denominators.
pub open spec fn config_error(opts: Opts, ndim: nat) -> Option<ConfigError> {
    if opts.pop_sz < MIN_POPULATION {
        Some(ConfigError::PopulationTooSmall)
    } else if opts.lower_limit > opts.upper_limit {
        Some(ConfigError::InvertedBounds)
    } else if ndim == 0 {
        Some(ConfigError::NoDimensions)
    } else if opts.mutation_ratio.den == 0 || opts.mutation_factor.den == 0 {
        Some(ConfigError::ZeroDenominator)
    } else if opts.mutation_ratio.num < 0 || opts.mutation_ratio.num > opts.mutation_ratio.den {
        Some(ConfigError::RatioOutOfRange)
    } else {
        None
    }
}

pub open spec fn bounds_of(opts: Opts) -> Bounds {
    Bounds { low: opts.lower_limit, high: opts.upper_limit }
}

/// Checks the settings of a run on a target of `ndim` dimensions.
pub fn validate(opts: &Opts, ndim: usize) -> (r: Result<(), ConfigError>)
    ensures
        r is Ok <==> config_error(*opts, ndim as nat) is None,
        r is Err ==> config_error(*opts, ndim as nat) == Some(r->Err_0),
{
    if opts.pop_sz < MIN_POPULATION {
        Err(ConfigError::PopulationTooSmall)
    } else if opts.lower_limit > opts.upper_limit {
        Err(ConfigError::InvertedBounds)
    } else if ndim == 0 {
        Err(ConfigError::NoDimensions)
    } else if opts.mutation_ratio.den == 0 || opts.mutation_factor.den == 0 {
        Err(ConfigError::ZeroDenominator)
    } else if opts.mutation_ratio.num < 0 || opts.mutation_ratio.num as i64 > opts.mutation_ratio.den as i64 {
        Err(ConfigError::RatioOutOfRange)
    } else {
        Ok(())
    }
}

/// A position of `ndim` components drawn uniformly from the bounds.
pub fn random_position(rng: &mut StdRng, ndim: usize, bounds: Bounds) -> (r: Vec<i32>)
    requires
        bounds.low <= bounds.high,
    ensures
        r.len() == ndim,
        within(r@, bounds),
{
    let mut r: Vec<i32> = Vec::with_capacity(ndim);
    let mut d: usize = 0;
    while d < ndim
        invariant
            d <= ndim,
            r.len() == d,
            within(r@, bounds),
            bounds.low <= bounds.high,
        decreases ndim - d,
    {
        let v = draw_between(rng, bounds.low as i64, bounds.high as i64);
        r.push(v as i32);
        d = d + 1;
    }
    r
}

/// A population of `size` individuals at random positions within the bounds, none evaluated.
pub fn init_population(rng: &mut StdRng, size: usize, ndim: usize, bounds: Bounds) -> (r: Vec<Individual>)
    requires
        bounds.low <= bounds.high,
    ensures
        r.len() == size,
        well_shaped(r@, ndim as nat, bounds),
        forall|i: int| 0 <= i < size ==> (#[trigger] r[i]).fitness is None,
{
    let mut r: Vec<Individual> = Vec::with_capacity(size);
    let mut i: usize = 0;
    while i < size
        invariant
            i <= size,
            r.len() == i,
            well_shaped(r@, ndim as nat, bounds),
            forall|j: int| 0 <= j < i ==> (#[trigger] r[j]).fitness is None,
            bounds.low <= bounds.high,
        decreases size - i,
    {
        let position = random_position(rng, ndim, bounds);
        r.push(Individual { position, fitness: None });
        i = i + 1;
    }
    r
}

/// The indices `0..n` without `idx`, in increasing order.
fn others(idx: usize, n: usize) -> (r: Vec<usize>)
    requires
        idx < n,
    ensures
        r.len() == n - 1,
        r@.no_duplicates(),
        forall|k: int| 0 <= k < r.len() ==> (#[trigger] r@[k]) < n && r@[k] != idx,
{
    let mut r: Vec<usize> = Vec::with_capacity(n);
    let mut j: usize = 0;
    while j < n
        invariant
            j <= n,
            idx < n,
            r.len() == if idx < j { j - 1 } else { j as int },
            forall|k: int| 0 <= k < r.len() ==> (#[trigger] r@[k]) < j && r@[k] != idx,
            forall|k: int, l: int| 0 <= k < l < r.len() ==> r@[k] < r@[l],
        decreases n - j,
    {
        if j != idx {
            r.push(j);
        }
        j = j + 1;
    }
    r
}

/// Draws the plan of individual `idx`: each dimension mutates when a draw from
/// `[0, ratio.den)` falls below `ratio.num`, and three distinct donors are
/// taken from the other individuals.
pub fn draw_plan(rng: &mut StdRng, idx: usize, n: usize, ndim: usize, ratio: Fraction) -> (r: Plan)
    requires
        idx < n,
        n >= MIN_POPULATION,
        ratio.den > 0,
    ensures
        plan_fits(r, idx as int, n as int, ndim as nat),
        ratio.num <= 0 ==> forall|d: int| 0 <= d < ndim ==> !(#[trigger] r.dims@[d]),
        ratio.num >= ratio.den ==> forall|d: int| 0 <= d < ndim ==> (#[trigger] r.dims@[d]),
{
    let mut dims: Vec<bool> = Vec::with_capacity(ndim);
    let mut d: usize = 0;
    while d < ndim
        invariant
            d <= ndim,
            dims.len() == d,
            ratio.den > 0,
            ratio.num <= 0 ==> forall|k: int| 0 <= k < d ==> !(#[trigger] dims@[k]),
            ratio.num >= ratio.den ==> forall|k: int| 0 <= k < d ==> (#[trigger] dims@[k]),
        decreases ndim - d,
    {
        let u = draw_between(rng, 0, ratio.den as i64 - 1);
        dims.push(u < ratio.num as i64);
        d = d + 1;
    }
    let candidates = others(idx, n);
    let donors = choose_multiple(rng, candidates, DONORS);
    let ghost cands = candidates@;
    assert(cands.contains(donors@[0]) && cands.contains(donors@[1]) && cands.contains(donors@[2]));
    assert(donors@[0] != donors@[1] && donors@[0] != donors@[2] && donors@[1] != donors@[2]);
    Plan { dims, donor_a: donors[0], donor_b: donors[1], donor_c: donors[2] }
}

/// Plans for every individual of a population of `n`.
pub fn draw_plans(rng: &mut StdRng, n: usize, ndim: usize, ratio: Fraction) -> (r: Vec<Plan>)
    requires
        n >= MIN_POPULATION,
        ratio.den > 0,
    ensures
        plans_fit(r@, n as int, ndim as nat),
        plans_follow_ratio(r@, ratio, ndim as nat),
{
    let mut r: Vec<Plan> = Vec::with_capacity(n);
    let mut i: usize = 0;
    while i < n
        invariant
            i <= n,
            n >= MIN_POPULATION,
            ratio.den > 0,
            r.len() == i,
            forall|j: int| 0 <= j < i ==> plan_fits(#[trigger] r@[j], j, n as int, ndim as nat),
            plans_follow_ratio(r@, ratio, ndim as nat),
        decreases n - i,
    {
        let plan = draw_plan(rng, i, n, ndim, ratio);
        r.push(plan);
        i = i + 1;
    }
    r
}

/// What one generation does to the population and its least fitness.
proof fn lemma_generation_outcome(
    before: Seq<Individual>,
    next: Seq<Individual>,
    plans: Seq<Plan>,
    target: Seq<i32>,
    f: Fraction,
    bounds: Bounds,
    ratio: Fraction,
    best_before: i128,
    best_after: i128,
)
    requires
        next.len() == before.len(),
        well_shaped(before, target.len(), bounds),
        coherent(before, target),
        coherent(next, target),
        plans_fit(plans, before.len() as int, target.len()),
        forall|i: int|
            0 <= i < next.len() ==> (#[trigger] next[i]).position@ == next_position(
                before,
                i,
                plans[i],
                target,
                f,
                bounds,
            ),
        forall|i: int| 0 <= i < next.len() ==> (#[trigger] next[i]).fitness->Some_0 <= before[i].fitness->Some_0,
        plans_follow_ratio(plans, ratio, target.len()),
        is_min_fitness(before, best_before),
        is_min_fitness(next, best_after),
    ensures
        best_after <= best_before,
        ratio.num <= 0 ==> {
            &&& best_after == best_before
            &&& forall|i: int|
                0 <= i < before.len() ==> (#[trigger] next[i]).position@ == before[i].position@
                    && next[i].fitness == before[i].fitness
        },
{
    assert forall|i: int| 0 <= i < next.len() implies (#[trigger] next[i]).fitness is Some by {
        assert(is_coherent(next[i], target));
    }
    assert forall|i: int|
        0 <= i < next.len() && (#[trigger] before[i]).fitness is Some implies next[i].fitness->Some_0
        <= before[i].fitness->Some_0 by {
        assert(next[i].fitness->Some_0 <= before[i].fitness->Some_0);
    }
    lemma_best_fitness_never_rises(before, next, best_before, best_after);
    if ratio.num <= 0 {
        assert forall|i: int| 0 <= i < before.len() implies (#[trigger] next[i]).position@
            == before[i].position@ && next[i].fitness == before[i].fitness by {
            assert(plan_fits(plans[i], i, before.len() as int, target.len()));
            assert forall|d: int| 0 <= d < target.len() implies !(#[trigger] plans[i].dims@[d]) by {}
            lemma_unmutated_plan_keeps_position(before, i, plans[i], target, f, bounds);
            assert(is_coherent(next[i], target));
            assert(is_coherent(before[i], target));
        }
        assert(is_min_fitness(before, best_after)) by {
            let j = choose|j: int| 0 <= j < next.len() && (#[trigger] next[j]).fitness == Some(best_after);
            assert(before[j].fitness == Some(best_after));
            assert forall|k: int| 0 <= k < before.len() && (#[trigger] before[k]).fitness is Some implies best_after <= before[k].fitness->Some_0 by {
                assert(next[k].fitness == before[k].fitness);
            }
        }
        lemma_min_fitness_unique(before, best_after, best_before);
    }
}

/// The state of a run between generations.
#[derive(Debug)]
pub struct Optimizer {
    pub target: Vec<i32>,
    pub bounds: Bounds,
    pub mutation_ratio: Fraction,
    pub mutation_factor: Fraction,
    pub population: Vec<Individual>,
    /// The least fitness of the population.
    pub best: i128,
}

impl Optimizer {
    /// Settings within their ranges; every individual of the target's
    /// dimension, within the bounds, and evaluated; `best` the least fitness.
    pub open spec fn well_formed(&self) -> bool {
        &&& self.population.len() >= MIN_POPULATION
        &&& self.target.len() > 0
        &&& self.bounds.low <= self.bounds.high
        &&& self.mutation_ratio.den > 0
        &&& 0 <= self.mutation_ratio.num <= self.mutation_ratio.den
        &&& self.mutation_factor.den > 0
        &&& well_shaped(self.population@, self.target.len() as nat, self.bounds)
        &&& coherent(self.population@, self.target@)
        &&& is_min_fitness(self.population@, self.best)
    }

    /// Checks the settings, draws the initial population and evaluates it.
    pub fn new(opts: &Opts, target: Vec<i32>, rng: &mut StdRng) -> (r: Result<Optimizer, ConfigError>)
        ensures
            r is Err <==> config_error(*opts, target.len() as nat) is Some,
            r is Err ==> config_error(*opts, target.len() as nat) == Some(r->Err_0),
            r is Ok ==> {
                let o = r->Ok_0;
                &&& o.well_formed()
                &&& o.population.len() == opts.pop_sz
                &&& o.target@ == target@
                &&& o.bounds == bounds_of(*opts)
                &&& o.mutation_ratio == opts.mutation_ratio
                &&& o.mutation_factor == opts.mutation_factor
            },
    {
        match validate(opts, target.len()) {
            Err(e) => Err(e),
            Ok(()) => {
                let bounds = Bounds { low: opts.lower_limit, high: opts.upper_limit };
                let mut population = init_population(rng, opts.pop_sz, target.len(), bounds);
                let _ = evaluate(&mut population, &target, true);
                let best = Self::least_fitness(&population, &target);
                Ok(
                    Optimizer {
                        target,
                        bounds,
                        mutation_ratio: opts.mutation_ratio,
                        mutation_factor: opts.mutation_factor,
                        population,
                        best,
                    },
                )
            },
        }
    }

    fn least_fitness(pop: &Vec<Individual>, target: &Vec<i32>) -> (r: i128)
        requires
            pop.len() > 0,
            coherent(pop@, target@),
        ensures
            is_min_fitness(pop@, r),
    {
        proof {
            assert(is_coherent(pop@[0], target@));
        }
        match best_fitness(pop) {
            Some(b) => b,
            None => 0,
        }
    }

    /// Runs one generation: draws a plan for every individual, mutates and
    /// selects against the population as it stood, and records the least fitness.
    pub fn step(&mut self, rng: &mut StdRng) -> (r: i128)
        requires
            old(self).well_formed(),
        ensures
            final(self).well_formed(),
            r == final(self).best,
            final(self).best <= old(self).best,
            final(self).target == old(self).target,
            final(self).bounds == old(self).bounds,
            final(self).mutation_ratio == old(self).mutation_ratio,
            final(self).mutation_factor == old(self).mutation_factor,
            final(self).population.len() == old(self).population.len(),
            exists|plans: Seq<Plan>|
                #![trigger evolves_by(old(self).population@, final(self).population@, plans, old(self).target@, old(self).mutation_factor, old(self).bounds)]
                plans_follow_ratio(plans, old(self).mutation_ratio, old(self).target.len() as nat)
                    && evolves_by(
                    old(self).population@,
                    final(self).population@,
                    plans,
                    old(self).target@,
                    old(self).mutation_factor,
                    old(self).bounds,
                ),
            old(self).mutation_ratio.num == 0 ==> {
                &&& final(self).best == old(self).best
                &&& forall|i: int|
                    0 <= i < old(self).population.len() ==> (#[trigger] final(self).population[i]).position@
                        == old(self).population[i].position@ && final(self).population[i].fitness
                        == old(self).population[i].fitness
            },
    {
        let n = self.population.len();
        let plans = draw_plans(rng, n, self.target.len(), self.mutation_ratio);
        let next = evolve_generation(
            &self.population,
            &self.target,
            &plans,
            self.mutation_factor,
            self.bounds,
        );
        let best = Self::least_fitness(&next, &self.target);
        proof {
            lemma_generation_outcome(
                self.population@,
                next@,
                plans@,
                self.target@,
                self.mutation_factor,
                self.bounds,
                self.mutation_ratio,
                self.best,
                best,
            );
            assert(evolves_by(
                self.population@,
                next@,
                plans@,
                self.target@,
                self.mutation_factor,
                self.bounds,
            ));
        }
        self.population = next;
        self.best = best;
        best
    }
}

/// `trace` holds the population before the first generation and after each
/// one: generation `g` evolves `trace[g]` into `trace[g + 1]` under `plans[g]`,
/// which follow the mutation ratio, and `history[g]` is the least fitness of
/// `trace[g + 1]`.
pub open spec fn run_follows(
    trace: Seq<Seq<Individual>>,
    plans: Seq<Seq<Plan>>,
    history: Seq<i128>,
    target: Seq<i32>,
    ratio: Fraction,
    f: Fraction,
    bounds: Bounds,
) -> bool {
    &&& trace.len() == history.len() + 1
    &&& plans.len() == history.len()
    &&& forall|g: int|
        0 <= g < history.len() ==> {
            &&& plans_follow_ratio(#[trigger] plans[g], ratio, target.len())
            &&& evolves_by(trace[g], trace[g + 1], plans[g], target, f, bounds)
            &&& is_min_fitness(trace[g + 1], history[g])
        }
}

/// What a run leaves: the final population and the least fitness after each generation.
#[derive(Debug)]
pub struct RunReport {
    pub population: Vec<Individual>,
    pub history: Vec<i128>,
}

/// Runs `opts.generations` generations of differential evolution against
/// `inputs`, with random draws fixed by `seed`.
pub fn run_world(opts: Opts, inputs: Vec<i32>, seed: u64) -> (r: Result<RunReport, ConfigError>)
    ensures
        r is Err <==> config_error(opts, inputs.len() as nat) is Some,
        r is Err ==> config_error(opts, inputs.len() as nat) == Some(r->Err_0),
        r is Ok ==> {
            let rep = r->Ok_0;
            &&& rep.history.len() == opts.generations
            &&& rep.population.len() == opts.pop_sz
            &&& well_shaped(rep.population@, inputs.len() as nat, bounds_of(opts))
            &&& coherent(rep.population@, inputs@)
            &&& forall|g: int, h: int|
                0 <= g <= h < rep.history.len() ==> #[trigger] rep.history@[h] <= #[trigger] rep.history@[g]
            &&& rep.history.len() > 0 ==> is_min_fitness(rep.population@, rep.history@.last())
            &&& opts.mutation_ratio.num == 0 ==> forall|g: int|
                0 <= g < rep.history.len() ==> #[trigger] rep.history@[g] == rep.history@[0]
            &&& exists|trace: Seq<Seq<Individual>>, plans: Seq<Seq<Plan>>|
                #![trigger run_follows(trace, plans, rep.history@, inputs@, opts.mutation_ratio, opts.mutation_factor, bounds_of(opts))]
                {
                    &&& run_follows(
                        trace,
                        plans,
                        rep.history@,
                        inputs@,
                        opts.mutation_ratio,
                        opts.mutation_factor,
                        bounds_of(opts),
                    )
                    &&& trace[0].len() == opts.pop_sz
                    &&& well_shaped(trace[0], inputs.len() as nat, bounds_of(opts))
                    &&& coherent(trace[0], inputs@)
                    &&& trace.last() == rep.population@
                }
        },
{
    let ghost ndim = inputs.len();
    let ghost target = inputs@;
    let mut rng = seeded_rng(seed);
    let mut opt = match Optimizer::new(&opts, inputs, &mut rng) {
        Err(e) => {
            return Err(e);
        },
        Ok(o) => o,
    };
    let ghost first = opt.best;
    let ghost start = opt.population@;
    let ghost trace: Seq<Seq<Individual>> = seq![opt.population@];
    let ghost plan_trace: Seq<Seq<Plan>> = Seq::empty();
    let mut history: Vec<i128> = Vec::new();
    let mut g: u64 = 0;
    while g < opts.generations
        invariant
            opt.well_formed(),
            g <= opts.generations,
            history.len() == g,
            opt.population.len() == opts.pop_sz,
            opt.target@ == target,
            opt.target.len() == ndim,
            opt.bounds == bounds_of(opts),
            opt.mutation_ratio == opts.mutation_ratio,
            opt.mutation_factor == opts.mutation_factor,
            start.len() == opts.pop_sz,
            well_shaped(start, ndim as nat, bounds_of(opts)),
            coherent(start, target),
            trace[0] == start,
            trace.last() == opt.population@,
            run_follows(
                trace,
                plan_trace,
                history@,
                target,
                opts.mutation_ratio,
                opts.mutation_factor,
                bounds_of(opts),
            ),
            forall|a: int, b: int|
                0 <= a <= b < history.len() ==> #[trigger] history@[b] <= #[trigger] history@[a],
            history.len() > 0 ==> history@.last() == opt.best,
            opts.mutation_ratio.num == 0 ==> opt.best == first,
            opts.mutation_ratio.num == 0 ==> forall|a: int|
                0 <= a < history.len() ==> #[trigger] history@[a] == first,
        decreases opts.generations - g,
    {
        let ghost before = opt.population@;
        let ghost old_history = history@;
        let best = opt.step(&mut rng);
        let ghost plans = choose|p: Seq<Plan>|
            plans_follow_ratio(p, opts.mutation_ratio, ndim as nat) && evolves_by(
                before,
                opt.population@,
                p,
                target,
                opts.mutation_factor,
                bounds_of(opts),
            );
        history.push(best);
        proof {
            let old_trace = trace;
            let old_plans = plan_trace;
            trace = trace.push(opt.population@);
            plan_trace = plan_trace.push(plans);
            assert forall|k: int| 0 <= k < history@.len() implies {
                &&& plans_follow_ratio(#[trigger] plan_trace[k], opts.mutation_ratio, target.len())
                &&& evolves_by(trace[k], trace[k + 1], plan_trace[k], target, opts.mutation_factor, bounds_of(opts))
                &&& is_min_fitness(trace[k + 1], history@[k])
            } by {
                if k < old_history.len() {
                    assert(old_plans[k] == plan_trace[k]);
                    assert(old_trace[k] == trace[k]);
                    assert(old_trace[k + 1] == trace[k + 1]);
                    assert(old_history[k] == history@[k]);
                }
            }
        }
        g = g + 1;
    }
    Ok(RunReport { population: opt.population, history })
}

} // verus!
