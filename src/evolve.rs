use vstd::prelude::*;

use crate::fitness::{dot, dot_product};
use crate::population::{
    coherent, copy_position, is_coherent, well_shaped, within, Bounds, Individual,
};

verus! {

/// A rational number `num / den`, used for the mutation ratio and the mutation factor.
#[derive(Debug, Clone, Copy, PartialEq, Eq)]
pub struct Fraction {
    pub num: i32,
    pub den: u32,
}

/// The random choices made for one individual in one generation: which
/// dimensions mutate, and the three donors.
#[derive(Debug)]
pub struct Plan {
    pub dims: Vec<bool>,
    pub donor_a: usize,
    pub donor_b: usize,
    pub donor_c: usize,
}

pub open spec fn clamp(v: int, low: int, high: int) -> int {
    if v < low {
        low
    } else if v > high {
        high
    } else {
        v
    }
}

/// Integer division rounding toward zero.
pub open spec fn div_toward_zero(x: int, d: int) -> int {
    if x >= 0 {
        x / d
    } else {
        -((-x) / d)
    }
}

/// `x` scaled by the fraction `f`, rounded toward zero.
pub open spec fn scaled(f: Fraction, x: int) -> int {
    div_toward_zero(f.num * x, f.den as int)
}

/// The mutated value of one dimension: `a + f * (b - c)`, clamped to the bounds.
pub open spec fn mutant(a: i32, b: i32, c: i32, f: Fraction, bounds: Bounds) -> int {
    clamp(a + scaled(f, b - c), bounds.low as int, bounds.high as int)
}

/// The plan suits individual `idx` of a population of `n` with `dims` dimensions:
/// three distinct donors other than `idx`, and one choice per dimension.
pub open spec fn plan_fits(plan: Plan, idx: int, n: int, dims: nat) -> bool {
    &&& plan.dims@.len() == dims
    &&& plan.donor_a < n && plan.donor_b < n && plan.donor_c < n
    &&& plan.donor_a != idx && plan.donor_b != idx && plan.donor_c != idx
    &&& plan.donor_a != plan.donor_b && plan.donor_a != plan.donor_c && plan.donor_b != plan.donor_c
}

/// Every individual has a plan that suits it.
pub open spec fn plans_fit(plans: Seq<Plan>, n: int, dims: nat) -> bool {
    &&& plans.len() == n
    &&& forall|i: int| 0 <= i < n ==> plan_fits(#[trigger] plans[i], i, n, dims)
}

/// The trial vector of individual `idx`: a copy of its position where each chosen
/// dimension takes the mutated value of the donors' components.
pub open spec fn trial_of(pop: Seq<Individual>, idx: int, plan: Plan, f: Fraction, bounds: Bounds) -> Seq<i32> {
    Seq::new(
        pop[idx].position@.len(),
        |d: int|
            if plan.dims@[d] {
                mutant(
                    pop[plan.donor_a as int].position@[d],
                    pop[plan.donor_b as int].position@[d],
                    pop[plan.donor_c as int].position@[d],
                    f,
                    bounds,
                ) as i32
            } else {
                pop[idx].position@[d]
            },
    )
}

/// Greedy selection: a trial replaces the individual only when its fitness is strictly lower.
pub open spec fn accepts(trial_fitness: int, current: Individual) -> bool {
    current.fitness is Some && trial_fitness < current.fitness->Some_0
}

/// The position of individual `idx` after one generation.
pub open spec fn next_position(
    pop: Seq<Individual>,
    idx: int,
    plan: Plan,
    target: Seq<i32>,
    f: Fraction,
    bounds: Bounds,
) -> Seq<i32> {
    let trial = trial_of(pop, idx, plan, f, bounds);
    if accepts(dot(target, trial), pop[idx]) {
        trial
    } else {
        pop[idx].position@
    }
}

/// The plans follow the mutation ratio where it leaves no choice: at a ratio
/// of zero no dimension mutates, at a ratio of one every dimension does.
pub open spec fn plans_follow_ratio(plans: Seq<Plan>, ratio: Fraction, dims: nat) -> bool {
    &&& ratio.num <= 0 ==> forall|i: int, d: int|
        0 <= i < plans.len() && 0 <= d < dims ==> !(#[trigger] plans[i].dims@[d])
    &&& ratio.num >= ratio.den ==> forall|i: int, d: int|
        0 <= i < plans.len() && 0 <= d < dims ==> (#[trigger] plans[i].dims@[d])
}

/// `after` is `before` evolved by one generation under `plans`: every
/// individual takes its next position and carries that position's fitness.
pub open spec fn evolves_by(
    before: Seq<Individual>,
    after: Seq<Individual>,
    plans: Seq<Plan>,
    target: Seq<i32>,
    f: Fraction,
    bounds: Bounds,
) -> bool {
    &&& plans_fit(plans, before.len() as int, target.len())
    &&& after.len() == before.len()
    &&& coherent(after, target)
    &&& forall|i: int|
        0 <= i < after.len() ==> (#[trigger] after[i]).position@ == next_position(
            before,
            i,
            plans[i],
            target,
            f,
            bounds,
        )
}

/// Computes `a + f * (b - c)` rounded toward zero and clamped to the bounds.
pub fn mutate_value(a: i32, b: i32, c: i32, f: Fraction, bounds: Bounds) -> (r: i32)
    requires
        f.den > 0,
        bounds.low <= bounds.high,
    ensures
        r == mutant(a, b, c, f, bounds),
        bounds.low <= r <= bounds.high,
{
    let diff: i64 = b as i64 - c as i64;
    let num: i128 = f.num as i128;
    let wide: i128 = diff as i128;
    assert(-0x8000_0000_0000_0000 <= num * wide <= 0x8000_0000_0000_0000) by (nonlinear_arith)
        requires
            -0x8000_0000 <= num <= 0x7fff_ffff,
            -0x1_0000_0000 <= wide <= 0x1_0000_0000,
    ;
    let prod: i128 = num * wide;
    let den: u128 = f.den as u128;
    let q: i128 = if prod >= 0 {
        let m: u128 = prod as u128;
        assert(m / den <= m) by (nonlinear_arith)
            requires
                den >= 1,
                m >= 0,
        ;
        (m / den) as i128
    } else {
        let m: u128 = (-prod) as u128;
        assert(m / den <= m) by (nonlinear_arith)
            requires
                den >= 1,
                m >= 0,
        ;
        -((m / den) as i128)
    };
    assert(q == scaled(f, b - c));
    let v: i128 = a as i128 + q;
    if v < bounds.low as i128 {
        bounds.low
    } else if v > bounds.high as i128 {
        bounds.high
    } else {
        v as i32
    }
}

/// Builds the trial vector of individual `idx` from the population as it stood
/// at the start of the generation.
pub fn build_trial(pop: &Vec<Individual>, idx: usize, plan: &Plan, f: Fraction, bounds: Bounds) -> (r: Vec<i32>)
    requires
        idx < pop.len(),
        well_shaped(pop@, pop@[idx as int].position@.len(), bounds),
        plan_fits(*plan, idx as int, pop.len() as int, pop@[idx as int].position@.len()),
        f.den > 0,
        bounds.low <= bounds.high,
    ensures
        r@ == trial_of(pop@, idx as int, *plan, f, bounds),
        within(r@, bounds),
{
    let own = &pop[idx].position;
    let pa = &pop[plan.donor_a].position;
    let pb = &pop[plan.donor_b].position;
    let pc = &pop[plan.donor_c].position;
    let ghost spec_trial = trial_of(pop@, idx as int, *plan, f, bounds);
    let mut r: Vec<i32> = Vec::with_capacity(own.len());
    let mut d: usize = 0;
    while d < own.len()
        invariant
            d <= own.len(),
            own@ == pop@[idx as int].position@,
            pa@ == pop@[plan.donor_a as int].position@,
            pb@ == pop@[plan.donor_b as int].position@,
            pc@ == pop@[plan.donor_c as int].position@,
            pa.len() == own.len() && pb.len() == own.len() && pc.len() == own.len(),
            plan.dims.len() == own.len(),
            within(own@, bounds),
            spec_trial == trial_of(pop@, idx as int, *plan, f, bounds),
            spec_trial.len() == own.len(),
            r@ == spec_trial.subrange(0, d as int),
            within(r@, bounds),
            f.den > 0,
            bounds.low <= bounds.high,
        decreases own.len() - d,
    {
        let v = if plan.dims[d] {
            mutate_value(pa[d], pb[d], pc[d], f, bounds)
        } else {
            own[d]
        };
        r.push(v);
        d = d + 1;
    }
    assert(r@ =~= spec_trial);
    r
}

/// Greedy selection: returns the trial with its fitness when that fitness is
/// strictly lower than the individual's, and the individual unchanged otherwise.
pub fn select_greedy(current: Individual, trial: Vec<i32>, target: &Vec<i32>) -> (r: Individual)
    requires
        current.fitness is Some,
        trial.len() == target.len(),
    ensures
        accepts(dot(target@, trial@), current) ==> r.position@ == trial@ && is_coherent(r, target@),
        !accepts(dot(target@, trial@), current) ==> r.position@ == current.position@ && r.fitness
            == current.fitness,
{
    let trial_fitness = dot_product(target, &trial);
    match current.fitness {
        Some(f) if trial_fitness < f => Individual { position: trial, fitness: Some(trial_fitness) },
        _ => current,
    }
}

/// One generation of mutation and selection. Every trial is built from the
/// population as it stood at the start of the generation; the result is a
/// fresh population in which each individual holds its own outcome.
pub fn evolve_generation(
    pop: &Vec<Individual>,
    target: &Vec<i32>,
    plans: &Vec<Plan>,
    f: Fraction,
    bounds: Bounds,
) -> (r: Vec<Individual>)
    requires
        well_shaped(pop@, target.len() as nat, bounds),
        coherent(pop@, target@),
        plans_fit(plans@, pop.len() as int, target.len() as nat),
        f.den > 0,
        bounds.low <= bounds.high,
    ensures
        r.len() == pop.len(),
        forall|i: int|
            0 <= i < r.len() ==> (#[trigger] r[i]).position@ == next_position(
                pop@,
                i,
                plans@[i],
                target@,
                f,
                bounds,
            ),
        well_shaped(r@, target.len() as nat, bounds),
        coherent(r@, target@),
        forall|i: int| 0 <= i < r.len() ==> (#[trigger] r[i]).fitness->Some_0 <= pop[i].fitness->Some_0,
{
    let mut r: Vec<Individual> = Vec::with_capacity(pop.len());
    let mut i: usize = 0;
    while i < pop.len()
        invariant
            i <= pop.len(),
            r.len() == i,
            well_shaped(pop@, target.len() as nat, bounds),
            coherent(pop@, target@),
            plans_fit(plans@, pop.len() as int, target.len() as nat),
            f.den > 0,
            bounds.low <= bounds.high,
            forall|j: int|
                0 <= j < i ==> (#[trigger] r[j]).position@ == next_position(
                    pop@,
                    j,
                    plans@[j],
                    target@,
                    f,
                    bounds,
                ),
            well_shaped(r@, target.len() as nat, bounds),
            coherent(r@, target@),
            forall|j: int| 0 <= j < i ==> (#[trigger] r[j]).fitness->Some_0 <= pop[j].fitness->Some_0,
        decreases pop.len() - i,
    {
        assert(is_coherent(pop@[i as int], target@));
        assert(plan_fits(plans@[i as int], i as int, pop.len() as int, target.len() as nat));
        let trial = build_trial(pop, i, &plans[i], f, bounds);
        let current = Individual { position: copy_position(&pop[i].position), fitness: pop[i].fitness };
        let next = select_greedy(current, trial, target);
        r.push(next);
        i = i + 1;
    }
    r
}

} // verus!
