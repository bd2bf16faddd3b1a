use vstd::prelude::*;

use crate::engine::run_follows;
use crate::evolve::{evolves_by, next_position, plan_fits, trial_of, Fraction, Plan};
use crate::population::{
    coherent, is_coherent, is_min_fitness, same_members, well_shaped, Bounds, Individual,
};

verus! {

/// A population has one least fitness.
pub proof fn lemma_min_fitness_unique(pop: Seq<Individual>, a: i128, b: i128)
    requires
        is_min_fitness(pop, a),
        is_min_fitness(pop, b),
    ensures
        a == b,
{
    let i = choose|i: int| 0 <= i < pop.len() && (#[trigger] pop[i]).fitness == Some(a);
    let j = choose|j: int| 0 <= j < pop.len() && (#[trigger] pop[j]).fitness == Some(b);
    assert(pop[j].fitness is Some);
    assert(pop[i].fitness is Some);
}

/// The best fitness never rises: when no individual's fitness rises from one
/// population to the next, the least fitness of the next is at most that of the first.
pub proof fn lemma_best_fitness_never_rises(
    before: Seq<Individual>,
    after: Seq<Individual>,
    best_before: i128,
    best_after: i128,
)
    requires
        after.len() == before.len(),
        forall|i: int| 0 <= i < after.len() ==> (#[trigger] after[i]).fitness is Some,
        forall|i: int|
            0 <= i < after.len() && (#[trigger] before[i]).fitness is Some ==> after[i].fitness->Some_0
                <= before[i].fitness->Some_0,
        is_min_fitness(before, best_before),
        is_min_fitness(after, best_after),
    ensures
        best_after <= best_before,
{
    let j = choose|j: int| 0 <= j < before.len() && (#[trigger] before[j]).fitness == Some(best_before);
    assert(before[j].fitness is Some);
    assert(after[j].fitness is Some);
}

/// A plan that mutates no dimension leaves the individual where it stands.
pub proof fn lemma_unmutated_plan_keeps_position(
    pop: Seq<Individual>,
    idx: int,
    plan: Plan,
    target: Seq<i32>,
    f: Fraction,
    bounds: Bounds,
)
    requires
        0 <= idx < pop.len(),
        well_shaped(pop, target.len(), bounds),
        coherent(pop, target),
        plan_fits(plan, idx, pop.len() as int, target.len()),
        forall|d: int| 0 <= d < target.len() ==> !(#[trigger] plan.dims@[d]),
    ensures
        trial_of(pop, idx, plan, f, bounds) == pop[idx].position@,
        next_position(pop, idx, plan, target, f, bounds) == pop[idx].position@,
{
    assert(is_coherent(pop[idx], target));
    assert(trial_of(pop, idx, plan, f, bounds) =~= pop[idx].position@);
}

/// A generation is determined by the population, the target, the plans, the
/// mutation factor and the bounds: two outcomes that both keep every
/// individual's fitness coherent with its next position are equal.
pub proof fn lemma_generation_determined(
    pop: Seq<Individual>,
    target: Seq<i32>,
    plans: Seq<Plan>,
    f: Fraction,
    bounds: Bounds,
    first: Seq<Individual>,
    second: Seq<Individual>,
)
    requires
        first.len() == pop.len(),
        second.len() == pop.len(),
        coherent(first, target),
        coherent(second, target),
        forall|i: int|
            0 <= i < pop.len() ==> (#[trigger] first[i]).position@ == next_position(
                pop,
                i,
                plans[i],
                target,
                f,
                bounds,
            ),
        forall|i: int|
            0 <= i < pop.len() ==> (#[trigger] second[i]).position@ == next_position(
                pop,
                i,
                plans[i],
                target,
                f,
                bounds,
            ),
    ensures
        forall|i: int|
            0 <= i < pop.len() ==> (#[trigger] first[i]).position@ == second[i].position@
                && first[i].fitness == second[i].fitness,
{
    assert forall|i: int| 0 <= i < pop.len() implies (#[trigger] first[i]).position@
        == second[i].position@ && first[i].fitness == second[i].fitness by {
        assert(is_coherent(first[i], target));
        assert(is_coherent(second[i], target));
    }
}

/// Populations with the same members have the same least fitness.
pub proof fn lemma_same_members_same_min(a: Seq<Individual>, b: Seq<Individual>, ma: i128, mb: i128)
    requires
        same_members(a, b),
        is_min_fitness(a, ma),
        is_min_fitness(b, mb),
    ensures
        ma == mb,
{
    let j = choose|j: int| 0 <= j < b.len() && (#[trigger] b[j]).fitness == Some(mb);
    assert(a[j].fitness == Some(mb));
    assert forall|k: int| 0 <= k < a.len() && (#[trigger] a[k]).fitness is Some implies mb
        <= a[k].fitness->Some_0 by {
        assert(b[k].fitness == a[k].fitness);
    }
    lemma_min_fitness_unique(a, ma, mb);
}

/// One generation under the same plans takes populations with the same
/// members to populations with the same members.
pub proof fn lemma_generation_respects_members(
    before1: Seq<Individual>,
    before2: Seq<Individual>,
    after1: Seq<Individual>,
    after2: Seq<Individual>,
    plans: Seq<Plan>,
    target: Seq<i32>,
    f: Fraction,
    bounds: Bounds,
)
    requires
        same_members(before1, before2),
        evolves_by(before1, after1, plans, target, f, bounds),
        evolves_by(before2, after2, plans, target, f, bounds),
    ensures
        same_members(after1, after2),
{
    assert forall|i: int| 0 <= i < after1.len() implies (#[trigger] after1[i]).position@
        == after2[i].position@ && after1[i].fitness == after2[i].fitness by {
        let plan = plans[i];
        assert(trial_of(before1, i, plan, f, bounds) =~= trial_of(before2, i, plan, f, bounds));
        assert(before1[i].fitness == before2[i].fitness);
        assert(is_coherent(after1[i], target));
        assert(is_coherent(after2[i], target));
    }
}

proof fn lemma_runs_agree_up_to(
    trace1: Seq<Seq<Individual>>,
    trace2: Seq<Seq<Individual>>,
    plans: Seq<Seq<Plan>>,
    history1: Seq<i128>,
    history2: Seq<i128>,
    target: Seq<i32>,
    ratio: Fraction,
    f: Fraction,
    bounds: Bounds,
    g: int,
)
    requires
        run_follows(trace1, plans, history1, target, ratio, f, bounds),
        run_follows(trace2, plans, history2, target, ratio, f, bounds),
        history1.len() == history2.len(),
        same_members(trace1[0], trace2[0]),
        0 <= g <= history1.len(),
    ensures
        same_members(trace1[g], trace2[g]),
        forall|k: int| 0 <= k < g ==> #[trigger] history1[k] == history2[k],
    decreases g,
{
    if g > 0 {
        lemma_runs_agree_up_to(trace1, trace2, plans, history1, history2, target, ratio, f, bounds, g - 1);
        let k = g - 1;
        lemma_generation_respects_members(
            trace1[k],
            trace2[k],
            trace1[g],
            trace2[g],
            plans[k],
            target,
            f,
            bounds,
        );
        lemma_same_members_same_min(trace1[g], trace2[g], history1[k], history2[k]);
    }
}

/// A run is determined by its starting population and its random draws: two
/// runs of equal length from populations with the same members, under the
/// same plans, report the same least fitness after every generation and hold
/// populations with the same members throughout.
pub proof fn lemma_run_determined(
    trace1: Seq<Seq<Individual>>,
    trace2: Seq<Seq<Individual>>,
    plans: Seq<Seq<Plan>>,
    history1: Seq<i128>,
    history2: Seq<i128>,
    target: Seq<i32>,
    ratio: Fraction,
    f: Fraction,
    bounds: Bounds,
)
    requires
        run_follows(trace1, plans, history1, target, ratio, f, bounds),
        run_follows(trace2, plans, history2, target, ratio, f, bounds),
        history1.len() == history2.len(),
        same_members(trace1[0], trace2[0]),
    ensures
        history1 == history2,
        forall|g: int| 0 <= g < trace1.len() ==> same_members(#[trigger] trace1[g], trace2[g]),
{
    assert forall|g: int| 0 <= g < trace1.len() implies same_members(#[trigger] trace1[g], trace2[g]) by {
        lemma_runs_agree_up_to(trace1, trace2, plans, history1, history2, target, ratio, f, bounds, g);
    }
    lemma_runs_agree_up_to(
        trace1,
        trace2,
        plans,
        history1,
        history2,
        target,
        ratio,
        f,
        bounds,
        history1.len() as int,
    );
    assert(history1 =~= history2);
}

} // verus!
