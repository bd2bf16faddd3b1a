use vstd::prelude::*;

use crate::fitness::{dot, dot_product, DimensionMismatch};

verus! {

/// Box constraints applied to every dimension.
#[derive(Debug, Clone, Copy, PartialEq, Eq)]
pub struct Bounds {
    pub low: i32,
    pub high: i32,
}

/// One candidate: a position and its cached fitness, `None` until evaluated.
#[derive(Debug)]
pub struct Individual {
    pub position: Vec<i32>,
    pub fitness: Option<i128>,
}

/// Every component of `position` lies within `bounds`.
pub open spec fn within(position: Seq<i32>, bounds: Bounds) -> bool {
    forall|d: int| 0 <= d < position.len() ==> bounds.low <= #[trigger] position[d] <= bounds.high
}

/// Every individual has a position of `dims` components, each within `bounds`.
pub open spec fn well_shaped(pop: Seq<Individual>, dims: nat, bounds: Bounds) -> bool {
    forall|i: int|
        0 <= i < pop.len() ==> {
            &&& (#[trigger] pop[i]).position@.len() == dims
            &&& within(pop[i].position@, bounds)
        }
}

/// The cached fitness of the individual is the fitness of its current position.
pub open spec fn is_coherent(ind: Individual, target: Seq<i32>) -> bool {
    &&& ind.fitness is Some
    &&& ind.fitness->Some_0 == dot(target, ind.position@)
}

/// Every individual carries the fitness of its current position.
pub open spec fn coherent(pop: Seq<Individual>, target: Seq<i32>) -> bool {
    forall|i: int| 0 <= i < pop.len() ==> is_coherent(#[trigger] pop[i], target)
}

/// The two populations hold the same positions and fitness values, index by index.
pub open spec fn same_members(a: Seq<Individual>, b: Seq<Individual>) -> bool {
    &&& a.len() == b.len()
    &&& forall|i: int|
        0 <= i < a.len() ==> (#[trigger] a[i]).position@ == b[i].position@ && a[i].fitness
            == b[i].fitness
}

/// `m` is the least fitness found among the evaluated individuals.
pub open spec fn is_min_fitness(pop: Seq<Individual>, m: i128) -> bool {
    &&& exists|i: int| 0 <= i < pop.len() && (#[trigger] pop[i]).fitness == Some(m)
    &&& forall|i: int|
        0 <= i < pop.len() && (#[trigger] pop[i]).fitness is Some ==> m <= pop[i].fitness->Some_0
}

/// Copies a position component by component.
pub fn copy_position(position: &Vec<i32>) -> (r: Vec<i32>)
    ensures
        r@ == position@,
{
    let mut r: Vec<i32> = Vec::with_capacity(position.len());
    let mut i: usize = 0;
    while i < position.len()
        invariant
            i <= position.len(),
            r@ == position@.subrange(0, i as int),
        decreases position.len() - i,
    {
        r.push(position[i]);
        i = i + 1;
    }
    assert(r@ =~= position@);
    r
}

/// Some individual's position differs in length from the target.
pub open spec fn has_mismatch(pop: Seq<Individual>, target: Seq<i32>) -> bool {
    exists|i: int| 0 <= i < pop.len() && (#[trigger] pop[i]).position@.len() != target.len()
}

/// Computes the fitness of every individual that has none, or of every
/// individual when `all` is set. Positions are left as they are. When some
/// position differs in length from the target, nothing is evaluated and the
/// first such length is reported.
pub fn evaluate(pop: &mut Vec<Individual>, target: &Vec<i32>, all: bool) -> (r: Result<
    (),
    DimensionMismatch,
>)
    ensures
        r is Err <==> has_mismatch(old(pop)@, target@),
        r is Err ==> {
            &&& final(pop)@ == old(pop)@
            &&& r->Err_0.expected == target.len()
            &&& exists|i: int|
                0 <= i < old(pop).len() && (#[trigger] old(pop)[i]).position.len() == r->Err_0.found
                    && r->Err_0.found != target.len()
        },
        final(pop).len() == old(pop).len(),
        r is Ok ==> forall|i: int|
            0 <= i < final(pop).len() ==> {
                &&& (#[trigger] final(pop)[i]).position@ == old(pop)[i].position@
                &&& if all || old(pop)[i].fitness is None {
                    is_coherent(final(pop)[i], target@)
                } else {
                    final(pop)[i].fitness == old(pop)[i].fitness
                }
            },
{
    let mut k: usize = 0;
    while k < pop.len()
        invariant
            k <= pop.len(),
            pop@ == old(pop)@,
            forall|j: int| 0 <= j < k ==> (#[trigger] pop[j]).position@.len() == target.len(),
        decreases pop.len() - k,
    {
        let found = pop[k].position.len();
        if found != target.len() {
            return Err(DimensionMismatch { expected: target.len(), found });
        }
        k = k + 1;
    }
    let mut i: usize = 0;
    while i < pop.len()
        invariant
            i <= pop.len(),
            pop.len() == old(pop).len(),
            forall|j: int| 0 <= j < old(pop).len() ==> (#[trigger] old(pop)[j]).position@.len() == target.len(),
            forall|j: int| 0 <= j < pop.len() ==> (#[trigger] pop[j]).position@ == old(pop)[j].position@,
            forall|j: int|
                0 <= j < i ==> if all || old(pop)[j].fitness is None {
                    is_coherent(#[trigger] pop[j], target@)
                } else {
                    pop[j].fitness == old(pop)[j].fitness
                },
            forall|j: int| i <= j < pop.len() ==> (#[trigger] pop[j]).fitness == old(pop)[j].fitness,
        decreases pop.len() - i,
    {
        if all || pop[i].fitness.is_none() {
            let value = dot_product(target, &pop[i].position);
            pop[i].fitness = Some(value);
        }
        i = i + 1;
    }
    Ok(())
}

/// The least fitness in the population, `None` when no individual is evaluated.
/// Of equal values the first is kept.
pub fn best_fitness(pop: &Vec<Individual>) -> (r: Option<i128>)
    ensures
        r is None <==> forall|i: int| 0 <= i < pop.len() ==> (#[trigger] pop[i]).fitness is None,
        r is Some ==> is_min_fitness(pop@, r->Some_0),
{
    let mut best: Option<i128> = None;
    let mut i: usize = 0;
    while i < pop.len()
        invariant
            i <= pop.len(),
            best is None <==> forall|j: int| 0 <= j < i ==> (#[trigger] pop[j]).fitness is None,
            best is Some ==> is_min_fitness(pop@.subrange(0, i as int), best->Some_0),
        decreases pop.len() - i,
    {
        let ghost prefix = pop@.subrange(0, i as int);
        let ghost next = pop@.subrange(0, i as int + 1);
        assert(forall|j: int| 0 <= j < i ==> next[j] == prefix[j]);
        assert(next[i as int] == pop[i as int]);
        match pop[i].fitness {
            Some(f) => {
                match best {
                    Some(b) => {
                        if f < b {
                            best = Some(f);
                        }
                    },
                    None => {
                        best = Some(f);
                    },
                }
            },
            None => {},
        }
        i = i + 1;
    }
    assert(pop@.subrange(0, pop.len() as int) =~= pop@);
    best
}

} // verus!
