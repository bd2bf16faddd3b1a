use vstd::prelude::*;

use rand::rngs::StdRng;
use rand::seq::IteratorRandom;
use rand::Rng;
use rand::SeedableRng;

verus! {

#[verifier::external_type_specification]
#[verifier::external_body]
pub struct ExStdRng(StdRng);

/// Relies on rand's `SeedableRng::seed_from_u64`: a generator whose draws are
/// fixed by `seed`.
#[verifier::external_body]
pub(crate) fn seeded_rng(seed: u64) -> StdRng {
    StdRng::seed_from_u64(seed)
}

/// Relies on rand's `Rng::gen_range` over an inclusive range: a value in
/// `[low, high]`. It panics on an empty range, which `requires` leaves out.
#[verifier::external_body]
pub(crate) fn draw_between(rng: &mut StdRng, low: i64, high: i64) -> (r: i64)
    requires
        low <= high,
    ensures
        low <= r <= high,
{
    rng.gen_range(low..=high)
}

/// Relies on rand's `IteratorRandom::choose_multiple`: `amount` items of the
/// iterator, or all of them when it holds fewer, each taken from a distinct
/// place in it.
#[verifier::external_body]
pub(crate) fn choose_multiple(rng: &mut StdRng, candidates: Vec<usize>, amount: usize) -> (r: Vec<usize>)
    ensures
        r.len() == if candidates.len() < amount {
            candidates.len()
        } else {
            amount
        },
        forall|k: int| 0 <= k < r.len() ==> candidates@.contains(#[trigger] r@[k]),
        candidates@.no_duplicates() ==> r@.no_duplicates(),
{
    candidates.into_iter().choose_multiple(rng, amount)
}

} // verus!
