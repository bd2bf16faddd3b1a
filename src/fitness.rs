use vstd::prelude::*;

verus! {

/// Largest magnitude of the product of two `i32` values.
pub const PRODUCT_BOUND: i128 = 0x4000_0000_0000_0000;

/// Sum of the elementwise products of `target` and `position` over the first `n` dimensions.
pub open spec fn dot_prefix(target: Seq<i32>, position: Seq<i32>, n: int) -> int
    decreases n,
{
    if n <= 0 {
        0
    } else {
        dot_prefix(target, position, n - 1) + target[n - 1] * position[n - 1]
    }
}

/// The fitness model: the sum of elementwise products of `target` and `position`.
/// Lower is better.
pub open spec fn dot(target: Seq<i32>, position: Seq<i32>) -> int {
    dot_prefix(target, position, target.len() as int)
}

proof fn lemma_product_bound(a: i32, b: i32)
    ensures
        -PRODUCT_BOUND <= (a as int) * (b as int) <= PRODUCT_BOUND,
{
    assert(-PRODUCT_BOUND <= (a as int) * (b as int) <= PRODUCT_BOUND) by (nonlinear_arith)
        requires
            -0x8000_0000 <= a as int <= 0x7fff_ffff,
            -0x8000_0000 <= b as int <= 0x7fff_ffff,
    ;
}

/// The fitness of `position` against `target`, for vectors of equal length.
pub fn dot_product(target: &Vec<i32>, position: &Vec<i32>) -> (r: i128)
    requires
        target.len() == position.len(),
    ensures
        r == dot(target@, position@),
{
    let mut acc: i128 = 0;
    let mut i: usize = 0;
    while i < target.len()
        invariant
            i <= target.len(),
            target.len() == position.len(),
            acc == dot_prefix(target@, position@, i as int),
            -(i * PRODUCT_BOUND) <= acc <= i * PRODUCT_BOUND,
        decreases target.len() - i,
    {
        let t = target[i];
        let p = position[i];
        proof {
            lemma_product_bound(t, p);
        }
        let prod: i64 = (t as i64) * (p as i64);
        acc = acc + prod as i128;
        i = i + 1;
    }
    acc
}

/// The target and the position have different lengths.
#[derive(Debug, Clone, Copy, PartialEq, Eq)]
pub struct DimensionMismatch {
    pub expected: usize,
    pub found: usize,
}

/// The fitness of `weights` against `input`, or an error when their lengths differ.
pub fn eval_fitness(input: &Vec<i32>, weights: &Vec<i32>) -> (r: Result<i128, DimensionMismatch>)
    ensures
        r is Ok <==> input.len() == weights.len(),
        r is Ok ==> r->Ok_0 == dot(input@, weights@),
        r is Err ==> r->Err_0.expected == input.len() && r->Err_0.found == weights.len(),
{
    if input.len() == weights.len() {
        Ok(dot_product(input, weights))
    } else {
        Err(DimensionMismatch { expected: input.len(), found: weights.len() })
    }
}

} // verus!
