//! Helpers over booleans and integer sequences.

use vstd::prelude::*;

verus! {

/// Logical negation of a boolean.
pub fn flip(b: bool) -> (r: bool)
    ensures
        r == !b,
{
    !b
}

/// Mathematical sum of a sequence of machine integers.
pub open spec fn sum_of(s: Seq<i32>) -> int
    decreases s.len(),
{
    if s.len() == 0 {
        0
    } else {
        sum_of(s.drop_last()) + s.last()
    }
}

/// Adds up a slice of integers. Every prefix sum must fit in an `i32`, which
/// rules out overflow along the way.
pub fn sum(nums: &[i32]) -> (r: i32)
    requires
        forall|i: int|
            0 <= i <= nums@.len() ==> i32::MIN <= sum_of(#[trigger] nums@.take(i)) <= i32::MAX,
    ensures
        r == sum_of(nums@),
{
    let mut total: i32 = 0;
    let mut j: usize = 0;
    while j < nums.len()
        invariant
            0 <= j <= nums@.len(),
            total == sum_of(nums@.take(j as int)),
            forall|i: int|
                0 <= i <= nums@.len() ==> i32::MIN <= sum_of(#[trigger] nums@.take(i)) <= i32::MAX,
        decreases nums@.len() - j,
    {
        proof {
            assert(nums@.take(j + 1).drop_last() =~= nums@.take(j as int));
        }
        total = total + nums[j];
        j = j + 1;
    }
    proof {
        assert(nums@.take(nums@.len() as int) =~= nums@);
    }
    total
}

/// Lists the squares of the even numbers up to `n`, in increasing order:
/// the element at index `i` is `(2 * i)^2`. The bound on `n` keeps every
/// square within `u32` range.
pub fn even_squares(n: u32) -> (r: Vec<u32>)
    requires
        n <= 65535,
    ensures
        r@.len() == n / 2 + 1,
        forall|i: int| 0 <= i < r@.len() ==> r@[i] == 4 * i * i,
{
    let m = n / 2;
    let mut r: Vec<u32> = Vec::new();
    let mut k: u32 = 0;
    while k <= m
        invariant
            m == n / 2,
            n <= 65535,
            k <= m + 1,
            r@.len() == k,
            forall|i: int| 0 <= i < r@.len() ==> r@[i] == 4 * i * i,
        decreases m + 1 - k,
    {
        proof {
            assert((2 * k) * (2 * k) <= 65534 * 65534) by (nonlinear_arith)
                requires
                    k <= 32767,
            ;
            assert(4 * (k as int) * (k as int) == (2 * (k as int)) * (2 * (k as int)))
                by (nonlinear_arith);
        }
        r.push((2 * k) * (2 * k));
        k = k + 1;
    }
    r
}

} // verus!
