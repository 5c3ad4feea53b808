//! Shared-cost allocator: splits one total into per-diver shares whose sum
//! is exactly the input total.
//!
//! `base_share = floor(shared_total / diver_count)` in minor units; the
//! first `remainder` positions (fixed index order) receive one extra minor
//! unit. The result is a deterministic function of the inputs.

use vstd::prelude::*;

use crate::errors::PricingError;
use crate::money::{round_half_up, sum_i64, div_round_half_up};

verus! {

/// The share owed to position `i` when `total` minor units are split over
/// `count` divers: the floor of the mean, plus one extra minor unit for the
/// first `total % count` positions.
pub open spec fn allocation_share(total: int, count: int, i: int) -> int
    recommends
        total >= 0,
        count >= 1,
        0 <= i < count,
{
    total / count + if i < total % count { 1int } else { 0int }
}

/// Result of allocating one shared total over a diver count.
#[derive(Debug, Clone)]
pub struct AllocationResult {
    /// The rounded mean share (round half up), for display.
    pub per_diver: i64,
    /// One amount per diver, in fixed index order; sums exactly to the input.
    pub amounts: Vec<i64>,
    /// The caller-supplied currency code, unchanged.
    pub currency: String,
}

/// Sum of a sequence extended by one element.
pub proof fn lemma_sum_push(s: Seq<i64>, x: i64)
    ensures
        sum_i64(s.push(x)) == sum_i64(s) + x,
{
    assert(s.push(x).drop_last() =~= s);
}

/// Sum of the first `n` allocation shares, as a mathematical integer.
pub open spec fn sum_shares(total: int, count: int, n: int) -> int
    recommends
        0 <= n <= count,
{
    total / count * n + if n <= total % count {
        n
    } else {
        total % count
    }
}

/// Splits `shared_total` minor units over `diver_count` divers.
///
/// Returns, in fixed index order, one amount per diver: the first
/// `shared_total % diver_count` divers pay one minor unit more than the
/// rest, so the amounts sum exactly to `shared_total`. `per_diver` is the
/// rounded mean. Rejects a zero diver count and a negative total as
/// malformed input; succeeds on everything else.
pub fn allocate_shared_costs(shared_total: i64, diver_count: u32, currency: &str) -> (r: Result<
    AllocationResult,
    PricingError,
>)
    ensures
        match r {
            Ok(a) => {
                &&& shared_total >= 0
                &&& diver_count >= 1
                &&& a.amounts@.len() == diver_count
                &&& forall|i: int|
                    0 <= i < diver_count ==> (#[trigger] a.amounts@[i]) == allocation_share(
                        shared_total as int,
                        diver_count as int,
                        i,
                    )
                &&& sum_i64(a.amounts@) == shared_total
                &&& a.per_diver == round_half_up(shared_total as int, diver_count as int)
                &&& a.currency@ == currency@
            },
            Err(e) => {
                &&& (shared_total < 0 || diver_count == 0)
                &&& e is ConfigurationError
            },
        },
{
    if diver_count == 0 {
        return Err(
            PricingError::ConfigurationError {
                message: String::from_str("diver_count must be at least 1"),
                errors: vec![String::from_str("diver_count: must be at least 1")],
            },
        );
    }
    if shared_total < 0 {
        return Err(
            PricingError::ConfigurationError {
                message: String::from_str("shared_total must not be negative"),
                errors: vec![String::from_str("shared_total: must not be negative")],
            },
        );
    }
    let count: i64 = diver_count as i64;
    let base: i64 = shared_total / count;
    let remainder: i64 = shared_total % count;
    proof {
        vstd::arithmetic::div_mod::lemma_fundamental_div_mod(
            shared_total as int,
            count as int,
        );
        assert(remainder >= 1 ==> base + 1 <= i64::MAX) by (nonlinear_arith)
            requires
                base >= 0,
                remainder < count,
                shared_total as int == count as int * base + remainder,
                shared_total <= i64::MAX,
                remainder >= 1 ==> count >= 2,
        ;
    }
    let mut amounts: Vec<i64> = Vec::new();
    let mut i: i64 = 0;
    while i < count
        invariant
            0 <= i <= count,
            count == diver_count,
            shared_total >= 0,
            base == shared_total as int / count as int,
            remainder == shared_total as int % count as int,
            remainder >= 1 ==> base + 1 <= i64::MAX,
            amounts@.len() == i,
            forall|j: int|
                0 <= j < i ==> amounts@[j] == allocation_share(
                    shared_total as int,
                    count as int,
                    j,
                ),
            sum_i64(amounts@) == sum_shares(shared_total as int, count as int, i as int),
        decreases count - i,
    {
        let share: i64 = if i < remainder {
            base + 1
        } else {
            base
        };
        proof {
            lemma_sum_push(amounts@, share);
            assert(base as int * (i + 1) == base as int * (i as int) + base) by (nonlinear_arith);
        }
        amounts.push(share);
        i = i + 1;
    }
    proof {
        vstd::arithmetic::div_mod::lemma_fundamental_div_mod(
            shared_total as int,
            count as int,
        );
        assert(sum_shares(shared_total as int, count as int, count as int) == shared_total)
            by (nonlinear_arith)
            requires
                shared_total >= 0,
                count >= 1,
                shared_total as int == count as int * (shared_total as int / count as int) + (
                shared_total as int % count as int),
                0 <= (shared_total as int % count as int),
                (shared_total as int % count as int) < count as int,
        ;
    }
    let per_diver = div_round_half_up(shared_total, count);
    Ok(AllocationResult { per_diver, amounts, currency: String::from_str(currency) })
}

/// Every share is within one minor unit of the floor of the mean, hence
/// within one minor unit of the exact mean.
pub proof fn lemma_share_near_mean(total: int, count: int, i: int)
    requires
        total >= 0,
        count >= 1,
        0 <= i < count,
    ensures
        total / count <= allocation_share(total, count, i) <= total / count + 1,
{
}

/// Allocation is deterministic: any two outputs that both carry the share
/// owed to each position, for the same inputs, are equal.
pub proof fn lemma_allocation_deterministic(a: Seq<i64>, b: Seq<i64>, total: int, count: int)
    requires
        a.len() == count,
        b.len() == count,
        forall|i: int| 0 <= i < count ==> a[i] == allocation_share(total, count, i),
        forall|i: int| 0 <= i < count ==> b[i] == allocation_share(total, count, i),
    ensures
        a == b,
{
    assert(a =~= b);
}

} // verus!
