//! Money arithmetic primitives: minor-unit amounts and the one centralized
//! rounding policy shared by every calculator.
//!
//! An amount is an exact integer count of a currency's minor units (e.g.
//! cents). Division by a diver count rounds half up; every calculator that
//! divides goes through [`div_round_half_up`] so the rounding rule cannot
//! drift between calculators.

use vstd::prelude::*;

verus! {

/// Round-half-up division of a non-negative total by a positive count,
/// as a mathematical function: the unique integer nearest `total / count`,
/// with ties on exact halves rounded up.
pub open spec fn round_half_up(total: int, count: int) -> int
    recommends
        total >= 0,
        count >= 1,
{
    let q = total / count;
    let r = total % count;
    if 2 * r >= count {
        q + 1
    } else {
        q
    }
}

/// Round-half-up division on minor-unit amounts.
///
/// This is the centralized rounding policy: every per-diver figure in the
/// engine is produced by this function.
pub fn div_round_half_up(total: i64, count: i64) -> (r: i64)
    requires
        total >= 0,
        count >= 1,
    ensures
        r == round_half_up(total as int, count as int),
{
    let q = total / count;
    let rem = total % count;
    if rem >= count - rem {
        proof {
            vstd::arithmetic::div_mod::lemma_fundamental_div_mod(total as int, count as int);
            assert(q <= q * count) by (nonlinear_arith)
                requires
                    q >= 0,
                    count >= 1,
            ;
        }
        q + 1
    } else {
        q
    }
}

/// Sum of a sequence of minor-unit amounts, as a mathematical integer.
pub open spec fn sum_i64(s: Seq<i64>) -> int
    decreases s.len(),
{
    if s.len() == 0 {
        0
    } else {
        sum_i64(s.drop_last()) + s.last()
    }
}

/// The rounded quotient differs from the exact (rational) mean by at most
/// half a minor unit in either direction: `count * r` is within
/// `count / 2 + count % 2` of `total`, so `r` is within one of the floor
/// and the ceiling of the exact mean.
pub proof fn lemma_round_half_up_bounds(total: int, count: int)
    requires
        total >= 0,
        count >= 1,
    ensures
        total / count <= round_half_up(total, count) <= total / count + 1,
        count * (total / count) <= total < count * (total / count) + count,
{
    vstd::arithmetic::div_mod::lemma_fundamental_div_mod(total, count);
    vstd::arithmetic::div_mod::lemma_mod_bound(total, count);
    vstd::arithmetic::div_mod::lemma_div_pos_is_pos(total, count);
}

} // verus!
