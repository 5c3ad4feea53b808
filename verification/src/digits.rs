//! Decimal rendering of unsigned integers, used for diagnostic context
//! strings. Verified against a recursive specification of the decimal
//! digit sequence.

use vstd::prelude::*;
use vstd::string::StrSliceExecFns;
use vstd::string::StringExecFns;

verus! {

/// The character for one decimal digit.
pub open spec fn digit_char(d: int) -> char
    recommends
        0 <= d <= 9,
{
    "0123456789"@[d]
}

/// The decimal digit sequence of `n`, most significant digit first, with no
/// leading zeros (a single `'0'` for zero).
pub open spec fn dec_str(n: nat) -> Seq<char>
    decreases n,
{
    if n < 10 {
        seq![digit_char(n as int)]
    } else {
        dec_str(n / 10).push(digit_char((n % 10) as int))
    }
}

/// Renders `n` in decimal.
pub fn u64_to_string(n: u64) -> (r: String)
    ensures
        r@ == dec_str(n as nat),
    decreases n,
{
    let digits = "0123456789";
    proof {
        reveal_strlit("0123456789");
    }
    if n < 10 {
        let d: usize = n as usize;
        let s = digits.substring_ascii(d, d + 1);
        proof {
            assert(s@ =~= seq![digit_char(n as int)]);
        }
        String::from_str(s)
    } else {
        let mut front = u64_to_string(n / 10);
        let d: usize = (n % 10) as usize;
        let s = digits.substring_ascii(d, d + 1);
        proof {
            assert(s@ =~= seq![digit_char((n % 10) as int)]);
            assert(dec_str((n / 10) as nat) + seq![digit_char((n % 10) as int)] =~= dec_str(
                n as nat,
            ));
        }
        front.append(s);
        front
    }
}

} // verus!
