//! The carries of the addition of two wide integers, half by half.

use crate::uint256::{two_pow_128, U256};
use vstd::prelude::*;

verus! {

pub const HINT_CARRY: &'static str =
    "sum_low = ids.a.low + ids.b.low\nids.carry_low = 1 if sum_low >= ids.SHIFT else 0\nsum_high = ids.a.high + ids.b.high + ids.carry_low\nids.carry_high = 1 if sum_high >= ids.SHIFT else 0";

/// Whether the sum of `a` and `b` reaches `bound`.
pub fn sum_reaches(a: &U256, b: &U256, bound: &U256) -> (reaches: bool)
    ensures
        reaches == (a@ + b@ >= bound@),
{
    let low_carries = a.low > u128::MAX - b.low;
    let low: u128 = if low_carries {
        a.low - (u128::MAX - b.low) - 1
    } else {
        a.low + b.low
    };
    let carry: u128 = if low_carries {
        1
    } else {
        0
    };
    if a.high > u128::MAX - b.high {
        true
    } else {
        let high_sum: u128 = a.high + b.high;
        if high_sum > u128::MAX - carry {
            true
        } else {
            let high: u128 = high_sum + carry;
            assert(a@ + b@ == high as nat * two_pow_128() + low as nat);
            high > bound.high || (high == bound.high && low >= bound.low)
        }
    }
}

/// The values for `carry_low` and `carry_high`: for each half, one where the
/// sum of the two halves reaches `shift`, zero otherwise. The carry of the
/// low halves is not added to the high halves.
pub fn hint_carry(a_low: &U256, a_high: &U256, b_low: &U256, b_high: &U256, shift: &U256) -> (written:
    (U256, U256))
    ensures
        written.0@ == if a_low@ + b_low@ >= shift@ {
            1nat
        } else {
            0nat
        },
        written.1@ == if a_high@ + b_high@ >= shift@ {
            1nat
        } else {
            0nat
        },
{
    let carry_low = U256::from_bool(sum_reaches(a_low, b_low, shift));
    let carry_high = U256::from_bool(sum_reaches(a_high, b_high, shift));
    (carry_low, carry_high)
}

} // verus!
