//! Helpers that the hint routines share.

use crate::uint256::{two_pow_128, U256};
use vstd::prelude::*;

verus! {

/// The low and the high half of `number`, in this order, as the host takes a
/// wide integer: each half fits in 128 bits.
pub fn split_u256(number: &U256) -> (halves: [U256; 2])
    ensures
        halves[0]@ == number@ % two_pow_128(),
        halves[1]@ == number@ / two_pow_128(),
        halves[0]@ + two_pow_128() * halves[1]@ == number@,
{
    [U256 { high: 0, low: number.low }, U256 { high: 0, low: number.high }]
}

} // verus!
