//! The bit length of the operand `x`.

use crate::bits::bit_length;
use crate::uint256::U256;
use vstd::prelude::*;

verus! {

pub const BIT_LENGTH_X: &'static str = "ids.bit_length = ids.x.bit_length()";

/// The value for `bit_length`: the number of bits of `x`.
pub fn bit_length_x(x: &U256) -> (written: U256)
    ensures
        written@ == bit_length(x@),
{
    U256::from_u128(x.bits() as u128)
}

} // verus!
