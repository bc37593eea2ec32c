//! The bit length of the size of a Merkle Mountain Range.

use crate::bits::bit_length;
use crate::uint256::U256;
use vstd::prelude::*;

verus! {

pub const MMR_BIT_LENGTH: &'static str = "ids.bit_length = ids.mmr_len.bit_length()";

/// The value for `bit_length`: the number of bits of `mmr_len`.
pub fn mmr_bit_length(mmr_len: &U256) -> (written: U256)
    ensures
        written@ == bit_length(mmr_len@),
{
    U256::from_u128(mmr_len.bits() as u128)
}

} // verus!
