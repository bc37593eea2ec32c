//! Whether a position lies in the part of the range that is being appended.

use crate::uint256::U256;
use vstd::prelude::*;

verus! {

pub const HINT_IS_POSITION_IN_MMR_ARRAY: &'static str =
    "ids.is_position_in_mmr_array= 1 if ids.position > ids.mmr_offset else 0";

/// The value for `is_position_in_mmr_array`: one where `position` is beyond
/// `mmr_offset`, zero otherwise.
pub fn hint_is_position_in_mmr_array(position: &U256, mmr_offset: &U256) -> (written: U256)
    ensures
        written@ == if position@ > mmr_offset@ {
            1nat
        } else {
            0nat
        },
{
    U256::from_bool(mmr_offset.lt(position))
}

} // verus!
