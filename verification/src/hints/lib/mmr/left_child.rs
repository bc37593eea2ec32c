//! Whether the left child of a node lies within the range.

use crate::uint256::U256;
use vstd::prelude::*;

verus! {

pub const MMR_LEFT_CHILD: &'static str = "ids.in_mmr = 1 if ids.left_child <= ids.mmr_len else 0";

/// The value for `in_mmr`: one where `left_child` is at most `mmr_len`, zero otherwise.
pub fn mmr_left_child(left_child: &U256, mmr_len: &U256) -> (written: U256)
    ensures
        written@ == if left_child@ <= mmr_len@ {
            1nat
        } else {
            0nat
        },
{
    U256::from_bool(left_child.le(mmr_len))
}

} // verus!
