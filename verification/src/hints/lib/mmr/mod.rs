//! The hints of the Merkle Mountain Range programs.

pub mod bit_length;
pub mod left_child;
pub mod peak_values;

use crate::error::HintError;
use crate::hints::{answers, same_text, unknown_hint, Hint};
use vstd::prelude::*;

verus! {

/// The routine of this catalog that is registered under `code`.
pub open spec fn spec_run_hint(code: Seq<char>) -> Option<Hint> {
    if code == bit_length::MMR_BIT_LENGTH@ {
        Some(Hint::MmrBitLength)
    } else if code == left_child::MMR_LEFT_CHILD@ {
        Some(Hint::MmrLeftChild)
    } else if code == peak_values::HINT_IS_POSITION_IN_MMR_ARRAY@ {
        Some(Hint::IsPositionInMmrArray)
    } else {
        None
    }
}

/// Finds the routine of this catalog for `code`.
pub fn run_hint(code: &str) -> (hint: Result<Hint, HintError>)
    ensures
        answers(hint, spec_run_hint(code@), code@),
{
    if same_text(code, bit_length::MMR_BIT_LENGTH) {
        Ok(Hint::MmrBitLength)
    } else if same_text(code, left_child::MMR_LEFT_CHILD) {
        Ok(Hint::MmrLeftChild)
    } else if same_text(code, peak_values::HINT_IS_POSITION_IN_MMR_ARRAY) {
        Ok(Hint::IsPositionInMmrArray)
    } else {
        Err(unknown_hint(code))
    }
}

} // verus!
