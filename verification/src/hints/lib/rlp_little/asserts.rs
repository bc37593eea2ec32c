//! Checks of what the program computed against what a hint expected.

use crate::error::HintError;
use crate::uint256::U256;
use vstd::prelude::*;

verus! {

pub const HINT_EXPECTED_LEADING_ZEROES: &'static str =
    "assert ids.res == expected_leading_zeroes, f\"Expected {expected_leading_zeroes} but got {ids.res}\"";

/// Succeeds where `res` is `expected_leading_zeroes`, and fails with the two
/// values, the expected one first, where it is not.
pub fn hint_expected_leading_zeroes(res: &U256, expected_leading_zeroes: &U256) -> (checked: Result<
    (),
    HintError,
>)
    ensures
        checked is Ok <==> res@ == expected_leading_zeroes@,
        checked matches Err(error) ==> error == HintError::AssertNotEqualFail(
            *expected_leading_zeroes,
            *res,
        ),
{
    if expected_leading_zeroes.high != res.high || expected_leading_zeroes.low != res.low {
        Err(HintError::AssertNotEqualFail(*expected_leading_zeroes, *res))
    } else {
        Ok(())
    }
}

pub const HINT_EXPECTED_NIBBLE: &'static str =
    "assert ids.extracted_nibble_at_pos == expected_nibble, f\"extracted_nibble_at_pos={ids.extracted_nibble_at_pos} expected_nibble={expected_nibble}\"";

/// Succeeds where `extracted_nibble_at_pos` is `expected_nibble`, and fails
/// with the two values, the extracted one first, where it is not.
pub fn hint_expected_nibble(extracted_nibble_at_pos: &U256, expected_nibble: &U256) -> (checked:
    Result<(), HintError>)
    ensures
        checked is Ok <==> extracted_nibble_at_pos@ == expected_nibble@,
        checked matches Err(error) ==> error == HintError::AssertNotEqualFail(
            *extracted_nibble_at_pos,
            *expected_nibble,
        ),
{
    if extracted_nibble_at_pos.high != expected_nibble.high || extracted_nibble_at_pos.low
        != expected_nibble.low {
        Err(HintError::AssertNotEqualFail(*extracted_nibble_at_pos, *expected_nibble))
    } else {
        Ok(())
    }
}

} // verus!
