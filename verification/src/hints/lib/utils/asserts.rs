//! Checks that a divisor lies in the range that a division needs.

use crate::error::HintError;
use crate::uint256::U256;
use vstd::prelude::*;

verus! {

pub const HINT_ASSERT_INTEGER_DIV32: &'static str =
    "from starkware.cairo.common.math_utils import assert_integer\nassert_integer(ids.DIV_32)\nif not (0 < ids.DIV_32 <= PRIME):\n    raise ValueError(f'div={hex(ids.DIV_32)} is out of the valid range.')";

/// Succeeds where the constant `div_32` is above zero and at most `prime`,
/// and fails with `prime` where it is out of that range.
pub fn hint_assert_integer_div32(div_32: &U256, prime: &U256) -> (checked: Result<(), HintError>)
    ensures
        checked is Ok <==> 0 < div_32@ <= prime@,
        checked matches Err(error) ==> error == HintError::AssertNNValueOutOfRange(*prime),
{
    if U256::from_u128(0).lt(div_32) && div_32.le(prime) {
        Ok(())
    } else {
        Err(HintError::AssertNNValueOutOfRange(*prime))
    }
}

pub const HINT_ASSERT_INTEGER_DIV: &'static str =
    "from starkware.cairo.common.math_utils import assert_integer\nassert_integer(ids.div)\nif not (0 < ids.div <= PRIME):\n    raise ValueError(f'div={hex(ids.div)} is out of the valid range.')";

/// Succeeds where `div` is above zero and at most `prime`, and fails with
/// `prime` where it is out of that range.
pub fn hint_assert_integer_div(div: &U256, prime: &U256) -> (checked: Result<(), HintError>)
    ensures
        checked is Ok <==> 0 < div@ <= prime@,
        checked matches Err(error) ==> error == HintError::AssertNNValueOutOfRange(*prime),
{
    if U256::from_u128(0).lt(div) && div.le(prime) {
        Ok(())
    } else {
        Err(HintError::AssertNNValueOutOfRange(*prime))
    }
}

} // verus!
