//! Quotient and remainder of a field element by a divisor.

use crate::felt::div_rem;
use crate::uint256::{felt_prime, U256};
use vstd::prelude::*;

verus! {

pub const HINT_VALUE_DIV32: &'static str = "ids.q, ids.r = divmod(ids.value, ids.DIV_32)";

/// The values for `q` and `r`: the quotient and the remainder of `value` by
/// the constant `div_32`.
pub fn hint_value_div32(value: &U256, div_32: &U256) -> (written: (U256, U256))
    requires
        value@ < felt_prime(),
        0 < div_32@ < felt_prime(),
    ensures
        written.0@ == value@ / div_32@,
        written.1@ == value@ % div_32@,
{
    div_rem(value, div_32)
}

pub const HINT_VALUE_8: &'static str = "ids.q, ids.r = divmod(ids.value, 8)";

/// The values for `q` and `r`: the quotient and the remainder of `value` by 8.
pub fn hint_value_8(value: &U256) -> (written: (U256, U256))
    requires
        value@ < felt_prime(),
    ensures
        written.0@ == value@ / 8,
        written.1@ == value@ % 8,
{
    div_rem(value, &U256::from_u128(0x08))
}

pub const HINT_VALUE_DIV: &'static str = "ids.q, ids.r = divmod(ids.value, ids.div)";

/// The values for `q` and `r`: the quotient and the remainder of `value` by `div`.
pub fn hint_value_div(value: &U256, div: &U256) -> (written: (U256, U256))
    requires
        value@ < felt_prime(),
        0 < div@ < felt_prime(),
    ensures
        written.0@ == value@ / div@,
        written.1@ == value@ % div@,
{
    div_rem(value, div)
}

} // verus!
