//! The bit length of a field element.

use crate::bits::bit_length;
use crate::error::HintError;
use crate::hints::{answers, same_text, unknown_hint, Hint};
use crate::uint256::U256;
use vstd::prelude::*;

verus! {

pub const HINT_BIT_LENGTH: &'static str = "ids.bit_length = ids.x.bit_length()";

/// The value for `bit_length`: the number of bits of `x`.
pub fn hint_bit_length(x: &U256) -> (written: U256)
    ensures
        written@ == bit_length(x@),
{
    U256::from_u128(x.bits() as u128)
}

/// The routine of this catalog that is registered under `code`.
pub open spec fn spec_run_hint(code: Seq<char>) -> Option<Hint> {
    if code == HINT_BIT_LENGTH@ {
        Some(Hint::BitLength)
    } else {
        None
    }
}

/// Finds the routine of this catalog for `code`.
pub fn run_hint(code: &str) -> (hint: Result<Hint, HintError>)
    ensures
        answers(hint, spec_run_hint(code@), code@),
{
    if same_text(code, HINT_BIT_LENGTH) {
        Ok(Hint::BitLength)
    } else {
        Err(unknown_hint(code))
    }
}

} // verus!
