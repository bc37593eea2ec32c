//! The size class of an RLP-encoded big integer in a block header.

use crate::error::HintError;
use crate::hints::{answers, same_text, unknown_hint, Hint};
use crate::uint256::U256;
use vstd::prelude::*;

verus! {

pub const HINT_RLP_BIGINT_SIZE: &'static str = "memory[ap] = 1 if ids.byte <= 127 else 0";

/// The value for the cell at `ap`: one where `byte` is at most 127, zero otherwise.
pub fn hint_rlp_bigint_size(byte: &U256) -> (written: U256)
    ensures
        written@ == if byte@ <= 127 {
            1nat
        } else {
            0nat
        },
{
    U256::from_bool(byte.le(&U256::from_u128(0x7f)))
}

/// The routine of this catalog that is registered under `code`.
pub open spec fn spec_run_hint(code: Seq<char>) -> Option<Hint> {
    if code == HINT_RLP_BIGINT_SIZE@ {
        Some(Hint::RlpBigintSize)
    } else {
        None
    }
}

/// Finds the routine of this catalog for `code`.
pub fn run_hint(code: &str) -> (hint: Result<Hint, HintError>)
    ensures
        answers(hint, spec_run_hint(code@), code@),
{
    if same_text(code, HINT_RLP_BIGINT_SIZE) {
        Ok(Hint::RlpBigintSize)
    } else {
        Err(unknown_hint(code))
    }
}

} // verus!
