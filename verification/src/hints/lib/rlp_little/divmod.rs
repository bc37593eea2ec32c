//! The split of a word at a power of 256.

use crate::felt::div_rem;
use crate::uint256::{felt_prime, U256};
use vstd::prelude::*;

verus! {

pub const HINT_POW_CUT: &'static str =
    "ids.q, ids.r = divmod(memory[ids.array + ids.start_word + ids.i], ids.pow_cut)";

/// The values for `q` and `r`: the quotient and the remainder of the word
/// `value`, which the host has read from the array, by `pow_cut`.
pub fn hint_pow_cut(value: &U256, pow_cut: &U256) -> (written: (U256, U256))
    requires
        value@ < felt_prime(),
        0 < pow_cut@ < felt_prime(),
    ensures
        written.0@ == value@ / pow_cut@,
        written.1@ == value@ % pow_cut@,
{
    div_rem(value, pow_cut)
}

} // verus!
