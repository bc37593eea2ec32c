//! The failures that a hint routine reports to the host. None of them is
//! recovered from: each ends the host's execution.

use crate::uint256::U256;
use vstd::prelude::*;

verus! {

/// Why a hint could not be carried out.
#[derive(Debug, PartialEq, Eq)]
pub enum HintError {
    /// No routine is registered under this text.
    UnknownHint(String),
    /// An operand lies outside every range that the routine knows: what was
    /// expected, the operand, and a second value that is zero where there is none.
    InvalidValue(&'static str, U256, U256),
    /// Two values that had to be equal are not: the one, then the other.
    AssertNotEqualFail(U256, U256),
    /// A value is outside the range that the given bound stands for.
    AssertNNValueOutOfRange(U256),
}

} // verus!
