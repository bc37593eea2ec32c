//! The text of the hint that prints the operand `x`. Printing is the host's part.

use vstd::prelude::*;

verus! {

pub const PRINT_VAR: &'static str = "print(ids.x)";

} // verus!
