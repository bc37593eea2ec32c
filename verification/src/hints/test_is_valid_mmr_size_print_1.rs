//! The text of the hint that prints an empty line. Printing is the host's part.

use vstd::prelude::*;

verus! {

pub const TEST_IS_VALID_MMR_SIZE_PRINT_1: &'static str = "print('\\n')";

} // verus!
