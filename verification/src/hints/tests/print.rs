//! The texts of the hints that only print. Printing is the host's part.

use vstd::prelude::*;

verus! {

pub const HINT_PRINT_BREAKLINE: &'static str = "print('\\n')";

pub const HINT_PRINT_PASS: &'static str = "print(f\"\\tPass!\\n\\n\")";

} // verus!
