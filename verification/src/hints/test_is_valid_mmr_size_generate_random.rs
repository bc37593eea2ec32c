//! Test vectors for the check of a node count, made by chance: node counts
//! drawn at random, each with whether a range can have it.

use crate::mmr::shape::is_valid_size;
use rand::Rng;
use vstd::prelude::*;

verus! {

pub const TEST_IS_VALID_MMR_SIZE_GENERATE_RANDOM: &'static str =
    "from tools.py.mmr import is_valid_mmr_size
import random
print(f\"Testing is_valid_mmr_size against python implementation with {ids.num_sizes} random sizes in [0, 20000000)...\")
sizes_to_test = random.sample(range(0, 20000000), ids.num_sizes)
expected_output = [is_valid_mmr_size(size) for size in sizes_to_test]
segments.write_arg(ids.expected_output, expected_output)
segments.write_arg(ids.input_array, sizes_to_test)";

/// The node counts are drawn below this bound.
pub const SIZE_BOUND: u64 = 20000000;

/// Whether `mmr_size` is the node count of a range: of the empty one, or of
/// one that some number of appends has filled.
pub fn is_valid_mmr_size(mmr_size: u64) -> (valid: bool)
    ensures
        valid == is_valid_size(mmr_size as nat),
{
    crate::mmr::is_valid_size(mmr_size)
}

/// Calls `gen_range(0..bound)` on `rand::thread_rng()`. Trusted: the number
/// lies in the range, which is all that can be said of a draw. An empty
/// range, on which the call panics, is left out.
#[verifier::external_body]
pub(crate) fn random_below(bound: u64) -> (x: u64)
    requires
        bound > 0,
    ensures
        x < bound,
{
    rand::thread_rng().gen_range(0..bound)
}

/// The values for `input_array` and `expected_output`, in this order:
/// `num_sizes` node counts below [`SIZE_BOUND`], drawn at random, and for
/// each whether a range can have it.
pub fn test_is_valid_mmr_size_generate_random(num_sizes: u64) -> (written: (Vec<u64>, Vec<bool>))
    ensures
        written.0.len() == num_sizes,
        written.1.len() == num_sizes,
        forall|i: int| 0 <= i < num_sizes ==> written.0[i] < SIZE_BOUND,
        forall|i: int| 0 <= i < num_sizes ==> written.1[i] == is_valid_size(written.0[i] as nat),
{
    let mut input_array: Vec<u64> = Vec::new();
    let mut expected_output: Vec<bool> = Vec::new();
    let mut drawn: u64 = 0;
    while drawn < num_sizes
        invariant
            drawn <= num_sizes,
            input_array.len() == drawn,
            expected_output.len() == drawn,
            forall|i: int| 0 <= i < drawn ==> input_array[i] < SIZE_BOUND,
            forall|i: int|
                0 <= i < drawn ==> expected_output[i] == is_valid_size(input_array[i] as nat),
        decreases num_sizes - drawn,
    {
        let x = random_below(SIZE_BOUND);
        input_array.push(x);
        let y = is_valid_mmr_size(x);
        expected_output.push(y);
        drawn = drawn + 1;
    }
    (input_array, expected_output)
}

} // verus!
