//! Test vectors for the check of a node count, made by counting: every node
//! count up to that of a given number of leaves, with whether some number
//! of leaves from one on has it.

use crate::bits::count_ones_u128;
use crate::mmr::shape::{
    is_valid_size, lemma_mmr_size_closed_form, lemma_mmr_size_increases,
    lemma_valid_size_iff_reachable, mmr_size,
};
use std::collections::HashSet;
use vstd::prelude::*;

verus! {

broadcast use vstd::std_specs::hash::group_hash_axioms;

pub const TEST_IS_VALID_MMR_SIZE_GENERATE_SEQUENTIAL: &'static str =
    "print(f\"Testing is_valid_mmr_size by creating the mmr for all sizes in [0, {ids.num_elems})...\")
from tools.py.mmr import MMR
mmr = MMR()
valid_mmr_sizes = set()
for i in range(ids.num_elems):
    mmr.add(i)
    valid_mmr_sizes.add(len(mmr.pos_hash))

expected_output = [size in valid_mmr_sizes for size in range(0, len(mmr.pos_hash) + 1)]
for out, inp in zip(expected_output, range(0, len(mmr.pos_hash) + 1)):
    print(out, inp)
segments.write_arg(ids.expected_output, expected_output)
segments.write_arg(ids.input_array, list(range(0, len(mmr.pos_hash) + 1)))";

/// Whether `size` is the node count of some number of leaves from 1 to `count`.
pub open spec fn is_size_within(size: nat, count: nat) -> bool {
    exists|leaves: nat| 1 <= leaves <= count && #[trigger] mmr_size(leaves) == size
}

/// The node count of `leaf_count` leaves.
fn size_of_leaves(leaf_count: u64) -> (size: u64)
    requires
        2 * leaf_count <= u64::MAX,
    ensures
        size == mmr_size(leaf_count as nat),
{
    proof {
        lemma_mmr_size_closed_form(leaf_count as nat);
    }
    2 * leaf_count - (count_ones_u128(leaf_count as u128) as u64)
}

/// The values for `input_array` and `expected_output`, in this order: the
/// node counts from zero to that of `num_elems` leaves, and for each whether
/// a range of at least one and at most `num_elems` leaves has it. Among the
/// counts above zero these are the valid ones.
pub fn test_is_valid_mmr_size_generate_sequential(num_elems: u64) -> (written: (Vec<u64>, Vec<bool>))
    requires
        2 * num_elems < usize::MAX,
    ensures
        written.0.len() == mmr_size(num_elems as nat) + 1,
        written.1.len() == mmr_size(num_elems as nat) + 1,
        forall|i: int| 0 <= i < written.0.len() ==> written.0[i] == i,
        forall|i: int|
            0 <= i < written.1.len() ==> written.1[i] == is_size_within(i as nat, num_elems as nat),
        forall|i: int|
            0 <= i < written.1.len() ==> written.1[i] == (i > 0 && is_valid_size(i as nat)),
{
    let mut valid_mmr_sizes: HashSet<u64> = HashSet::new();
    let mut last: u64 = 0;
    let mut leaf_count: u64 = 0;
    while leaf_count < num_elems
        invariant
            leaf_count <= num_elems,
            2 * num_elems < usize::MAX,
            last == mmr_size(leaf_count as nat),
            forall|size: u64|
                valid_mmr_sizes@.contains(size) <==> is_size_within(size as nat, leaf_count as nat),
        decreases num_elems - leaf_count,
    {
        let ghost before = valid_mmr_sizes@;
        leaf_count = leaf_count + 1;
        last = size_of_leaves(leaf_count);
        valid_mmr_sizes.insert(last);
        proof {
            assert forall|size: u64|
                valid_mmr_sizes@.contains(size) <==> is_size_within(
                    size as nat,
                    leaf_count as nat,
                ) by {
                if size == last {
                    assert(1 <= leaf_count <= leaf_count && mmr_size(leaf_count as nat) == size);
                } else {
                    assert(before.contains(size) == is_size_within(
                        size as nat,
                        (leaf_count - 1) as nat,
                    ));
                    if is_size_within(size as nat, leaf_count as nat) {
                        let leaves = choose|leaves: nat|
                            1 <= leaves <= leaf_count && #[trigger] mmr_size(leaves) == size;
                        assert(1 <= leaves <= leaf_count - 1 && mmr_size(leaves) == size);
                    }
                    if is_size_within(size as nat, (leaf_count - 1) as nat) {
                        let leaves = choose|leaves: nat|
                            1 <= leaves <= leaf_count - 1 && #[trigger] mmr_size(leaves) == size;
                        assert(1 <= leaves <= leaf_count && mmr_size(leaves) == size);
                    }
                }
            }
        }
    }
    proof {
        lemma_mmr_size_closed_form(num_elems as nat);
    }
    let mut expected_output: Vec<bool> = Vec::new();
    let mut input_array: Vec<u64> = Vec::new();
    let mut i: u64 = 0;
    while i <= last
        invariant
            i <= last + 1,
            last < usize::MAX,
            expected_output.len() == i,
            input_array.len() == i,
            forall|k: int| 0 <= k < i ==> input_array[k] == k,
            forall|k: int|
                0 <= k < i ==> expected_output[k] == is_size_within(k as nat, num_elems as nat),
            forall|size: u64|
                valid_mmr_sizes@.contains(size) <==> is_size_within(size as nat, num_elems as nat),
        decreases last + 1 - i,
    {
        expected_output.push(valid_mmr_sizes.contains(&i));
        input_array.push(i);
        i = i + 1;
    }
    proof {
        assert forall|k: int| 0 <= k < expected_output.len() implies expected_output[k] == (k > 0
            && is_valid_size(k as nat)) by {
            lemma_valid_size_iff_reachable(k as nat);
            if is_size_within(k as nat, num_elems as nat) {
                let leaves = choose|leaves: nat|
                    1 <= leaves <= num_elems && #[trigger] mmr_size(leaves) == k;
                lemma_mmr_size_increases(0, leaves);
            }
            if k > 0 && is_valid_size(k as nat) {
                let leaves = choose|leaves: nat| mmr_size(leaves) == k as nat;
                if leaves > num_elems {
                    lemma_mmr_size_increases(num_elems as nat, leaves);
                }
                assert(1 <= leaves <= num_elems && mmr_size(leaves) == k);
            }
        }
    }
    (input_array, expected_output)
}

} // verus!
