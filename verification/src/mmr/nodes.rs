//! What a Merkle Mountain Range stores: the node values that a sequence of
//! appends leaves behind, and the root that commits to them.

use crate::bits::{lemma_count_ones_le, trailing_ones};
use crate::mmr::shape::{
    is_valid_size, lemma_mmr_size_step, lemma_valid_size_of_leaves, mmr_size, peak_positions,
};
use crate::mmr::Hasher;
use crate::uint256::U256;
use vstd::prelude::*;

verus! {

/// The values of `words`.
pub open spec fn values_of(words: Seq<U256>) -> Seq<nat> {
    words.map_values(|word: U256| word@)
}

/// The `indices` as numbers.
pub open spec fn positions_of(indices: Seq<usize>) -> Seq<nat> {
    indices.map_values(|index: usize| index as nat)
}

/// The values of `nodes` at the 1-indexed `positions`.
pub open spec fn values_at(nodes: Seq<nat>, positions: Seq<nat>) -> Seq<nat> {
    Seq::new(positions.len(), |i: int| nodes[positions[i] - 1])
}

/// The values of the peaks of `nodes`, the tallest tree first.
pub open spec fn peak_values(nodes: Seq<nat>) -> Seq<nat> {
    values_at(nodes, peak_positions(nodes.len()))
}

/// The parents that an append stores after its leaf: the nearest of `peaks`
/// is combined with `last`, the result with the next peak, and so on, for
/// `count` peaks or until there are no more.
pub open spec fn merge_chain<H: Hasher>(peaks: Seq<nat>, last: nat, count: nat) -> Seq<nat>
    decreases count,
{
    if count == 0 || peaks.len() == 0 {
        Seq::empty()
    } else {
        let parent = H::spec_hash(peaks.last(), last);
        seq![parent] + merge_chain::<H>(peaks.drop_last(), parent, (count - 1) as nat)
    }
}

/// The nodes after `element` is appended to `nodes`, which hold `leaves` leaves.
pub open spec fn append_nodes<H: Hasher>(nodes: Seq<nat>, leaves: nat, element: nat) -> Seq<nat> {
    nodes + seq![element] + merge_chain::<H>(peak_values(nodes), element, trailing_ones(leaves))
}

/// The nodes after the values of `leaves` are appended, one after the other,
/// to an empty range.
pub open spec fn build<H: Hasher>(leaves: Seq<nat>) -> Seq<nat>
    decreases leaves.len(),
{
    if leaves.len() == 0 {
        Seq::empty()
    } else {
        append_nodes::<H>(
            build::<H>(leaves.drop_last()),
            (leaves.len() - 1) as nat,
            leaves.last(),
        )
    }
}

/// The peaks folded into one value from the shortest tree up: the last peak
/// stands for itself, and each peak before it is combined with what the
/// peaks after it gave.
pub open spec fn bag<H: Hasher>(peaks: Seq<nat>) -> nat
    decreases peaks.len(),
{
    if peaks.len() == 0 {
        0
    } else if peaks.len() == 1 {
        peaks[0]
    } else {
        H::spec_hash(peaks[0], bag::<H>(peaks.drop_first()))
    }
}

/// The root of a range with the nodes `nodes`: the node count combined with
/// the folded peaks.
pub open spec fn root_of<H: Hasher>(nodes: Seq<nat>) -> nat {
    H::spec_hash(nodes.len(), bag::<H>(peak_values(nodes)))
}

/// An append stores a parent for each peak it merges.
pub proof fn lemma_merge_chain_len<H: Hasher>(peaks: Seq<nat>, last: nat, count: nat)
    ensures
        merge_chain::<H>(peaks, last, count).len() == if count <= peaks.len() {
            count
        } else {
            peaks.len()
        },
    decreases count,
{
    if count > 0 && peaks.len() > 0 {
        lemma_merge_chain_len::<H>(
            peaks.drop_last(),
            H::spec_hash(peaks.last(), last),
            (count - 1) as nat,
        );
    }
}

/// Appending to the nodes of `leaves` leaves gives the nodes of one leaf
/// more: the old nodes, then the leaf, then one parent for each trailing one
/// bit of `leaves`.
pub proof fn lemma_append_nodes_len<H: Hasher>(nodes: Seq<nat>, leaves: nat, element: nat)
    requires
        nodes.len() == mmr_size(leaves),
    ensures
        append_nodes::<H>(nodes, leaves, element).len() == mmr_size(leaves + 1),
        append_nodes::<H>(nodes, leaves, element).len() == nodes.len() + 1 + trailing_ones(
            leaves,
        ),
        append_nodes::<H>(nodes, leaves, element).subrange(0, nodes.len() as int) == nodes,
        append_nodes::<H>(nodes, leaves, element)[nodes.len() as int] == element,
{
    lemma_valid_size_of_leaves(leaves);
    lemma_count_ones_le(leaves);
    lemma_mmr_size_step(leaves);
    lemma_merge_chain_len::<H>(peak_values(nodes), element, trailing_ones(leaves));
    assert(append_nodes::<H>(nodes, leaves, element).subrange(0, nodes.len() as int) =~= nodes);
}

/// The nodes that a sequence of appends leaves are as many as its leaf count asks for.
pub proof fn lemma_build_len<H: Hasher>(leaves: Seq<nat>)
    ensures
        build::<H>(leaves).len() == mmr_size(leaves.len()),
        is_valid_size(build::<H>(leaves).len()),
    decreases leaves.len(),
{
    if leaves.len() > 0 {
        lemma_build_len::<H>(leaves.drop_last());
        lemma_append_nodes_len::<H>(
            build::<H>(leaves.drop_last()),
            (leaves.len() - 1) as nat,
            leaves.last(),
        );
    }
    lemma_valid_size_of_leaves(leaves.len());
}

/// Appends never change what is stored: the nodes of a shorter sequence of
/// appends open the nodes of any sequence that continues it.
pub proof fn lemma_build_prefix<H: Hasher>(leaves: Seq<nat>, k: int)
    requires
        0 <= k <= leaves.len(),
    ensures
        build::<H>(leaves.subrange(0, k)).len() <= build::<H>(leaves).len(),
        build::<H>(leaves).subrange(0, build::<H>(leaves.subrange(0, k)).len() as int) == build::<
            H,
        >(leaves.subrange(0, k)),
    decreases leaves.len() - k,
{
    if k == leaves.len() {
        assert(leaves.subrange(0, k) =~= leaves);
        assert(build::<H>(leaves).subrange(0, build::<H>(leaves).len() as int) =~= build::<H>(
            leaves,
        ));
    } else {
        let shorter = leaves.drop_last();
        lemma_build_prefix::<H>(shorter, k);
        assert(shorter.subrange(0, k) =~= leaves.subrange(0, k));
        lemma_build_len::<H>(shorter);
        lemma_append_nodes_len::<H>(
            build::<H>(shorter),
            (leaves.len() - 1) as nat,
            leaves.last(),
        );
        let small = build::<H>(leaves.subrange(0, k));
        assert(build::<H>(leaves).subrange(0, small.len() as int) =~= build::<H>(
            shorter,
        ).subrange(0, small.len() as int));
    }
}

} // verus!
