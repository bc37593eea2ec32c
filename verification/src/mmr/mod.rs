//! The Merkle Mountain Range accumulator and the hash strategies it is built on.

pub mod digest;
pub mod laws;
pub mod nodes;
pub mod shape;
pub mod tree;

use crate::bits::{trailing_ones, trailing_ones_u128};
use crate::bytes::{be_bytes, be_value};
use crate::mmr::nodes::{
    append_nodes, bag, build, lemma_append_nodes_len, lemma_build_len, merge_chain, peak_values,
    positions_of, root_of, values_at, values_of,
};
use crate::mmr::shape::{
    greedy_peaks, greedy_remainder, lemma_mmr_size_closed_form, lemma_peaks_of_valid_size,
    mmr_size, peak_positions, peak_span, subtree_size, tallest_tree,
};
use crate::uint256::{felt_prime, U256};
use vstd::arithmetic::power2::{lemma_pow2_pos, lemma_pow2_unfold};
use vstd::prelude::*;

verus! {

/// A way to combine two values into one of the same domain. The order of the
/// two matters.
pub trait Hasher: Sized {
    /// The value that `hash` gives for the values `x` and `y`.
    spec fn spec_hash(x: nat, y: nat) -> nat;

    /// The strategy, which has no state of its own.
    fn new() -> Self;

    /// Combines `x` and `y`, in this order.
    fn hash(&self, x: &U256, y: &U256) -> (digest: U256)
        ensures
            digest@ == Self::spec_hash(x@, y@),
    ;
}

/// Combines two 256-bit integers by the Keccak-256 digest of their 32-byte
/// big-endian encodings put end to end, read as a big-endian integer.
pub struct Keccak;

impl Hasher for Keccak {
    open spec fn spec_hash(x: nat, y: nat) -> nat {
        be_value(digest::keccak256_digest(be_bytes(x, 32) + be_bytes(y, 32)))
    }

    fn new() -> Self {
        Keccak
    }

    fn hash(&self, x: &U256, y: &U256) -> (digest: U256) {
        let bytes_x = x.to_be_bytes();
        let bytes_y = y.to_be_bytes();
        let mut result: Vec<u8> = Vec::new();
        let mut i: usize = 0;
        while i < 32
            invariant
                i <= 32,
                result@ == bytes_x@.subrange(0, i as int),
            decreases 32 - i,
        {
            result.push(bytes_x[i]);
            i = i + 1;
        }
        let mut j: usize = 0;
        while j < 32
            invariant
                j <= 32,
                result@ == bytes_x@ + bytes_y@.subrange(0, j as int),
            decreases 32 - j,
        {
            result.push(bytes_y[j]);
            j = j + 1;
        }
        assert(result@ == bytes_x@ + bytes_y@);
        let output = digest::keccak256(result.as_slice());
        U256::from_be_bytes(&output)
    }
}

/// Combines two values by the Poseidon hash of the Stark field, each value
/// handed over as its 32-byte big-endian encoding and the result read as a
/// big-endian integer. The result is a field element.
pub struct Poseidon;

impl Hasher for Poseidon {
    open spec fn spec_hash(x: nat, y: nat) -> nat {
        be_value(digest::poseidon_digest(be_bytes(x, 32), be_bytes(y, 32)))
    }

    fn new() -> Self {
        Poseidon
    }

    fn hash(&self, x: &U256, y: &U256) -> (digest: U256)
        ensures
            digest@ < felt_prime(),
    {
        let bytes_x = x.to_be_bytes();
        let bytes_y = y.to_be_bytes();
        let output = digest::poseidon(&bytes_x, &bytes_y);
        U256::from_be_bytes(&output)
    }
}

/// Whether `size` nodes split into perfect trees of strictly decreasing
/// height: each tree from the tallest that could fit down to a single node
/// is taken away once if it fits, and nothing may be left.
pub fn is_valid_size(size: u64) -> (valid: bool)
    ensures
        valid == shape::is_valid_size(size as nat),
{
    let (top, widest) = tallest_tree(size);
    let mut height: u32 = top;
    let mut tree: u128 = widest;
    let mut remaining: u128 = size as u128;
    while height > 0
        invariant
            tree == subtree_size(height as nat),
            remaining <= size,
            greedy_remainder(remaining as nat, height as nat) == greedy_remainder(
                size as nat,
                top as nat,
            ),
        decreases height,
    {
        proof {
            lemma_pow2_unfold(height as nat);
            lemma_pow2_pos((height - 1) as nat);
        }
        if tree <= remaining {
            remaining = remaining - tree;
        }
        tree = tree / 2;
        height = height - 1;
    }
    remaining == 0
}

/// An append-only accumulator over the hash strategy `H`: the nodes of a
/// Merkle Mountain Range in the order in which appends store them.
pub struct Mmr<H: Hasher> {
    hasher: H,
    nodes: Vec<U256>,
    leaf_count: usize,
    leaves: Ghost<Seq<nat>>,
}

impl<H: Hasher> Mmr<H> {
    /// The values of the stored nodes, in the order of their positions.
    pub closed spec fn nodes(&self) -> Seq<nat> {
        values_of(self.nodes@)
    }

    /// The values that were appended, in the order of the appends.
    pub closed spec fn leaves(&self) -> Seq<nat> {
        self.leaves@
    }

    /// Whether the stored nodes are those that the appends so far leave.
    pub closed spec fn wf(&self) -> bool {
        &&& self.leaf_count == self.leaves@.len()
        &&& self.nodes() == build::<H>(self.leaves@)
    }

    /// What a well-formed accumulator holds: the nodes that its appends
    /// leave, as many as its leaf count asks for, in trees in which every
    /// parent combines its two children.
    pub proof fn lemma_wf(&self)
        requires
            self.wf(),
        ensures
            self.nodes() == build::<H>(self.leaves()),
            self.nodes().len() == mmr_size(self.leaves().len()),
            shape::is_valid_size(self.nodes().len()),
            tree::is_merkle::<H>(self.nodes()),
    {
        lemma_build_len::<H>(self.leaves@);
        tree::lemma_build_is_merkle::<H>(self.leaves@);
    }

    /// The empty accumulator.
    pub fn new() -> (mmr: Mmr<H>)
        ensures
            mmr.wf(),
            mmr.leaves() == Seq::<nat>::empty(),
            mmr.nodes() == Seq::<nat>::empty(),
    {
        let mmr = Mmr { hasher: H::new(), nodes: Vec::new(), leaf_count: 0, leaves: Ghost(Seq::empty()) };
        assert(mmr.nodes() =~= Seq::<nat>::empty());
        mmr
    }

    /// The root: the node count combined with the peaks folded from the
    /// shortest tree up.
    pub fn get_root(&self) -> (root: U256)
        requires
            self.wf(),
            self.nodes().len() > 0,
        ensures
            root@ == root_of::<H>(self.nodes()),
            root@ == root_of::<H>(build::<H>(self.leaves())),
    {
        proof {
            self.lemma_wf();
            lemma_peaks_of_valid_size(self.nodes().len());
        }
        let positions = self.get_peaks();
        let peaks = self.retrieve_nodes(positions);
        let ghost values = peak_values(self.nodes());
        assert(values_of(peaks@) =~= values);
        let mut i: usize = peaks.len() - 1;
        let mut hash = peaks[i];
        assert(values.subrange(i as int, values.len() as int) =~= seq![values[i as int]]);
        while i > 0
            invariant
                i < peaks.len(),
                values.len() == peaks.len(),
                forall|k: int| 0 <= k < peaks.len() ==> (#[trigger] peaks[k])@ == values[k],
                hash@ == bag::<H>(values.subrange(i as int, values.len() as int)),
            decreases i,
        {
            i = i - 1;
            assert(values.subrange(i as int, values.len() as int).drop_first() =~= values.subrange(
                i + 1,
                values.len() as int,
            ));
            hash = self.hasher.hash(&peaks[i], &hash);
        }
        assert(values.subrange(0, values.len() as int) =~= values);
        self.hasher.hash(&U256::from_usize(self.size()), &hash)
    }

    /// The number of stored nodes.
    pub fn size(&self) -> (size: usize)
        ensures
            size == self.nodes().len(),
            self.wf() ==> size == mmr_size(self.leaves().len()),
    {
        proof {
            if self.wf() {
                self.lemma_wf();
            }
        }
        self.nodes.len()
    }

    /// The 1-indexed positions of the peaks, the tallest tree first.
    pub fn get_peaks(&self) -> (peaks: Vec<usize>)
        requires
            self.wf(),
        ensures
            positions_of(peaks@) == peak_positions(self.nodes().len()),
            forall|i: int| 0 <= i < peaks.len() ==> 1 <= #[trigger] peaks[i] <= self.nodes().len(),
            forall|i: int, j: int| 0 <= i < j < peaks.len() ==> peaks[i] < peaks[j],
            peaks.len() == 0 <==> self.nodes().len() == 0,
            peaks.len() > 0 ==> peaks[peaks.len() - 1] == self.nodes().len(),
            forall|i: int|
                0 <= i < peaks.len() - 1 ==> #[trigger] peak_span(
                    positions_of(peaks@),
                    i + 1,
                ) < peak_span(positions_of(peaks@), i),
    {
        let mut peaks: Vec<usize> = Vec::new();
        let node_count = self.nodes.len();
        if node_count == 0 {
            proof {
                self.lemma_wf();
                lemma_peaks_of_valid_size(0);
                assert(positions_of(peaks@) =~= peak_positions(0));
            }
            return peaks;
        }
        let (top, widest) = tallest_tree(node_count as u64);
        let mut height: u32 = top;
        let mut tree: u128 = widest;
        let mut remaining: usize = node_count;
        let mut offset: usize = 0;
        let ghost all = peak_positions(node_count as nat);
        while height > 0
            invariant
                tree == subtree_size(height as nat),
                offset + remaining == node_count,
                all == positions_of(peaks@) + greedy_peaks(
                    remaining as nat,
                    offset as nat,
                    height as nat,
                ),
                greedy_remainder(remaining as nat, height as nat) == greedy_remainder(
                    node_count as nat,
                    top as nat,
                ),
            decreases height,
        {
            proof {
                lemma_pow2_unfold(height as nat);
                lemma_pow2_pos((height - 1) as nat);
            }
            let ghost before = positions_of(peaks@);
            if tree <= remaining as u128 {
                remaining = remaining - tree as usize;
                offset = offset + tree as usize;
                peaks.push(offset);
                proof {
                    assert(positions_of(peaks@) =~= before + seq![offset as nat]);
                    assert(all =~= positions_of(peaks@) + greedy_peaks(
                        remaining as nat,
                        offset as nat,
                        (height - 1) as nat,
                    ));
                }
            }
            tree = tree / 2;
            height = height - 1;
        }
        proof {
            self.lemma_wf();
            lemma_peaks_of_valid_size(node_count as nat);
            assert(positions_of(peaks@) =~= all);
            assert forall|i: int| 0 <= i < peaks.len() implies 1 <= #[trigger] peaks[i]
                <= self.nodes().len() by {
                assert(all[i] == peaks[i] as nat);
            }
            assert forall|i: int, j: int| 0 <= i < j < peaks.len() implies peaks[i] < peaks[j] by {
                assert(all[i] == peaks[i] as nat);
                assert(all[j] == peaks[j] as nat);
            }
            assert(all[all.len() - 1] == peaks[peaks.len() - 1] as nat);
        }
        peaks
    }

    /// Appends `element` as the next leaf, and after it one parent for each
    /// tree that the leaf completes.
    pub fn append(&mut self, element: U256)
        requires
            old(self).wf(),
        ensures
            final(self).wf(),
            final(self).leaves() == old(self).leaves().push(element@),
            final(self).nodes() == append_nodes::<H>(
                old(self).nodes(),
                old(self).leaves().len(),
                element@,
            ),
            final(self).nodes().len() == old(self).nodes().len() + 1 + trailing_ones(
                old(self).leaves().len(),
            ),
            final(self).nodes().subrange(0, old(self).nodes().len() as int) == old(self).nodes(),
            final(self).nodes()[old(self).nodes().len() as int] == element@,
    {
        let ghost old_nodes = self.nodes();
        let ghost old_leaves = self.leaves@;
        proof {
            self.lemma_wf();
            lemma_peaks_of_valid_size(old_nodes.len());
            lemma_mmr_size_closed_form(old_leaves.len());
            lemma_append_nodes_len::<H>(old_nodes, old_leaves.len(), element@);
        }
        let positions = self.get_peaks();
        let peaks = self.retrieve_nodes(positions);
        let ghost values = peak_values(old_nodes);
        assert(values_of(peaks@) =~= values);
        let no_merged_peaks = trailing_ones_u128(self.leaf_count as u128);
        self.nodes.push(element);
        assert(self.leaf_count < self.nodes.len());
        self.leaf_count = self.leaf_count + 1;
        let mut last_node = element;
        let mut merged: u32 = 0;
        let mut i: usize = peaks.len();
        assert(self.nodes() =~= old_nodes + seq![element@]);
        assert(values.subrange(0, i as int) =~= values);
        while merged < no_merged_peaks && i > 0
            invariant
                i <= peaks.len(),
                merged <= no_merged_peaks,
                values.len() == peaks.len(),
                forall|k: int| 0 <= k < peaks.len() ==> (#[trigger] peaks[k])@ == values[k],
                self.leaves@ == old_leaves,
                self.leaf_count == old_leaves.len() + 1,
                append_nodes::<H>(old_nodes, old_leaves.len(), element@) == self.nodes()
                    + merge_chain::<H>(
                    values.subrange(0, i as int),
                    last_node@,
                    (no_merged_peaks - merged) as nat,
                ),
            decreases i,
        {
            let ghost stored = self.nodes();
            let ghost chain = merge_chain::<H>(
                values.subrange(0, i as int),
                last_node@,
                (no_merged_peaks - merged) as nat,
            );
            i = i - 1;
            last_node = self.hasher.hash(&peaks[i], &last_node);
            self.nodes.push(last_node);
            merged = merged + 1;
            proof {
                assert(values.subrange(0, i + 1).drop_last() =~= values.subrange(0, i as int));
                assert(self.nodes() =~= stored + seq![last_node@]);
                assert(stored + chain =~= self.nodes() + merge_chain::<H>(
                    values.subrange(0, i as int),
                    last_node@,
                    (no_merged_peaks - merged) as nat,
                ));
            }
        }
        proof {
            assert(merge_chain::<H>(
                values.subrange(0, i as int),
                last_node@,
                (no_merged_peaks - merged) as nat,
            ) =~= Seq::<nat>::empty());
            assert(self.nodes() =~= append_nodes::<H>(old_nodes, old_leaves.len(), element@));
            assert(old_leaves.push(element@).drop_last() =~= old_leaves);
        }
        self.leaves = Ghost(old_leaves.push(element@));
        proof {
            assert(self.nodes() == append_nodes::<H>(old_nodes, old_leaves.len(), element@));
        }
    }

    /// The values of the nodes at the 1-indexed positions `indices`.
    pub fn retrieve_nodes(&self, indices: Vec<usize>) -> (values: Vec<U256>)
        requires
            forall|i: int| 0 <= i < indices.len() ==> 1 <= #[trigger] indices[i] <= self.nodes().len(),
        ensures
            values.len() == indices.len(),
            forall|i: int|
                0 <= i < indices.len() ==> (#[trigger] values[i])@ == self.nodes()[indices[i] - 1],
            values_of(values@) == values_at(
                self.nodes(),
                positions_of(indices@),
            ),
    {
        let mut values: Vec<U256> = Vec::new();
        let mut i: usize = 0;
        while i < indices.len()
            invariant
                i <= indices.len(),
                values.len() == i,
                forall|k: int|
                    0 <= k < indices.len() ==> 1 <= #[trigger] indices[k] <= self.nodes().len(),
                forall|k: int| 0 <= k < i ==> (#[trigger] values[k])@ == self.nodes()[indices[k] - 1],
            decreases indices.len() - i,
        {
            values.push(self.nodes[indices[i] - 1]);
            i = i + 1;
        }
        assert(values_of(values@) =~= values_at(
            self.nodes(),
            positions_of(indices@),
        ));
        values
    }
}

} // verus!
