//! The shape of a Merkle Mountain Range: how many nodes a number of leaves
//! takes, which node counts can occur, and where the peaks stand.

use crate::bits::{
    bit_length, count_ones, lemma_bit_length_bounds, lemma_count_ones_high_bit,
    lemma_count_ones_le, lemma_count_ones_succ, trailing_ones,
};
use crate::bits::lemma_bit_length_le;
use vstd::arithmetic::power2::{
    lemma2_to64, lemma_pow2_pos, lemma_pow2_strictly_increases, lemma_pow2_unfold, pow2,
};
use vstd::prelude::*;

verus! {

/// The number of nodes stored after `leaves` appends: each append stores the
/// leaf and one parent for every subtree that it completes, as many as the
/// leaf count before it has trailing one bits.
pub open spec fn mmr_size(leaves: nat) -> nat
    decreases leaves,
{
    if leaves == 0 {
        0
    } else {
        mmr_size((leaves - 1) as nat) + 1 + trailing_ones((leaves - 1) as nat)
    }
}

/// The number of nodes of a perfect binary tree with `height` levels.
pub open spec fn subtree_size(height: nat) -> nat {
    (pow2(height) - 1) as nat
}

/// What is left of `remaining` after the trees of `height`, `height - 1`, ..., 1
/// levels have each been taken away where they fit.
pub open spec fn greedy_remainder(remaining: nat, height: nat) -> nat
    decreases height,
{
    if height == 0 {
        remaining
    } else if subtree_size(height) <= remaining {
        greedy_remainder((remaining - subtree_size(height)) as nat, (height - 1) as nat)
    } else {
        greedy_remainder(remaining, (height - 1) as nat)
    }
}

/// The positions, counted from `offset`, at which the trees taken away by
/// [`greedy_remainder`] end.
pub open spec fn greedy_peaks(remaining: nat, offset: nat, height: nat) -> Seq<nat>
    decreases height,
{
    if height == 0 {
        Seq::empty()
    } else if subtree_size(height) <= remaining {
        seq![offset + subtree_size(height)] + greedy_peaks(
            (remaining - subtree_size(height)) as nat,
            offset + subtree_size(height),
            (height - 1) as nat,
        )
    } else {
        greedy_peaks(remaining, offset, (height - 1) as nat)
    }
}

/// Whether `size` nodes split into perfect trees of strictly decreasing height.
pub open spec fn is_valid_size(size: nat) -> bool {
    greedy_remainder(size, bit_length(size)) == 0
}

/// The 1-indexed positions of the peaks of a range of `size` nodes, the
/// tallest tree first.
pub open spec fn peak_positions(size: nat) -> Seq<nat> {
    greedy_peaks(size, 0, bit_length(size))
}

/// The number of nodes between the peak at `i` and the one before it, which
/// is the size of the tree under that peak.
pub open spec fn peak_span(peaks: Seq<nat>, i: int) -> int {
    if i == 0 {
        peaks[0] as int
    } else {
        peaks[i] - peaks[i - 1]
    }
}

/// [`peak_span`] for peaks that are counted from `offset`.
pub open spec fn span_from(peaks: Seq<nat>, offset: nat, i: int) -> int {
    if i == 0 {
        peaks[0] - offset
    } else {
        peaks[i] - peaks[i - 1]
    }
}

/// Whether `span` is the size of a perfect tree of at least one and at most `height` levels.
pub open spec fn is_tree_size(span: int, height: nat) -> bool {
    exists|h: nat| 1 <= h <= height && span == subtree_size(h)
}

/// The leaf count that [`greedy_remainder`] finds for `remaining`.
pub open spec fn greedy_leaves(remaining: nat, height: nat) -> nat
    decreases height,
{
    if height == 0 {
        0
    } else if subtree_size(height) <= remaining {
        pow2((height - 1) as nat) + greedy_leaves(
            (remaining - subtree_size(height)) as nat,
            (height - 1) as nat,
        )
    } else {
        greedy_leaves(remaining, (height - 1) as nat)
    }
}

/// The node count in closed form: twice the leaves less their one bits.
pub proof fn lemma_mmr_size_closed_form(leaves: nat)
    ensures
        mmr_size(leaves) + count_ones(leaves) == 2 * leaves,
        leaves <= mmr_size(leaves) <= 2 * leaves,
    decreases leaves,
{
    lemma_count_ones_le(leaves);
    if leaves > 0 {
        lemma_mmr_size_closed_form((leaves - 1) as nat);
        lemma_count_ones_succ((leaves - 1) as nat);
    }
}

/// One append stores the leaf and a parent for each trailing one bit of the
/// leaf count before it.
pub proof fn lemma_mmr_size_step(leaves: nat)
    ensures
        mmr_size(leaves + 1) == mmr_size(leaves) + 1 + trailing_ones(leaves),
        mmr_size(leaves + 1) > mmr_size(leaves),
{
}

/// More leaves take more nodes.
pub proof fn lemma_mmr_size_increases(a: nat, b: nat)
    requires
        a < b,
    ensures
        mmr_size(a) < mmr_size(b),
    decreases b,
{
    if a + 1 < b {
        lemma_mmr_size_increases(a, (b - 1) as nat);
    }
}

/// A leaf count with a bit set above all the bits of `m` takes a whole tree
/// more than `m` does.
pub proof fn lemma_mmr_size_high_bit(m: nat, k: nat)
    requires
        m < pow2(k),
    ensures
        mmr_size(pow2(k) + m) == subtree_size(k + 1) + mmr_size(m),
        mmr_size(m) < subtree_size(k + 1),
{
    lemma_mmr_size_closed_form(m);
    lemma_mmr_size_closed_form(pow2(k) + m);
    lemma_count_ones_high_bit(m, k);
    lemma_pow2_unfold(k + 1);
    lemma_pow2_pos(k);
}

/// Trees too tall to fit change nothing.
pub proof fn lemma_greedy_skip(remaining: nat, offset: nat, low: nat, high: nat)
    requires
        remaining < subtree_size(low + 1),
        low <= high,
    ensures
        greedy_remainder(remaining, high) == greedy_remainder(remaining, low),
        greedy_peaks(remaining, offset, high) == greedy_peaks(remaining, offset, low),
        greedy_leaves(remaining, high) == greedy_leaves(remaining, low),
    decreases high - low,
{
    if low < high {
        lemma_greedy_skip(remaining, offset, low, (high - 1) as nat);
        lemma_pow2_pos(high);
        lemma_pow2_pos(low + 1);
        if low + 1 < high {
            vstd::arithmetic::power2::lemma_pow2_strictly_increases(low + 1, high);
        }
    }
}

/// The node count of `leaves` leaves splits without remainder, into as many
/// trees as `leaves` has one bits.
pub proof fn lemma_greedy_of_size(leaves: nat, offset: nat, height: nat)
    requires
        leaves < pow2(height),
    ensures
        greedy_remainder(mmr_size(leaves), height) == 0,
        greedy_peaks(mmr_size(leaves), offset, height).len() == count_ones(leaves),
        greedy_leaves(mmr_size(leaves), height) == leaves,
    decreases height,
{
    if height == 0 {
        assert(pow2(0) == 1) by {
            vstd::arithmetic::power2::lemma2_to64();
        }
    } else {
        let k = (height - 1) as nat;
        lemma_pow2_unfold(height);
        if leaves >= pow2(k) {
            let m = (leaves - pow2(k)) as nat;
            lemma_mmr_size_high_bit(m, k);
            lemma_count_ones_high_bit(m, k);
            lemma_greedy_of_size(m, offset + subtree_size(height), k);
        } else {
            lemma_mmr_size_high_bit(leaves, k);
            lemma_greedy_of_size(leaves, offset, k);
        }
    }
}

/// Where the split leaves no remainder, it names a leaf count with that node count.
pub proof fn lemma_greedy_leaves(remaining: nat, height: nat)
    requires
        greedy_remainder(remaining, height) == 0,
    ensures
        greedy_leaves(remaining, height) < pow2(height),
        mmr_size(greedy_leaves(remaining, height)) == remaining,
    decreases height,
{
    if height == 0 {
        lemma_pow2_pos(0);
    } else {
        let k = (height - 1) as nat;
        lemma_pow2_unfold(height);
        if subtree_size(height) <= remaining {
            let rest = (remaining - subtree_size(height)) as nat;
            lemma_greedy_leaves(rest, k);
            lemma_mmr_size_high_bit(greedy_leaves(rest, k), k);
        } else {
            lemma_greedy_leaves(remaining, k);
        }
    }
}

/// What the split yields: positions that increase, none beyond what was taken
/// away, the last one at the end of it, over trees that shrink.
pub proof fn lemma_greedy_peaks_shape(remaining: nat, offset: nat, height: nat)
    ensures
        ({
            let peaks = greedy_peaks(remaining, offset, height);
            let taken = remaining - greedy_remainder(remaining, height);
            &&& 0 <= taken
            &&& peaks.len() <= height
            &&& forall|i: int| 0 <= i < peaks.len() ==> offset < #[trigger] peaks[i] <= offset + taken
            &&& forall|i: int, j: int| 0 <= i < j < peaks.len() ==> peaks[i] < peaks[j]
            &&& peaks.len() == 0 ==> taken == 0
            &&& peaks.len() > 0 ==> peaks.last() == offset + taken
            &&& forall|i: int|
                0 <= i < peaks.len() ==> is_tree_size(#[trigger] span_from(peaks, offset, i), height)
            &&& forall|i: int|
                0 <= i < peaks.len() - 1 ==> #[trigger] span_from(peaks, offset, i + 1) < span_from(
                    peaks,
                    offset,
                    i,
                )
        }),
    decreases height,
{
    if height > 0 {
        let k = (height - 1) as nat;
        let tree = subtree_size(height);
        lemma_pow2_unfold(height);
        lemma_pow2_pos(k);
        let peaks = greedy_peaks(remaining, offset, height);
        if tree <= remaining {
            let rest = greedy_peaks((remaining - tree) as nat, offset + tree, k);
            lemma_greedy_peaks_shape((remaining - tree) as nat, offset + tree, k);
            assert(peaks =~= seq![offset + tree] + rest);
            assert forall|i: int| 0 < i < peaks.len() implies peaks[i] == rest[i - 1] by {}
            assert(span_from(peaks, offset, 0) == tree);
            assert forall|i: int| 0 < i < peaks.len() implies span_from(peaks, offset, i)
                == span_from(rest, offset + tree, i - 1) by {
                if i > 1 {
                    assert(peaks[i - 1] == rest[i - 2]);
                }
            }
            assert forall|i: int| 0 <= i < peaks.len() implies is_tree_size(
                #[trigger] span_from(peaks, offset, i),
                height,
            ) by {
                if i > 0 {
                    let d = span_from(rest, offset + tree, i - 1);
                    assert(is_tree_size(d, k));
                    let h = choose|h: nat| 1 <= h <= k && d == subtree_size(h);
                    assert(1 <= h <= height && span_from(peaks, offset, i) == subtree_size(h));
                } else {
                    assert(1 <= height <= height && span_from(peaks, offset, i) == subtree_size(
                        height,
                    ));
                }
            }
            assert forall|i: int| 0 <= i < peaks.len() - 1 implies #[trigger] span_from(
                peaks,
                offset,
                i + 1,
            ) < span_from(peaks, offset, i) by {
                if i == 0 {
                    let d = span_from(rest, offset + tree, 0);
                    assert(is_tree_size(d, k));
                    let h = choose|h: nat| 1 <= h <= k && d == subtree_size(h);
                    if h < k {
                        vstd::arithmetic::power2::lemma_pow2_strictly_increases(h, k);
                    }
                } else {
                    assert(span_from(peaks, offset, i + 1) == span_from(rest, offset + tree, i));
                    assert(span_from(rest, offset + tree, (i - 1) + 1) < span_from(
                        rest,
                        offset + tree,
                        i - 1,
                    ));
                }
            }
        } else {
            lemma_greedy_peaks_shape(remaining, offset, k);
            let same = greedy_peaks(remaining, offset, k);
            assert forall|i: int| 0 <= i < peaks.len() implies is_tree_size(
                #[trigger] span_from(peaks, offset, i),
                height,
            ) by {
                let d = span_from(same, offset, i);
                assert(is_tree_size(d, k));
                let h = choose|h: nat| 1 <= h <= k && d == subtree_size(h);
                assert(1 <= h <= height && d == subtree_size(h));
            }
        }
    }
}

/// The peaks of a valid node count: positions from 1 to `size` that increase,
/// the last one at `size`, over trees that shrink from each peak to the next.
pub proof fn lemma_peaks_of_valid_size(size: nat)
    requires
        is_valid_size(size),
    ensures
        ({
            let peaks = peak_positions(size);
            &&& forall|i: int| 0 <= i < peaks.len() ==> 1 <= #[trigger] peaks[i] <= size
            &&& forall|i: int, j: int| 0 <= i < j < peaks.len() ==> peaks[i] < peaks[j]
            &&& size == 0 <==> peaks.len() == 0
            &&& size > 0 ==> peaks.last() == size
            &&& forall|i: int|
                0 <= i < peaks.len() ==> is_tree_size(
                    #[trigger] peak_span(peaks, i),
                    bit_length(size),
                )
            &&& forall|i: int|
                0 <= i < peaks.len() - 1 ==> #[trigger] peak_span(peaks, i + 1) < peak_span(
                    peaks,
                    i,
                )
        }),
{
    let peaks = peak_positions(size);
    lemma_greedy_peaks_shape(size, 0, bit_length(size));
    assert forall|i: int| 0 <= i < peaks.len() implies peak_span(peaks, i) == span_from(
        peaks,
        0,
        i,
    ) by {}
    assert forall|i: int| 0 <= i < peaks.len() implies is_tree_size(
        #[trigger] peak_span(peaks, i),
        bit_length(size),
    ) by {
        assert(is_tree_size(span_from(peaks, 0, i), bit_length(size)));
    }
    assert forall|i: int| 0 <= i < peaks.len() - 1 implies #[trigger] peak_span(peaks, i + 1)
        < peak_span(peaks, i) by {
        assert(span_from(peaks, 0, i + 1) < span_from(peaks, 0, i));
    }
}

/// The node counts that pass [`is_valid_size`] are those that some number of
/// appends to an empty range produces.
pub proof fn lemma_valid_size_iff_reachable(size: nat)
    ensures
        is_valid_size(size) <==> exists|leaves: nat| mmr_size(leaves) == size,
{
    let bits = bit_length(size);
    lemma_bit_length_bounds(size);
    lemma_pow2_unfold(bits + 1);
    if is_valid_size(size) {
        lemma_greedy_leaves(size, bits);
        assert(mmr_size(greedy_leaves(size, bits)) == size);
    }
    if exists|leaves: nat| mmr_size(leaves) == size {
        let leaves = choose|leaves: nat| mmr_size(leaves) == size;
        lemma_valid_size_of_leaves(leaves);
    }
}

/// The node count of any number of leaves is valid, and the split finds the
/// leaf count again.
pub proof fn lemma_valid_size_of_leaves(leaves: nat)
    ensures
        is_valid_size(mmr_size(leaves)),
        peak_positions(mmr_size(leaves)).len() == count_ones(leaves),
        greedy_leaves(mmr_size(leaves), bit_length(mmr_size(leaves))) == leaves,
{
    let size = mmr_size(leaves);
    let bits = bit_length(size);
    let h = bit_length(leaves);
    lemma_bit_length_bounds(size);
    lemma_bit_length_bounds(leaves);
    lemma_pow2_unfold(bits + 1);
    lemma_greedy_of_size(leaves, 0, h);
    lemma_mmr_size_high_bit(leaves, h);
    if bits >= h {
        lemma_greedy_skip(size, 0, h, bits);
    } else {
        lemma_greedy_skip(size, 0, bits, h);
    }
}

/// Two leaf counts with the same node count are the same.
pub proof fn lemma_mmr_size_injective(a: nat, b: nat)
    requires
        mmr_size(a) == mmr_size(b),
    ensures
        a == b,
{
    if a < b {
        lemma_mmr_size_increases(a, b);
    } else if b < a {
        lemma_mmr_size_increases(b, a);
    }
}

/// The height of the tallest tree that a split of `size` nodes has to try,
/// which is the bit length of `size`, and the number of nodes of that tree.
pub fn tallest_tree(size: u64) -> (top: (u32, u128))
    ensures
        top.0 == bit_length(size as nat),
        top.0 <= 64,
        top.1 == subtree_size(top.0 as nat),
{
    let mut height: u32 = 0;
    let mut tree: u128 = 0;
    proof {
        lemma2_to64();
        lemma_bit_length_le(size as nat, 64);
        lemma_bit_length_bounds(size as nat);
    }
    while tree < size as u128
        invariant
            tree == subtree_size(height as nat),
            pow2(height as nat) >= 1,
            height <= bit_length(size as nat) <= 64,
            (size as nat) < pow2(bit_length(size as nat)),
        decreases bit_length(size as nat) - height,
    {
        proof {
            lemma_pow2_unfold((height + 1) as nat);
            if height >= bit_length(size as nat) {
                if height > bit_length(size as nat) {
                    lemma_pow2_strictly_increases(bit_length(size as nat), height as nat);
                }
                assert(false);
            }
        }
        tree = 2 * tree + 1;
        height = height + 1;
    }
    proof {
        lemma_bit_length_bounds(size as nat);
        if height < bit_length(size as nat) {
            if height + 1 < bit_length(size as nat) {
                lemma_pow2_strictly_increases(
                    height as nat,
                    (bit_length(size as nat) - 1) as nat,
                );
            }
            assert(false);
        }
    }
    (height, tree)
}

} // verus!
