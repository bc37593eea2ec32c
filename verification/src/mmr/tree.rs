//! The trees under the peaks: every stored node that is not a leaf is the
//! combination of its two children.
//!
//! A tree of `h` levels takes `2^h - 1` consecutive nodes: its left subtree,
//! then its right subtree, then its root, which combines the roots of the two.

use crate::bits::{
    bit_length, count_ones, lemma_bit_length_bounds, lemma_count_ones_high_bit,
    lemma_count_ones_le, trailing_ones,
};
use crate::mmr::nodes::{build, lemma_build_len, merge_chain, peak_values};
use crate::mmr::shape::{
    greedy_peaks, lemma_greedy_of_size, lemma_greedy_peaks_shape, lemma_greedy_skip,
    lemma_mmr_size_closed_form, lemma_mmr_size_high_bit, mmr_size, peak_positions, subtree_size,
};
use crate::mmr::Hasher;
use vstd::arithmetic::power2::{
    lemma2_to64, lemma_pow2_pos, lemma_pow2_strictly_increases, lemma_pow2_unfold, pow2,
};
use vstd::prelude::*;

verus! {

/// Whether the nodes from index `start` on form a perfect tree of `height`
/// levels in which every parent combines its two children.
pub open spec fn is_mountain<H: Hasher>(nodes: Seq<nat>, start: int, height: nat) -> bool
    decreases height,
{
    if height <= 1 {
        true
    } else {
        let child = subtree_size((height - 1) as nat) as int;
        &&& is_mountain::<H>(nodes, start, (height - 1) as nat)
        &&& is_mountain::<H>(nodes, start + child, (height - 1) as nat)
        &&& nodes[start + 2 * child] == H::spec_hash(
            nodes[start + child - 1],
            nodes[start + 2 * child - 1],
        )
    }
}

/// Whether the `remaining` nodes from index `start` on are perfect trees,
/// one for each height from `height` down that fits, the tallest first.
pub open spec fn is_range<H: Hasher>(nodes: Seq<nat>, remaining: nat, start: int, height: nat) -> bool
    decreases height,
{
    if height == 0 {
        true
    } else if subtree_size(height) <= remaining {
        &&& is_mountain::<H>(nodes, start, height)
        &&& is_range::<H>(
            nodes,
            (remaining - subtree_size(height)) as nat,
            start + subtree_size(height),
            (height - 1) as nat,
        )
    } else {
        is_range::<H>(nodes, remaining, start, (height - 1) as nat)
    }
}

/// Whether `nodes` are the perfect trees of a Merkle Mountain Range: under
/// each peak a tree in which every parent combines its two children.
pub open spec fn is_merkle<H: Hasher>(nodes: Seq<nat>) -> bool {
    is_range::<H>(nodes, nodes.len(), 0, bit_length(nodes.len()))
}

/// Whether the `height` nodes after index `leaf` are the parents that merge
/// the trees of `height`, ..., 1 levels from `start` on with the node at
/// `leaf`: each combines the root of one tree, the shortest first, with the
/// node before it.
pub open spec fn is_carry<H: Hasher>(all: Seq<nat>, start: int, height: nat, leaf: int) -> bool
    decreases height,
{
    if height == 0 {
        true
    } else {
        &&& is_carry::<H>(all, start + subtree_size(height), (height - 1) as nat, leaf)
        &&& all[leaf + height] == H::spec_hash(
            all[start + subtree_size(height) - 1],
            all[leaf + height - 1],
        )
    }
}

/// A number of `k` one bits: its counts and the nodes that it takes.
pub proof fn lemma_all_ones(k: nat)
    ensures
        pow2(k) >= 1,
        count_ones((pow2(k) - 1) as nat) == k,
        trailing_ones((pow2(k) - 1) as nat) == k,
        mmr_size((pow2(k) - 1) as nat) + k + 2 == 2 * pow2(k),
    decreases k,
{
    lemma_pow2_pos(k);
    if k == 0 {
        lemma2_to64();
    } else {
        lemma_pow2_unfold(k);
        lemma_all_ones((k - 1) as nat);
        let n = (pow2(k) - 1) as nat;
        assert(n / 2 == pow2((k - 1) as nat) - 1);
        assert(n % 2 == 1);
    }
    lemma_mmr_size_closed_form((pow2(k) - 1) as nat);
}

/// A bit above a number that is not all ones does not change its trailing ones.
pub proof fn lemma_trailing_ones_high_bit(m: nat, k: nat)
    requires
        m + 1 < pow2(k),
    ensures
        trailing_ones(pow2(k) + m) == trailing_ones(m),
    decreases k,
{
    if k == 0 {
        lemma2_to64();
    } else {
        lemma_pow2_unfold(k);
        let half = pow2((k - 1) as nat);
        if m % 2 == 1 {
            assert((pow2(k) + m) / 2 == half + m / 2);
            assert((pow2(k) + m) % 2 == 1);
            lemma_trailing_ones_high_bit(m / 2, (k - 1) as nat);
        } else {
            assert((pow2(k) + m) % 2 == 0);
        }
    }
}

/// A tree is a matter of its own nodes alone.
pub proof fn lemma_mountain_frame<H: Hasher>(a: Seq<nat>, b: Seq<nat>, start: int, height: nat)
    requires
        forall|i: int| start <= i < start + subtree_size(height) ==> a[i] == b[i],
    ensures
        is_mountain::<H>(a, start, height) == is_mountain::<H>(b, start, height),
    decreases height,
{
    if height > 1 {
        let k = (height - 1) as nat;
        lemma_pow2_unfold(height);
        lemma_pow2_pos(k);
        lemma_pow2_unfold(k);
        lemma_pow2_pos((k - 1) as nat);
        lemma_mountain_frame::<H>(a, b, start, k);
        lemma_mountain_frame::<H>(a, b, start + subtree_size(k), k);
    }
}

/// The trees of a range are a matter of its own nodes alone.
pub proof fn lemma_range_frame<H: Hasher>(
    a: Seq<nat>,
    b: Seq<nat>,
    remaining: nat,
    start: int,
    height: nat,
)
    requires
        forall|i: int| start <= i < start + remaining ==> a[i] == b[i],
    ensures
        is_range::<H>(a, remaining, start, height) == is_range::<H>(b, remaining, start, height),
    decreases height,
{
    if height > 0 {
        let k = (height - 1) as nat;
        lemma_pow2_pos(height);
        if subtree_size(height) <= remaining {
            lemma_mountain_frame::<H>(a, b, start, height);
            lemma_range_frame::<H>(
                a,
                b,
                (remaining - subtree_size(height)) as nat,
                start + subtree_size(height),
                k,
            );
        } else {
            lemma_range_frame::<H>(a, b, remaining, start, k);
        }
    }
}

/// Trees too tall to fit change nothing.
pub proof fn lemma_range_skip<H: Hasher>(
    nodes: Seq<nat>,
    remaining: nat,
    start: int,
    low: nat,
    high: nat,
)
    requires
        remaining < subtree_size(low + 1),
        low <= high,
    ensures
        is_range::<H>(nodes, remaining, start, high) == is_range::<H>(nodes, remaining, start, low),
    decreases high - low,
{
    if low < high {
        lemma_range_skip::<H>(nodes, remaining, start, low, (high - 1) as nat);
        lemma_pow2_pos(high);
        lemma_pow2_pos(low + 1);
        if low + 1 < high {
            lemma_pow2_strictly_increases(low + 1, high);
        }
    }
}

/// The parents that an append stores, one by one: each combines a peak, the
/// nearest first, with the node stored before it.
pub proof fn lemma_merge_chain_index<H: Hasher>(peaks: Seq<nat>, last: nat, count: nat)
    ensures
        ({
            let chain = merge_chain::<H>(peaks, last, count);
            &&& chain.len() == if count <= peaks.len() {
                count
            } else {
                peaks.len()
            }
            &&& forall|j: int|
                0 <= j < chain.len() ==> #[trigger] chain[j] == H::spec_hash(
                    peaks[peaks.len() - 1 - j],
                    if j == 0 {
                        last
                    } else {
                        chain[j - 1]
                    },
                )
        }),
    decreases count,
{
    if count > 0 && peaks.len() > 0 {
        let parent = H::spec_hash(peaks.last(), last);
        let rest = merge_chain::<H>(peaks.drop_last(), parent, (count - 1) as nat);
        lemma_merge_chain_index::<H>(peaks.drop_last(), parent, (count - 1) as nat);
        let chain = merge_chain::<H>(peaks, last, count);
        assert(chain =~= seq![parent] + rest);
        assert forall|j: int| 0 <= j < chain.len() implies #[trigger] chain[j] == H::spec_hash(
            peaks[peaks.len() - 1 - j],
            if j == 0 {
                last
            } else {
                chain[j - 1]
            },
        ) by {
            if j > 0 {
                assert(chain[j] == rest[j - 1]);
                assert(peaks.drop_last()[peaks.len() - 1 - j] == peaks[peaks.len() - 1 - j]);
                if j > 1 {
                    assert(chain[j - 1] == rest[j - 2]);
                }
            }
        }
    }
}

/// The trees of `k`, ..., 1 levels, a node after them and the parents that
/// merge them with it are one tree of `k + 1` levels.
pub proof fn lemma_carry_makes_mountain<H: Hasher>(all: Seq<nat>, start: int, k: nat)
    requires
        is_range::<H>(all, mmr_size((pow2(k) - 1) as nat), start, k),
        is_carry::<H>(all, start, k, start + mmr_size((pow2(k) - 1) as nat)),
    ensures
        is_mountain::<H>(all, start, k + 1),
    decreases k,
{
    lemma_all_ones(k);
    if k > 0 {
        let j = (k - 1) as nat;
        lemma_all_ones(j);
        lemma_pow2_unfold(k);
        lemma_pow2_unfold(k + 1);
        assert(mmr_size((pow2(k) - 1) as nat) == subtree_size(k) + mmr_size((pow2(j) - 1) as nat));
        lemma_carry_makes_mountain::<H>(all, start + subtree_size(k), j);
        assert(start + mmr_size((pow2(k) - 1) as nat) + k == start + 2 * subtree_size(k));
    }
}

/// The parents that follow the node at `leaf`, each the combination of the
/// peak that `peaks` names for it with the node before it, merge the trees
/// of `height`, ..., 1 levels from `start` on, whose peaks are the last of `peaks`.
pub proof fn lemma_chain_is_carry<H: Hasher>(
    all: Seq<nat>,
    peaks: Seq<nat>,
    start: nat,
    height: nat,
    leaf: int,
)
    requires
        height <= peaks.len(),
        peaks.subrange(peaks.len() - height, peaks.len() as int) == greedy_peaks(
            mmr_size((pow2(height) - 1) as nat),
            start,
            height,
        ),
        forall|i: int|
            0 <= i < height ==> #[trigger] all[leaf + 1 + i] == H::spec_hash(
                all[peaks[peaks.len() - 1 - i] - 1],
                all[leaf + i],
            ),
    ensures
        is_carry::<H>(all, start as int, height, leaf),
    decreases height,
{
    if height > 0 {
        let j = (height - 1) as nat;
        lemma_all_ones(height);
        lemma_all_ones(j);
        lemma_pow2_unfold(height);
        let full = mmr_size((pow2(height) - 1) as nat);
        let tree = subtree_size(height);
        assert(full == tree + mmr_size((pow2(j) - 1) as nat));
        let suffix = peaks.subrange(peaks.len() - height, peaks.len() as int);
        let rest = greedy_peaks((full - tree) as nat, start + tree, j);
        assert(suffix =~= seq![start + tree] + rest);
        assert(peaks[peaks.len() - height] == suffix[0]);
        assert(peaks.subrange(peaks.len() - j, peaks.len() as int) =~= rest) by {
            assert forall|i: int| 0 <= i < j implies peaks.subrange(
                peaks.len() - j,
                peaks.len() as int,
            )[i] == rest[i] by {
                assert(suffix[i + 1] == rest[i]);
            }
            lemma_greedy_of_size((pow2(j) - 1) as nat, start + tree, j);
        }
        lemma_chain_is_carry::<H>(all, peaks, start + tree, j, leaf);
        assert(all[leaf + 1 + (height - 1)] == H::spec_hash(
            all[peaks[peaks.len() - 1 - (height - 1)] - 1],
            all[leaf + (height - 1)],
        ));
    }
}

/// No trees are always a range.
pub proof fn lemma_range_of_nothing<H: Hasher>(nodes: Seq<nat>, start: int, height: nat)
    ensures
        is_range::<H>(nodes, 0, start, height),
    decreases height,
{
    if height > 0 {
        lemma_pow2_unfold(height);
        lemma_pow2_pos((height - 1) as nat);
        lemma_range_of_nothing::<H>(nodes, start, (height - 1) as nat);
    }
}

/// An append keeps the trees of a range whole: where `nodes` hold the trees
/// of `leaves` leaves from `start` on, and `all` holds the same nodes, a
/// node after them at `leaf` and the parents that merge it with as many of
/// the nearest peaks as `leaves` has trailing one bits, `all` holds the
/// trees of one leaf more.
pub proof fn lemma_append_keeps_range<H: Hasher>(
    nodes: Seq<nat>,
    all: Seq<nat>,
    peaks: Seq<nat>,
    leaves: nat,
    start: nat,
    height: nat,
    leaf: int,
)
    requires
        leaves + 1 < pow2(height),
        is_range::<H>(nodes, mmr_size(leaves), start as int, height),
        leaf == start + mmr_size(leaves),
        forall|i: int| start <= i < leaf ==> all[i] == nodes[i],
        count_ones(leaves) <= peaks.len(),
        peaks.subrange(peaks.len() - count_ones(leaves), peaks.len() as int) == greedy_peaks(
            mmr_size(leaves),
            start,
            height,
        ),
        forall|i: int|
            0 <= i < trailing_ones(leaves) ==> #[trigger] all[leaf + 1 + i] == H::spec_hash(
                all[peaks[peaks.len() - 1 - i] - 1],
                all[leaf + i],
            ),
    ensures
        is_range::<H>(all, mmr_size(leaves + 1), start as int, height),
    decreases height,
{
    if height == 0 {
        lemma2_to64();
    } else {
        let k = (height - 1) as nat;
        lemma_pow2_unfold(height);
        lemma_pow2_pos(k);
        let tree = subtree_size(height);
        if leaves >= pow2(k) {
            let m = (leaves - pow2(k)) as nat;
            lemma_mmr_size_high_bit(m, k);
            lemma_mmr_size_high_bit(m + 1, k);
            lemma_count_ones_high_bit(m, k);
            lemma_trailing_ones_high_bit(m, k);
            let rest = greedy_peaks(mmr_size(m), start + tree, k);
            let suffix = peaks.subrange(peaks.len() - count_ones(leaves), peaks.len() as int);
            assert(suffix =~= seq![start + tree] + rest);
            lemma_greedy_of_size(m, start + tree, k);
            assert(peaks.subrange(peaks.len() - count_ones(m), peaks.len() as int) =~= rest) by {
                assert forall|i: int| 0 <= i < count_ones(m) implies peaks.subrange(
                    peaks.len() - count_ones(m),
                    peaks.len() as int,
                )[i] == rest[i] by {
                    assert(suffix[i + 1] == rest[i]);
                }
            }
            lemma_append_keeps_range::<H>(nodes, all, peaks, m, start + tree, k, leaf);
            lemma_mountain_frame::<H>(nodes, all, start as int, height);
        } else {
            lemma_mmr_size_high_bit(leaves, k);
            if leaves + 1 < pow2(k) {
                lemma_mmr_size_high_bit(leaves + 1, k);
                lemma_append_keeps_range::<H>(nodes, all, peaks, leaves, start, k, leaf);
            } else {
                lemma_all_ones(k);
                lemma_mmr_size_high_bit(0, k);
                lemma_range_frame::<H>(nodes, all, mmr_size(leaves), start as int, k);
                lemma_chain_is_carry::<H>(all, peaks, start, k, leaf);
                lemma_carry_makes_mountain::<H>(all, start as int, k);
                lemma_range_of_nothing::<H>(all, (start + tree) as int, k);
            }
        }
    }
}

/// Whatever is appended, the stored nodes are the trees of a Merkle
/// Mountain Range: every node that is not a leaf combines its two children.
pub proof fn lemma_build_is_merkle<H: Hasher>(leaves: Seq<nat>)
    ensures
        is_merkle::<H>(build::<H>(leaves)),
    decreases leaves.len(),
{
    if leaves.len() > 0 {
        let count = (leaves.len() - 1) as nat;
        let element = leaves.last();
        let nodes = build::<H>(leaves.drop_last());
        let all = build::<H>(leaves);
        lemma_build_is_merkle::<H>(leaves.drop_last());
        lemma_build_len::<H>(leaves.drop_last());
        lemma_build_len::<H>(leaves);
        let before = mmr_size(count);
        let after = mmr_size(count + 1);
        let low = bit_length(before);
        let top = bit_length(after);
        let height = low + top;
        lemma_bit_length_bounds(before);
        lemma_bit_length_bounds(after);
        lemma_pow2_unfold(low + 1);
        lemma_pow2_unfold(top + 1);
        lemma_pow2_pos(low);
        lemma_pow2_pos(top);
        lemma_mmr_size_closed_form(count + 1);
        if top < height {
            lemma_pow2_strictly_increases(top, height);
        }
        lemma_range_skip::<H>(nodes, before, 0, low, height);
        lemma_greedy_skip(before, 0, low, height);
        lemma_greedy_of_size(count, 0, height);
        lemma_greedy_peaks_shape(before, 0, height);
        lemma_count_ones_le(count);
        let peaks = peak_positions(before);
        let values = peak_values(nodes);
        let chain = merge_chain::<H>(values, element, trailing_ones(count));
        lemma_merge_chain_index::<H>(values, element, trailing_ones(count));
        assert(all =~= nodes + seq![element] + chain);
        assert(peaks.subrange(peaks.len() - count_ones(count), peaks.len() as int) =~= peaks);
        assert forall|i: int| 0 <= i < trailing_ones(count) implies #[trigger] all[before + 1 + i]
            == H::spec_hash(all[peaks[peaks.len() - 1 - i] - 1], all[before + i]) by {
            assert(all[before + 1 + i] == chain[i]);
            let at = peaks.len() - 1 - i;
            assert(values[at] == nodes[peaks[at] - 1]);
            assert(0 < peaks[at] <= before);
            if i > 0 {
                assert(all[before + i] == chain[i - 1]);
            }
        }
        lemma_append_keeps_range::<H>(nodes, all, peaks, count, 0, height, before as int);
        lemma_range_skip::<H>(all, after, 0, top, height);
    } else {
        assert(bit_length(0) == 0);
    }
}

} // verus!
