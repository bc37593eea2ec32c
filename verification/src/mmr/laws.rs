//! What holds of every accumulator, whatever was appended to it.

use crate::bits::trailing_ones;
use crate::mmr::nodes::{bag, build, lemma_build_len, peak_values, root_of};
use crate::mmr::shape::{
    is_valid_size, lemma_mmr_size_increases, lemma_valid_size_iff_reachable, mmr_size,
};
use crate::mmr::{Hasher, Mmr};
use vstd::prelude::*;

verus! {

/// Whether the strategy `H` gives one value for two different pairs.
pub open spec fn collides<H: Hasher>(x1: nat, y1: nat, x2: nat, y2: nat) -> bool {
    (x1 != x2 || y1 != y2) && H::spec_hash(x1, y1) == H::spec_hash(x2, y2)
}

/// A node count is valid exactly if some sequence of appends to an empty
/// accumulator stores that many nodes.
pub proof fn lemma_valid_size_iff_built<H: Hasher>(size: nat)
    ensures
        is_valid_size(size) <==> exists|leaves: Seq<nat>| (#[trigger] build::<H>(leaves)).len() == size,
{
    lemma_valid_size_iff_reachable(size);
    if is_valid_size(size) {
        let count = choose|count: nat| mmr_size(count) == size;
        let leaves = Seq::new(count, |i: int| 0nat);
        lemma_build_len::<H>(leaves);
        assert(build::<H>(leaves).len() == size);
    }
    if exists|leaves: Seq<nat>| (#[trigger] build::<H>(leaves)).len() == size {
        let leaves = choose|leaves: Seq<nat>| (#[trigger] build::<H>(leaves)).len() == size;
        lemma_build_len::<H>(leaves);
    }
}

/// After each append the node count is the sum, over the appends so far, of
/// one leaf and one parent for each trailing one bit of the leaf count
/// before that append.
pub proof fn lemma_size_after_appends<H: Hasher>(leaves: Seq<nat>, element: nat)
    ensures
        build::<H>(leaves).len() == mmr_size(leaves.len()),
        build::<H>(leaves.push(element)).len() == build::<H>(leaves).len() + 1 + trailing_ones(
            leaves.len(),
        ),
{
    lemma_build_len::<H>(leaves);
    lemma_build_len::<H>(leaves.push(element));
}

/// The root is a function of what was appended: two accumulators that took
/// the same values in the same order hold the same nodes and have the same root.
pub proof fn lemma_root_deterministic<H: Hasher>(a: &Mmr<H>, b: &Mmr<H>)
    requires
        a.wf(),
        b.wf(),
        a.leaves() == b.leaves(),
    ensures
        a.nodes() == b.nodes(),
        root_of::<H>(a.nodes()) == root_of::<H>(b.nodes()),
{
    a.lemma_wf();
    b.lemma_wf();
}

/// The node count is bound into the root: two ranges of different size have
/// different roots, as long as the hash strategy does not collide on the
/// very two pairs that the roots are made of.
pub proof fn lemma_root_binds_size<H: Hasher>(a: Seq<nat>, b: Seq<nat>)
    requires
        a.len() != b.len(),
        !collides::<H>(a.len(), bag::<H>(peak_values(a)), b.len(), bag::<H>(peak_values(b))),
    ensures
        root_of::<H>(a) != root_of::<H>(b),
{
}

/// Every append changes the root, as long as the hash strategy does not
/// collide on the two pairs that the roots before and after are made of.
pub proof fn lemma_root_changes_on_append<H: Hasher>(leaves: Seq<nat>, element: nat)
    requires
        ({
            let before = build::<H>(leaves);
            let after = build::<H>(leaves.push(element));
            !collides::<H>(
                before.len(),
                bag::<H>(peak_values(before)),
                after.len(),
                bag::<H>(peak_values(after)),
            )
        }),
    ensures
        root_of::<H>(build::<H>(leaves)) != root_of::<H>(build::<H>(leaves.push(element))),
{
    lemma_size_after_appends::<H>(leaves, element);
    lemma_root_binds_size::<H>(build::<H>(leaves), build::<H>(leaves.push(element)));
}

/// Two sequences of appends of different length leave different node
/// counts, and so different roots, as long as the hash strategy does not
/// collide on the two pairs that the roots are made of.
pub proof fn lemma_root_of_different_lengths<H: Hasher>(a: Seq<nat>, b: Seq<nat>)
    requires
        a.len() != b.len(),
        !collides::<H>(
            build::<H>(a).len(),
            bag::<H>(peak_values(build::<H>(a))),
            build::<H>(b).len(),
            bag::<H>(peak_values(build::<H>(b))),
        ),
    ensures
        build::<H>(a).len() != build::<H>(b).len(),
        root_of::<H>(build::<H>(a)) != root_of::<H>(build::<H>(b)),
{
    lemma_build_len::<H>(a);
    lemma_build_len::<H>(b);
    if a.len() < b.len() {
        lemma_mmr_size_increases(a.len(), b.len());
    } else {
        lemma_mmr_size_increases(b.len(), a.len());
    }
    lemma_root_binds_size::<H>(build::<H>(a), build::<H>(b));
}

} // verus!
