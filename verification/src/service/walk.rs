//! The walk up the parent links that a move makes before it is let through,
//! and what its three ends say of the chain it walked.

use vstd::prelude::*;
use crate::repo::ancestry::lemma_ancestor_compose;
use crate::repo::ancestry::lemma_ancestor_ends;
use crate::repo::ancestry::lemma_ancestor_reaches;
use crate::repo::ancestry::lemma_ancestor_step;
use crate::repo::tree_lemmas::lemma_ids_fit;
use crate::repo::tree_lemmas::lemma_node_index;
use crate::repo::tree_state::TreeState;

verus! {

/// How the walk up from a candidate parent ends.
pub enum WalkEnd {
    /// The chain ended at the root level and did not hold the node.
    Clear,
    /// The walk reached the node, or a node it had met before.
    Cycle,
    /// The walk reached a node that is not visible.
    Hidden(u128),
}

/// Node `id` is `p` or one of the parents above `p`.
pub open spec fn on_chain(s: TreeState, p: u128, id: u128) -> bool {
    exists|k: nat| #[trigger] s.ancestor(p, k) == Some(id)
}

/// The node that the chain from `p` reaches after `k` links is one that it
/// reached before.
pub open spec fn met_before(s: TreeState, p: u128, k: nat) -> bool {
    exists|i: nat| i < k && #[trigger] s.ancestor(p, i) == s.ancestor(p, k)
}

/// The chain from `p` meets a node twice: the parent links loop.
pub open spec fn meets_twice(s: TreeState, p: u128) -> bool {
    exists|k: nat| #[trigger] s.ancestor(p, k) is Some && met_before(s, p, k)
}

/// How the walk ends that has come `k` links up from `p` and may go
/// `fuel` links further: at each node it asks, in this order, whether
/// the node is `id`, whether it was met before, and whether it is visible.
pub open spec fn walk_from(s: TreeState, p: u128, id: u128, k: nat, fuel: nat) -> WalkEnd
    decreases fuel,
{
    match s.ancestor(p, k) {
        None => WalkEnd::Clear,
        Some(c) => if c == id || met_before(s, p, k) {
            WalkEnd::Cycle
        } else if !s.visible_node(c) {
            WalkEnd::Hidden(c)
        } else if fuel == 0 {
            WalkEnd::Cycle
        } else {
            walk_from(s, p, id, k + 1, (fuel - 1) as nat)
        },
    }
}

/// How the walk up from `p` in search of `id` ends. It takes no more
/// steps than there are rows, since it stops at a node it met before.
pub open spec fn walk_end(s: TreeState, p: u128, id: u128) -> WalkEnd {
    walk_from(s, p, id, 0, s.nodes.len())
}

/// The first `k` nodes of the chain from `p` were walked past: each is a
/// visible node other than `id` that was not met before.
pub open spec fn walked_past(s: TreeState, p: u128, id: u128, k: nat) -> bool {
    forall|j: nat|
        j < k ==> (#[trigger] s.ancestor(p, j)) is Some && s.ancestor(p, j) != Some(id)
            && s.visible_node(s.ancestor(p, j)->0) && !met_before(s, p, j)
}

proof fn lemma_walk_clear_from(s: TreeState, p: u128, id: u128, k: nat, fuel: nat)
    requires
        walked_past(s, p, id, k),
        walk_from(s, p, id, k, fuel) is Clear,
    ensures
        !on_chain(s, p, id),
        !meets_twice(s, p),
    decreases fuel,
{
    if s.ancestor(p, k) is None {
        assert forall|j: nat| #[trigger] s.ancestor(p, j) != Some(id) by {
            if j >= k {
                lemma_ancestor_ends(s, p, k, j);
            }
        }
        assert forall|j: nat| #[trigger] s.ancestor(p, j) is Some implies !met_before(s, p, j) by {
            if j >= k {
                lemma_ancestor_ends(s, p, k, j);
            }
        }
    } else {
        lemma_walk_clear_from(s, p, id, k + 1, (fuel - 1) as nat);
    }
}

/// **A walk that ends clear walked a chain without the node and without a
/// loop.**
pub proof fn lemma_walk_clear(s: TreeState, p: u128, id: u128)
    requires
        walk_end(s, p, id) is Clear,
    ensures
        !on_chain(s, p, id),
        !meets_twice(s, p),
{
    lemma_walk_clear_from(s, p, id, 0, s.nodes.len());
}

/// Nodes that were walked past are rows, and no two of them are the same,
/// so they are no more than the rows.
pub proof fn lemma_walked_fit(s: TreeState, p: u128, id: u128, k: nat)
    requires
        walked_past(s, p, id, k),
    ensures
        k <= s.nodes.len(),
{
    let chain = Seq::new(k, |j: int| s.ancestor(p, j as nat)->0);
    assert forall|j: int| 0 <= j < chain.len() implies s.has_node(#[trigger] chain[j]) by {
        assert(s.ancestor(p, j as nat) is Some);
    }
    assert forall|a: int, b: int| 0 <= a < chain.len() && 0 <= b < chain.len() && a != b implies chain[a]
        != chain[b] by {
        let lo = if a < b {
            a
        } else {
            b
        };
        let hi = if a < b {
            b
        } else {
            a
        };
        assert(s.ancestor(p, lo as nat) is Some && s.ancestor(p, hi as nat) is Some);
        if chain[a] == chain[b] {
            assert(s.ancestor(p, lo as nat) == s.ancestor(p, hi as nat));
            assert(met_before(s, p, hi as nat));
        }
    }
    lemma_ids_fit(s, chain);
}

proof fn lemma_walk_stop_from(s: TreeState, p: u128, id: u128, k: nat, fuel: nat)
    requires
        walked_past(s, p, id, k),
        k + fuel == s.nodes.len(),
    ensures
        walk_from(s, p, id, k, fuel) is Cycle ==> on_chain(s, p, id) || meets_twice(s, p),
        walk_from(s, p, id, k, fuel) is Hidden ==> exists|j: nat|
            #[trigger] s.ancestor(p, j) == Some(walk_from(s, p, id, k, fuel)->0) && !s.visible_node(
                walk_from(s, p, id, k, fuel)->0,
            ),
    decreases fuel,
{
    match s.ancestor(p, k) {
        None => {},
        Some(c) => {
            if c == id || met_before(s, p, k) {
            } else if !s.visible_node(c) {
            } else {
                assert(walked_past(s, p, id, k + 1));
                lemma_walked_fit(s, p, id, k + 1);
                lemma_walk_stop_from(s, p, id, k + 1, (fuel - 1) as nat);
            }
        },
    }
}

/// **A walk that answers "cycle" found the node on the chain, or found the
/// chain looping; a walk that stops at a hidden node found it on the chain.**
pub proof fn lemma_walk_stop(s: TreeState, p: u128, id: u128)
    ensures
        walk_end(s, p, id) is Cycle ==> on_chain(s, p, id) || meets_twice(s, p),
        walk_end(s, p, id) is Hidden ==> exists|j: nat|
            #[trigger] s.ancestor(p, j) == Some(walk_end(s, p, id)->0) && !s.visible_node(
                walk_end(s, p, id)->0,
            ),
{
    lemma_walk_stop_from(s, p, id, 0, s.nodes.len());
}

/// Above a folder without a tombstone in a consistent tree there are
/// folders without a tombstone only.
pub proof fn lemma_chain_of_folders(s: TreeState, p: u128, k: nat)
    requires
        s.wf(),
        s.parents_are_folders(),
        s.active_folder(p),
        s.ancestor(p, k) is Some,
    ensures
        s.active_folder(s.ancestor(p, k)->0),
    decreases k,
{
    if k > 0 {
        let k1 = (k - 1) as nat;
        lemma_ancestor_reaches(s, p, k1, k);
        lemma_chain_of_folders(s, p, k1);
        lemma_ancestor_step(s, p, k1);
        let c = s.ancestor(p, k1)->0;
        lemma_node_index(s, c);
        let i = s.index_of(c);
        assert(s.nodes[i].parent_uuid == s.ancestor(p, k));
    }
}

/// **In a consistent tree the walk answers "cycle" exactly where the node
/// is the new parent or lies above it.** It never stops at a hidden node
/// and never finds a loop.
pub proof fn lemma_walk_in_consistent_tree(s: TreeState, p: u128, id: u128)
    requires
        s.consistent(),
        s.active_folder(p),
    ensures
        walk_end(s, p, id) == (if on_chain(s, p, id) {
            WalkEnd::Cycle
        } else {
            WalkEnd::Clear
        }),
        !meets_twice(s, p),
{
    assert(!meets_twice(s, p)) by {
        if meets_twice(s, p) {
            let k = choose|k: nat| #[trigger] s.ancestor(p, k) is Some && met_before(s, p, k);
            let i = choose|i: nat| i < k && #[trigger] s.ancestor(p, i) == s.ancestor(p, k);
            lemma_ancestor_compose(s, p, i, (k - i) as nat);
            assert(s.ancestor(s.ancestor(p, i)->0, (k - i) as nat) == s.ancestor(p, i));
        }
    }
    lemma_walk_stop(s, p, id);
    if walk_end(s, p, id) is Hidden {
        let c = walk_end(s, p, id)->0;
        let j = choose|j: nat| #[trigger] s.ancestor(p, j) == Some(c) && !s.visible_node(c);
        lemma_chain_of_folders(s, p, j);
    }
    if walk_end(s, p, id) is Clear {
        lemma_walk_clear(s, p, id);
    }
}

} // verus!
