//! Parent chains, and why the operations of the tree keep them free of cycles.

use vstd::prelude::*;
use crate::repo::tree_lemmas::lemma_ids_fit;
use crate::repo::tree_state::TreeState;

verus! {

/// A chain of `a + b` links is a chain of `a` links followed by one of `b`.
pub proof fn lemma_ancestor_compose(s: TreeState, x: u128, a: nat, b: nat)
    ensures
        s.ancestor(x, a + b) == match s.ancestor(x, a) {
            Some(y) => s.ancestor(y, b),
            None => None,
        },
    decreases a,
{
    if a > 0 {
        match s.parent_of(x) {
            Some(p) => {
                lemma_ancestor_compose(s, p, (a - 1) as nat, b);
                assert(s.ancestor(x, a + b) == s.ancestor(p, (a + b - 1) as nat));
            },
            None => {},
        }
    }
}

/// One more link at the upper end of a chain.
pub proof fn lemma_ancestor_step(s: TreeState, x: u128, k: nat)
    ensures
        s.ancestor(x, k + 1) == match s.ancestor(x, k) {
            Some(y) => s.parent_of(y),
            None => None,
        },
{
    lemma_ancestor_compose(s, x, k, 1);
    match s.ancestor(x, k) {
        Some(y) => {
            assert(s.ancestor(y, 1) == match s.parent_of(y) {
                Some(p) => s.ancestor(p, 0),
                None => None,
            });
        },
        None => {},
    }
}

/// A chain that has ended does not go on.
pub proof fn lemma_ancestor_ends(s: TreeState, x: u128, j: nat, k: nat)
    requires
        s.ancestor(x, j) is None,
        j <= k,
    ensures
        s.ancestor(x, k) is None,
{
    lemma_ancestor_compose(s, x, j, (k - j) as nat);
}

/// In well-formed tables a chain that starts at a row runs over rows.
pub proof fn lemma_ancestors_exist(s: TreeState, x: u128, k: nat)
    requires
        s.wf(),
        s.has_node(x),
        s.ancestor(x, k) is Some,
    ensures
        s.has_node(s.ancestor(x, k)->0),
    decreases k,
{
    if k > 0 {
        let p = s.parent_of(x)->0;
        let i = s.index_of(x);
        assert(s.nodes[i].parent_uuid == Some(p));
        lemma_ancestors_exist(s, p, (k - 1) as nat);
    }
}

/// Every parent link of `t` is a parent link of `s`.
pub open spec fn links_within(s: TreeState, t: TreeState) -> bool {
    forall|y: u128| #[trigger] t.parent_of(y) is Some ==> t.parent_of(y) == s.parent_of(y)
}

/// Every parent link of `t` is a parent link of `s`, but for the link of
/// `id`, which leads to `to` if it is there.
pub open spec fn relinked(s: TreeState, t: TreeState, id: u128, to: Option<u128>) -> bool {
    &&& forall|y: u128| y != id && #[trigger] t.parent_of(y) is Some ==> t.parent_of(y) == s.parent_of(y)
    &&& t.parent_of(id) is Some ==> t.parent_of(id) == to
}

proof fn lemma_cut_keeps_chains(s: TreeState, t: TreeState, x: u128, k: nat)
    requires
        links_within(s, t),
        t.ancestor(x, k) is Some,
    ensures
        t.ancestor(x, k) == s.ancestor(x, k),
    decreases k,
{
    if k > 0 {
        assert(t.parent_of(x) is Some);
        lemma_cut_keeps_chains(s, t, t.parent_of(x)->0, (k - 1) as nat);
    }
}

/// Taking parent links away makes no cycle.
pub proof fn lemma_cut_acyclic(s: TreeState, t: TreeState)
    requires
        s.acyclic(),
        links_within(s, t),
    ensures
        t.acyclic(),
{
    assert forall|x: u128, k: nat| k >= 1 implies #[trigger] t.ancestor(x, k) != Some(x) by {
        if t.ancestor(x, k) == Some(x) {
            lemma_cut_keeps_chains(s, t, x, k);
        }
    }
}

proof fn lemma_relink_target_chain(s: TreeState, t: TreeState, id: u128, p: u128, k: nat)
    requires
        relinked(s, t, id, Some(p)),
        forall|j: nat| #[trigger] s.ancestor(p, j) != Some(id),
        t.ancestor(p, k) is Some,
    ensures
        t.ancestor(p, k) == s.ancestor(p, k),
    decreases k,
{
    if k > 0 {
        let k1 = (k - 1) as nat;
        lemma_ancestor_step(t, p, k1);
        lemma_ancestor_step(s, p, k1);
        lemma_relink_target_chain(s, t, id, p, k1);
        let y = t.ancestor(p, k1)->0;
        assert(s.ancestor(p, k1) == Some(y));
        assert(y != id);
        assert(t.parent_of(y) is Some);
    }
}

proof fn lemma_relink_free_chain(s: TreeState, t: TreeState, id: u128, to: Option<u128>, x: u128, k: nat)
    requires
        relinked(s, t, id, to),
        forall|j: nat| j < k ==> #[trigger] t.ancestor(x, j) != Some(id),
        t.ancestor(x, k) is Some,
    ensures
        t.ancestor(x, k) == s.ancestor(x, k),
    decreases k,
{
    if k > 0 {
        let k1 = (k - 1) as nat;
        lemma_ancestor_step(t, x, k1);
        lemma_ancestor_step(s, x, k1);
        lemma_relink_free_chain(s, t, id, to, x, k1);
        let y = t.ancestor(x, k1)->0;
        assert(y != id);
        assert(t.parent_of(y) is Some);
    }
}

/// Giving `id` a new parent makes no cycle where the chain of the new
/// parent does not hold `id`.
pub proof fn lemma_relink_acyclic(s: TreeState, t: TreeState, id: u128, to: Option<u128>)
    requires
        s.acyclic(),
        relinked(s, t, id, to),
        to is Some ==> forall|j: nat| #[trigger] s.ancestor(to->0, j) != Some(id),
    ensures
        t.acyclic(),
{
    assert forall|x: u128, k: nat| k >= 1 implies #[trigger] t.ancestor(x, k) != Some(x) by {
        if t.ancestor(x, k) == Some(x) {
            if exists|j: nat| j < k && #[trigger] t.ancestor(x, j) == Some(id) {
                let j = choose|j: nat| j < k && #[trigger] t.ancestor(x, j) == Some(id);
                lemma_ancestor_compose(t, x, j, k);
                lemma_ancestor_compose(t, x, k, j);
                assert(j + k == k + j);
                assert(t.ancestor(id, k) == Some(id));
                assert(t.parent_of(id) is Some);
                let p = to->0;
                assert(t.ancestor(id, k) == t.ancestor(p, (k - 1) as nat));
                lemma_relink_target_chain(s, t, id, p, (k - 1) as nat);
            } else {
                lemma_relink_free_chain(s, t, id, to, x, k);
            }
        }
    }
}

/// A chain that reaches so far has reached every step before.
pub proof fn lemma_ancestor_reaches(s: TreeState, x: u128, j: nat, k: nat)
    requires
        s.ancestor(x, k) is Some,
        j <= k,
    ensures
        s.ancestor(x, j) is Some,
{
    if s.ancestor(x, j) is None {
        lemma_ancestor_ends(s, x, j, k);
    }
}

/// A node that is reached from itself is reached from itself within as
/// many links as there are rows.
pub proof fn lemma_short_return(s: TreeState, x: u128, k: nat)
    requires
        s.wf(),
        s.has_node(x),
        k >= 1,
        s.ancestor(x, k) == Some(x),
    ensures
        exists|short: nat| 1 <= short <= s.nodes.len() && #[trigger] s.ancestor(x, short) == Some(x),
    decreases k,
{
    let n = s.nodes.len();
    if k > n {
        let chain = Seq::new((n + 1) as nat, |j: int| s.ancestor(x, j as nat)->0);
        assert forall|j: int| 0 <= j < chain.len() implies s.has_node(#[trigger] chain[j]) by {
            lemma_ancestor_reaches(s, x, j as nat, k);
            lemma_ancestors_exist(s, x, j as nat);
        }
        if chain.no_duplicates() {
            lemma_ids_fit(s, chain);
        }
        let (a, b) = choose|a: int, b: int|
            0 <= a < chain.len() && 0 <= b < chain.len() && a != b && chain[a] == chain[b];
        let lo = if a < b {
            a
        } else {
            b
        };
        let hi = if a < b {
            b
        } else {
            a
        };
        let y = chain[lo];
        lemma_ancestor_reaches(s, x, lo as nat, k);
        lemma_ancestor_reaches(s, x, hi as nat, k);
        assert(s.ancestor(x, lo as nat) == Some(y));
        assert(s.ancestor(x, hi as nat) == Some(y));
        lemma_ancestor_compose(s, x, hi as nat, (k - hi) as nat);
        lemma_ancestor_compose(s, x, lo as nat, (k - hi) as nat);
        assert(hi + (k - hi) == k);
        let shorter = (lo + (k - hi)) as nat;
        assert(s.ancestor(x, shorter) == Some(x));
        lemma_short_return(s, x, shorter);
    }
}

} // verus!
