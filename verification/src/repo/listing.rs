//! Every parent has a listing of its children.

use vstd::prelude::*;
use vstd::seq_lib::lemma_seq_contains_after_push;
use crate::repo::tree_state::ChildFilter;
use crate::repo::tree_state::NodeRow;
use crate::repo::tree_state::TreeState;
use crate::repo::tree_state::key_lt;

verus! {

/// `rows` with `x` put in at its place in sibling order.
pub open spec fn sorted_insert(rows: Seq<NodeRow>, x: NodeRow) -> Seq<NodeRow>
    decreases rows.len(),
{
    if rows.len() == 0 {
        seq![x]
    } else if key_lt(rows.last(), x) {
        rows.push(x)
    } else {
        sorted_insert(rows.drop_last(), x).push(rows.last())
    }
}

/// The listing of the children of `parent` among the first `n` rows.
pub open spec fn listing_upto(s: TreeState, filter: ChildFilter, parent: Option<u128>, n: nat) -> Seq<
    NodeRow,
>
    decreases n,
{
    if n == 0 {
        Seq::empty()
    } else {
        let prev = listing_upto(s, filter, parent, (n - 1) as nat);
        let x = s.nodes[n - 1];
        if s.selects(filter, parent, x) {
            sorted_insert(prev, x)
        } else {
            prev
        }
    }
}

pub open spec fn sorted(rows: Seq<NodeRow>) -> bool {
    forall|a: int, b: int| 0 <= a < b < rows.len() ==> key_lt(#[trigger] rows[a], #[trigger] rows[b])
}

proof fn lemma_sorted_insert(rows: Seq<NodeRow>, x: NodeRow)
    requires
        sorted(rows),
        forall|k: int| 0 <= k < rows.len() ==> (#[trigger] rows[k]).node_uuid != x.node_uuid,
    ensures
        sorted(sorted_insert(rows, x)),
        forall|y: NodeRow| #[trigger] sorted_insert(rows, x).contains(y) <==> (rows.contains(y) || y == x),
    decreases rows.len(),
{
    let out = sorted_insert(rows, x);
    if rows.len() == 0 {
        assert(out[0] == x);
        assert forall|y: NodeRow| #[trigger] out.contains(y) <==> (rows.contains(y) || y == x) by {
            if out.contains(y) {
                let i = choose|i: int| 0 <= i < out.len() && out[i] == y;
                assert(i == 0);
            }
        }
    } else if key_lt(rows.last(), x) {
        assert forall|y: NodeRow| #[trigger] out.contains(y) <==> (rows.contains(y) || y == x) by {
            lemma_seq_contains_after_push(rows, x, y);
        }
        assert forall|a: int, b: int| 0 <= a < b < out.len() implies key_lt(
            #[trigger] out[a],
            #[trigger] out[b],
        ) by {
            if b == rows.len() {
                assert(out[a] == rows[a]);
                if a < rows.len() - 1 {
                    assert(key_lt(rows[a], rows[rows.len() - 1]));
                }
            } else {
                assert(out[a] == rows[a] && out[b] == rows[b]);
            }
        }
    } else {
        let head = rows.drop_last();
        let sub = sorted_insert(head, x);
        assert forall|a: int, b: int| 0 <= a < b < head.len() implies key_lt(
            #[trigger] head[a],
            #[trigger] head[b],
        ) by {
            assert(head[a] == rows[a] && head[b] == rows[b]);
        }
        assert forall|k: int| 0 <= k < head.len() implies (#[trigger] head[k]).node_uuid
            != x.node_uuid by {
            assert(head[k] == rows[k]);
        }
        lemma_sorted_insert(head, x);
        assert(rows[rows.len() - 1].node_uuid != x.node_uuid);
        assert(key_lt(x, rows.last()));
        assert forall|a: int, b: int| 0 <= a < b < out.len() implies key_lt(
            #[trigger] out[a],
            #[trigger] out[b],
        ) by {
            if b == sub.len() {
                assert(out[a] == sub[a]);
                assert(sub.contains(sub[a]));
                if head.contains(sub[a]) {
                    let i = choose|i: int| 0 <= i < head.len() && head[i] == sub[a];
                    assert(key_lt(rows[i], rows[rows.len() - 1]));
                }
            } else {
                assert(out[a] == sub[a] && out[b] == sub[b]);
            }
        }
        assert forall|y: NodeRow| #[trigger] out.contains(y) <==> (rows.contains(y) || y == x) by {
            lemma_seq_contains_after_push(sub, rows.last(), y);
            assert(out.contains(y) <==> (sub.contains(y) || y == rows.last()));
            if rows.contains(y) {
                let i = choose|i: int| 0 <= i < rows.len() && rows[i] == y;
                if i < head.len() {
                    assert(head[i] == y);
                }
            }
            if head.contains(y) {
                let i = choose|i: int| 0 <= i < head.len() && head[i] == y;
                assert(rows[i] == y);
            }
            assert(rows[rows.len() - 1] == rows.last());
        }
    }
}

proof fn lemma_listing_upto(s: TreeState, filter: ChildFilter, parent: Option<u128>, n: nat)
    requires
        s.unique_nodes(),
        n <= s.nodes.len(),
    ensures
        sorted(listing_upto(s, filter, parent, n)),
        forall|y: NodeRow|
            #[trigger] listing_upto(s, filter, parent, n).contains(y) <==> (exists|i: int|
                0 <= i < n && #[trigger] s.nodes[i] == y && s.selects(filter, parent, y)),
    decreases n,
{
    let out = listing_upto(s, filter, parent, n);
    if n > 0 {
        let prev = listing_upto(s, filter, parent, (n - 1) as nat);
        let x = s.nodes[n - 1];
        lemma_listing_upto(s, filter, parent, (n - 1) as nat);
        if s.selects(filter, parent, x) {
            assert forall|k: int| 0 <= k < prev.len() implies (#[trigger] prev[k]).node_uuid
                != x.node_uuid by {
                assert(prev.contains(prev[k]));
                let i = choose|i: int|
                    0 <= i < n - 1 && #[trigger] s.nodes[i] == prev[k] && s.selects(
                        filter,
                        parent,
                        prev[k],
                    );
                assert(s.nodes[i].node_uuid != s.nodes[n - 1].node_uuid);
            }
            lemma_sorted_insert(prev, x);
        }
        assert forall|y: NodeRow| #[trigger] out.contains(y) <==> (exists|i: int|
            0 <= i < n && #[trigger] s.nodes[i] == y && s.selects(filter, parent, y)) by {
            if out.contains(y) {
                if prev.contains(y) {
                    let i = choose|i: int|
                        0 <= i < n - 1 && #[trigger] s.nodes[i] == y && s.selects(filter, parent, y);
                    assert(0 <= i < n && s.nodes[i] == y);
                } else {
                    assert(s.nodes[n - 1] == y);
                }
            }
            if exists|i: int| 0 <= i < n && #[trigger] s.nodes[i] == y && s.selects(filter, parent, y) {
                let i = choose|i: int|
                    0 <= i < n && #[trigger] s.nodes[i] == y && s.selects(filter, parent, y);
                if i < n - 1 {
                    assert(prev.contains(y));
                }
            }
        }
    }
}

/// The children of a parent have a listing, and `children` is it.
pub proof fn lemma_listing_exists(s: TreeState, filter: ChildFilter, parent: Option<u128>)
    requires
        s.unique_nodes(),
    ensures
        s.is_listing(filter, parent, s.children(filter, parent)),
{
    let rows = listing_upto(s, filter, parent, s.nodes.len());
    lemma_listing_upto(s, filter, parent, s.nodes.len());
    assert forall|k: int| 0 <= k < rows.len() implies s.nodes.contains(#[trigger] rows[k])
        && s.selects(filter, parent, rows[k]) by {
        assert(rows.contains(rows[k]));
        let i = choose|i: int|
            0 <= i < s.nodes.len() && #[trigger] s.nodes[i] == rows[k] && s.selects(
                filter,
                parent,
                rows[k],
            );
        assert(s.nodes[i] == rows[k]);
    }
    assert forall|i: int|
        0 <= i < s.nodes.len() && s.selects(filter, parent, #[trigger] s.nodes[i]) implies rows.contains(
        s.nodes[i],
    ) by {}
    assert(s.is_listing(filter, parent, rows));
}

} // verus!
