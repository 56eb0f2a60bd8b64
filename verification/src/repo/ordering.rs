//! Sibling order: a move numbers the visible children of the new parent
//! from 0 without a gap, and a node created among such children keeps it so.

use vstd::prelude::*;
use crate::repo::listing::lemma_listing_exists;
use crate::repo::tree_lemmas::lemma_listing_ids;
use crate::repo::tree_lemmas::lemma_listing_is_children;
use crate::repo::tree_lemmas::lemma_move_order;
use crate::repo::tree_lemmas::lemma_node_at;
use crate::repo::tree_lemmas::lemma_same_shape;
use crate::repo::tree_lemmas::lemma_with_node;
use crate::repo::tree_lemmas::same_shape;
use crate::repo::tree_state::ChildFilter;
use crate::repo::tree_state::NodeRow;
use crate::repo::tree_state::TreeState;
use crate::repo::tree_state::WorkspaceNodeKind;
use crate::repo::tree_state::key_lt;

verus! {

/// Numbers that rise, stay below `n` and leave out none of `0..n` are the
/// numbers `0, 1, 2, ...` in order.
proof fn lemma_ranks(f: Seq<int>, n: int, k: int)
    requires
        forall|a: int, b: int| 0 <= a < b < f.len() ==> f[a] < f[b],
        forall|i: int| 0 <= i < f.len() ==> 0 <= #[trigger] f[i] < n,
        forall|v: int| 0 <= v < n ==> f.contains(v),
        0 <= k < f.len(),
    ensures
        f[k] == k,
    decreases k,
{
    if k > 0 {
        lemma_ranks(f, n, k - 1);
        assert(f[k - 1] < f[k]);
    }
    assert(0 <= f[k] < n);
    assert(0 <= k < n);
    assert(f.contains(k));
    let j = choose|j: int| 0 <= j < f.len() && f[j] == k;
    if j < k {
        lemma_ranks(f, n, j);
    } else if j > k {
        assert(f[k] < f[j]);
    }
}

/// **Dense ordering after a move.** After a visible node was moved under
/// a parent, the visible children of that parent carry the sort orders
/// `0..n-1` in the order of their listing.
pub proof fn lemma_move_dense(s: TreeState, id: u128, new_parent: Option<u128>, target: Option<i64>, now: i64)
    requires
        s.wf(),
        s.visible_node(id),
        new_parent is Some ==> s.has_node(new_parent->0),
    ensures
        s.after_move(id, new_parent, target, now).dense(new_parent),
{
    let t = s.after_move(id, new_parent, target, now);
    let order = s.move_order(id, new_parent, target);
    lemma_move_order(s, id, new_parent, target);
    assert(same_shape(s, t)) by {
        assert forall|i: int| 0 <= i < s.nodes.len() implies ((#[trigger] t.nodes[i]).parent_uuid is Some
            ==> s.has_node(t.nodes[i].parent_uuid->0)) by {
            assert(s.nodes[i].parent_uuid is Some ==> s.has_node(s.nodes[i].parent_uuid->0));
        }
    }
    lemma_same_shape(s, t);
    lemma_listing_exists(t, ChildFilter::Visible, new_parent);
    let rows = t.listed(new_parent, false);
    lemma_listing_ids(t, ChildFilter::Visible, new_parent, rows);
    let f = rows.map_values(|n: NodeRow| n.sort_order as int);
    assert forall|k: int| 0 <= k < rows.len() implies order.contains(#[trigger] rows[k].node_uuid)
        && rows[k].sort_order == order.index_of(rows[k].node_uuid) by {
        assert(t.nodes.contains(rows[k]));
        let i = choose|i: int| 0 <= i < t.nodes.len() && t.nodes[i] == rows[k];
        lemma_node_at(s, i);
        if !order.contains(s.nodes[i].node_uuid) {
            assert(t.nodes[i] == s.nodes[i]);
            assert(s.selects(ChildFilter::Visible, new_parent, s.node(s.nodes[i].node_uuid)));
        }
    }
    assert forall|a: int, b: int| 0 <= a < b < f.len() implies f[a] < f[b] by {
        assert(key_lt(rows[a], rows[b]));
        if rows[a].sort_order == rows[b].sort_order {
            assert(order[order.index_of(rows[a].node_uuid)] == rows[a].node_uuid);
            assert(order[order.index_of(rows[b].node_uuid)] == rows[b].node_uuid);
            assert(crate::repo::tree_state::ids_of(rows)[a] == crate::repo::tree_state::ids_of(rows)[b]);
        }
    }
    assert forall|i: int| 0 <= i < f.len() implies 0 <= #[trigger] f[i] < order.len() by {
        assert(order.contains(rows[i].node_uuid));
    }
    assert forall|v: int| 0 <= v < order.len() implies f.contains(v) by {
        let x = order[v];
        assert(order.contains(x));
        assert(s.has_node(x));
        let i = s.index_of(x);
        assert(t.nodes[i].node_uuid == x);
        assert(order.index_of(x) == v);
        if x != id {
            assert(s.selects(ChildFilter::Visible, new_parent, s.node(x)));
        }
        assert(t.selects(ChildFilter::Visible, new_parent, t.nodes[i]));
        assert(rows.contains(t.nodes[i]));
        let k = choose|k: int| 0 <= k < rows.len() && rows[k] == t.nodes[i];
        assert(f[k] == v);
    }
    assert forall|k: int| 0 <= k < rows.len() implies (#[trigger] rows[k]).sort_order == k by {
        lemma_ranks(f, order.len() as int, k);
        assert(f[k] == rows[k].sort_order);
    }
}

/// **Dense ordering after a create.** Where the visible children of a
/// parent carry the sort orders `0..n-1`, and no child there is hidden only
/// by its atom, a visible node created under that parent leaves the sort
/// orders `0..n`.
pub proof fn lemma_create_dense(s: TreeState, row: NodeRow)
    requires
        s.wf(),
        s.insertable(row.node_uuid, row.parent_uuid),
        row == s.new_row(
            row.node_uuid,
            row.kind,
            row.parent_uuid,
            row.atom_uuid,
            row.display_name,
            row.created_at,
        ),
        row.kind == WorkspaceNodeKind::Folder <==> row.atom_uuid is None,
        s.visible(row),
        s.dense(row.parent_uuid),
        s.children_all_visible(row.parent_uuid),
    ensures
        s.with_node(row).dense(row.parent_uuid),
{
    let parent = row.parent_uuid;
    let t = s.with_node(row);
    lemma_with_node(s, row);
    lemma_listing_exists(s, ChildFilter::Visible, parent);
    let seen = s.children(ChildFilter::Visible, parent);
    assert(s.is_listing(ChildFilter::Active, parent, seen)) by {
        assert forall|i: int|
            0 <= i < s.nodes.len() && s.selects(
                ChildFilter::Active,
                parent,
                #[trigger] s.nodes[i],
            ) implies seen.contains(s.nodes[i]) by {
            assert(s.selects(ChildFilter::Visible, parent, s.nodes[i]));
        }
    }
    lemma_listing_is_children(s, ChildFilter::Active, parent, seen);
    assert(row.sort_order == seen.len()) by {
        if seen.len() > 0 {
            assert(s.listed(parent, false)[seen.len() - 1].sort_order == seen.len() - 1);
        }
    }
    let grown = seen.push(row);
    assert(t.is_listing(ChildFilter::Visible, parent, grown)) by {
        assert forall|k: int| 0 <= k < grown.len() implies t.nodes.contains(#[trigger] grown[k])
            && t.selects(ChildFilter::Visible, parent, grown[k]) by {
            if k < seen.len() {
                assert(s.nodes.contains(seen[k]));
                let i = choose|i: int| 0 <= i < s.nodes.len() && s.nodes[i] == seen[k];
                assert(t.nodes[i] == seen[k]);
            } else {
                assert(t.nodes[s.nodes.len() as int] == row);
            }
        }
        assert forall|i: int|
            0 <= i < t.nodes.len() && t.selects(
                ChildFilter::Visible,
                parent,
                #[trigger] t.nodes[i],
            ) implies grown.contains(t.nodes[i]) by {
            if i < s.nodes.len() {
                assert(t.nodes[i] == s.nodes[i]);
                assert(seen.contains(s.nodes[i]));
                let k = choose|k: int| 0 <= k < seen.len() && seen[k] == s.nodes[i];
                assert(grown[k] == t.nodes[i]);
            } else {
                assert(grown[seen.len() as int] == row);
            }
        }
        assert forall|a: int, b: int| 0 <= a < b < grown.len() implies key_lt(
            #[trigger] grown[a],
            #[trigger] grown[b],
        ) by {
            if b < seen.len() {
                assert(key_lt(seen[a], seen[b]));
            } else {
                assert(s.listed(parent, false)[a].sort_order == a);
            }
        }
    }
    lemma_listing_is_children(t, ChildFilter::Visible, parent, grown);
    assert forall|k: int| 0 <= k < t.listed(parent, false).len() implies (#[trigger] t.listed(
        parent,
        false,
    )[k]).sort_order == k by {
        if k < seen.len() {
            assert(s.listed(parent, false)[k].sort_order == k);
        }
    }
}

} // verus!
