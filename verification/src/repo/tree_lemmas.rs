//! Facts about `TreeState` that the repository and the service rest on.

use vstd::prelude::*;
use crate::repo::listing::lemma_listing_exists;
use crate::repo::tree_state::ChildFilter;
use crate::repo::tree_state::NodeRow;
use crate::repo::tree_state::TreeState;
use crate::repo::tree_state::WorkspaceNodeKind;
use crate::repo::tree_state::ids_of;
use crate::repo::tree_state::key_lt;
use crate::repo::tree_state::move_target;
use crate::repo::tree_state::other_than;
use vstd::set_lib::lemma_len_subset;

verus! {

/// With ids as keys, the row at index `i` is the row of its id.
pub proof fn lemma_node_at(s: TreeState, i: int)
    requires
        s.unique_nodes(),
        0 <= i < s.nodes.len(),
    ensures
        s.has_node(s.nodes[i].node_uuid),
        s.index_of(s.nodes[i].node_uuid) == i,
        s.node(s.nodes[i].node_uuid) == s.nodes[i],
{
    let id = s.nodes[i].node_uuid;
    assert(s.has_node(id));
    let j = s.index_of(id);
    assert(0 <= j < s.nodes.len() && s.nodes[j].node_uuid == id);
}

/// A node that exists sits at its index.
pub proof fn lemma_node_index(s: TreeState, id: u128)
    requires
        s.has_node(id),
    ensures
        0 <= s.index_of(id) < s.nodes.len(),
        s.nodes[s.index_of(id)].node_uuid == id,
        s.node(id).node_uuid == id,
{
}

/// With ids as keys, the atom at index `i` is the atom of its id.
pub proof fn lemma_atom_at(s: TreeState, i: int)
    requires
        s.unique_atoms(),
        0 <= i < s.atoms.len(),
    ensures
        s.has_atom(s.atoms[i].uuid),
        s.atom_index(s.atoms[i].uuid) == i,
        s.atom(s.atoms[i].uuid) == s.atoms[i],
{
    let id = s.atoms[i].uuid;
    assert(s.has_atom(id));
    let j = s.atom_index(id);
    assert(0 <= j < s.atoms.len() && s.atoms[j].uuid == id);
}

proof fn lemma_listing_prefix(
    s: TreeState,
    filter: ChildFilter,
    parent: Option<u128>,
    a: Seq<NodeRow>,
    b: Seq<NodeRow>,
    n: nat,
)
    requires
        s.is_listing(filter, parent, a),
        s.is_listing(filter, parent, b),
        n <= a.len(),
        n <= b.len(),
    ensures
        forall|k: int| 0 <= k < n ==> a[k] == b[k],
    decreases n,
{
    if n > 0 {
        lemma_listing_prefix(s, filter, parent, a, b, (n - 1) as nat);
        let k = n - 1;
        assert(s.nodes.contains(a[k]));
        let ia = choose|i: int| 0 <= i < s.nodes.len() && s.nodes[i] == a[k];
        assert(s.selects(filter, parent, s.nodes[ia]));
        assert(b.contains(s.nodes[ia]));
        let j = choose|j: int| 0 <= j < b.len() && b[j] == a[k];
        assert(s.nodes.contains(b[k]));
        let ib = choose|i: int| 0 <= i < s.nodes.len() && s.nodes[i] == b[k];
        assert(s.selects(filter, parent, s.nodes[ib]));
        assert(a.contains(s.nodes[ib]));
        let m = choose|m: int| 0 <= m < a.len() && a[m] == b[k];
        if j < k {
            assert(key_lt(a[j], a[k]));
        } else if m < k {
            assert(key_lt(b[m], b[k]));
        } else if j > k && m > k {
            assert(key_lt(b[k], b[j]));
            assert(key_lt(a[k], a[m]));
        }
    }
}

/// The children of a parent have one listing only.
pub proof fn lemma_listing_unique(
    s: TreeState,
    filter: ChildFilter,
    parent: Option<u128>,
    a: Seq<NodeRow>,
    b: Seq<NodeRow>,
)
    requires
        s.is_listing(filter, parent, a),
        s.is_listing(filter, parent, b),
    ensures
        a == b,
{
    let n = if a.len() <= b.len() {
        a.len()
    } else {
        b.len()
    };
    lemma_listing_prefix(s, filter, parent, a, b, n);
    if a.len() < b.len() {
        let k = a.len() as int;
        assert(s.nodes.contains(b[k]));
        let ib = choose|i: int| 0 <= i < s.nodes.len() && s.nodes[i] == b[k];
        assert(s.selects(filter, parent, s.nodes[ib]));
        assert(a.contains(s.nodes[ib]));
        let m = choose|m: int| 0 <= m < a.len() && a[m] == b[k];
        assert(key_lt(b[m], b[k]));
    }
    if b.len() < a.len() {
        let k = b.len() as int;
        assert(s.nodes.contains(a[k]));
        let ia = choose|i: int| 0 <= i < s.nodes.len() && s.nodes[i] == a[k];
        assert(s.selects(filter, parent, s.nodes[ia]));
        assert(b.contains(s.nodes[ia]));
        let j = choose|j: int| 0 <= j < b.len() && b[j] == a[k];
        assert(key_lt(a[j], a[k]));
    }
    assert(a =~= b);
}

/// A listing that was found is the listing.
pub proof fn lemma_listing_is_children(
    s: TreeState,
    filter: ChildFilter,
    parent: Option<u128>,
    rows: Seq<NodeRow>,
)
    requires
        s.is_listing(filter, parent, rows),
    ensures
        s.children(filter, parent) == rows,
{
    lemma_listing_unique(s, filter, parent, s.children(filter, parent), rows);
}

/// `t` has the rows of `s` at the same places, each with its id, kind and
/// atom, and with a parent that names a row.
pub open spec fn same_shape(s: TreeState, t: TreeState) -> bool {
    &&& t.nodes.len() == s.nodes.len()
    &&& forall|i: int|
        0 <= i < s.nodes.len() ==> {
            &&& (#[trigger] t.nodes[i]).node_uuid == s.nodes[i].node_uuid
            &&& t.nodes[i].kind == s.nodes[i].kind
            &&& t.nodes[i].atom_uuid == s.nodes[i].atom_uuid
            &&& (t.nodes[i].parent_uuid is Some ==> s.has_node(t.nodes[i].parent_uuid->0))
        }
}

/// Rewriting rows in place keeps the tables well formed and every node at its index.
pub proof fn lemma_same_shape(s: TreeState, t: TreeState)
    requires
        s.wf(),
        same_shape(s, t),
        t.unique_atoms(),
    ensures
        t.wf(),
        forall|id: u128| #[trigger] t.has_node(id) == s.has_node(id),
        forall|id: u128| s.has_node(id) ==> #[trigger] t.index_of(id) == s.index_of(id),
{
    assert forall|id: u128| #[trigger] t.has_node(id) == s.has_node(id) by {
        if t.has_node(id) {
            let i = t.index_of(id);
            assert(s.nodes[i].node_uuid == id);
        }
        if s.has_node(id) {
            let i = s.index_of(id);
            assert(t.nodes[i].node_uuid == id);
        }
    }
    assert forall|i: int, j: int|
        0 <= i < t.nodes.len() && 0 <= j < t.nodes.len() && (#[trigger] t.nodes[i]).node_uuid == (
        #[trigger] t.nodes[j]).node_uuid implies i == j by {
        assert(s.nodes[i].node_uuid == s.nodes[j].node_uuid);
    }
    assert forall|id: u128| s.has_node(id) implies #[trigger] t.index_of(id) == s.index_of(id) by {
        let i = s.index_of(id);
        assert(t.nodes[i].node_uuid == id);
        assert(t.has_node(id));
        let j = t.index_of(id);
        assert(t.nodes[j].node_uuid == id);
    }
    assert forall|i: int|
        0 <= i < t.nodes.len() && (#[trigger] t.nodes[i]).parent_uuid is Some implies t.has_node(
        t.nodes[i].parent_uuid->0,
    ) by {
        assert(s.has_node(t.nodes[i].parent_uuid->0));
    }
    assert forall|i: int| 0 <= i < t.nodes.len() implies ((#[trigger] t.nodes[i]).kind
        == WorkspaceNodeKind::Folder <==> t.nodes[i].atom_uuid is None) by {
        assert(s.nodes[i].kind == t.nodes[i].kind);
    }
}

/// One more row under a new id keeps the tables well formed and the old rows in place.
pub proof fn lemma_with_node(s: TreeState, row: NodeRow)
    requires
        s.wf(),
        !s.has_node(row.node_uuid),
        s.nodes.len() < i64::MAX,
        row.kind == WorkspaceNodeKind::Folder <==> row.atom_uuid is None,
        row.parent_uuid is Some ==> s.has_node(row.parent_uuid->0),
    ensures
        s.with_node(row).wf(),
        forall|id: u128| #[trigger] s.with_node(row).has_node(id) == (s.has_node(id) || id == row.node_uuid),
        forall|id: u128| s.has_node(id) ==> #[trigger] s.with_node(row).node(id) == s.node(id),
        s.with_node(row).node(row.node_uuid) == row,
{
    let t = s.with_node(row);
    assert forall|i: int, j: int|
        0 <= i < t.nodes.len() && 0 <= j < t.nodes.len() && (#[trigger] t.nodes[i]).node_uuid == (
        #[trigger] t.nodes[j]).node_uuid implies i == j by {
        if i < s.nodes.len() {
            assert(s.nodes[i].node_uuid == t.nodes[i].node_uuid);
        }
        if j < s.nodes.len() {
            assert(s.nodes[j].node_uuid == t.nodes[j].node_uuid);
        }
    }
    assert forall|id: u128| #[trigger] t.has_node(id) == (s.has_node(id) || id == row.node_uuid) by {
        if t.has_node(id) {
            let i = t.index_of(id);
            if i < s.nodes.len() {
                assert(s.nodes[i].node_uuid == id);
            }
        }
        if s.has_node(id) {
            let i = s.index_of(id);
            assert(t.nodes[i].node_uuid == id);
        }
        if id == row.node_uuid {
            assert(t.nodes[s.nodes.len() as int].node_uuid == id);
        }
    }
    assert forall|id: u128| s.has_node(id) implies #[trigger] t.node(id) == s.node(id) by {
        let i = s.index_of(id);
        assert(t.nodes[i] == s.nodes[i]);
        lemma_node_at(t, i);
    }
    lemma_node_at(t, s.nodes.len() as int);
    assert forall|i: int|
        0 <= i < t.nodes.len() && (#[trigger] t.nodes[i]).parent_uuid is Some implies t.has_node(
        t.nodes[i].parent_uuid->0,
    ) by {
        if i < s.nodes.len() {
            assert(s.nodes[i] == t.nodes[i]);
            assert(s.has_node(s.nodes[i].parent_uuid->0));
        }
    }
    assert forall|i: int| 0 <= i < t.nodes.len() implies ((#[trigger] t.nodes[i]).kind
        == WorkspaceNodeKind::Folder <==> t.nodes[i].atom_uuid is None) by {
        if i < s.nodes.len() {
            assert(s.nodes[i] == t.nodes[i]);
        }
    }
}

/// Taking one id out of a sequence keeps the others, and keeps them apart.
pub proof fn lemma_filter_out(s: Seq<u128>, id: u128)
    ensures
        forall|x: u128| #[trigger] s.filter(other_than(id)).contains(x) <==> (s.contains(x) && x != id),
        s.no_duplicates() ==> s.filter(other_than(id)).no_duplicates(),
        s.filter(other_than(id)).len() <= s.len(),
    decreases s.len(),
{
    reveal(Seq::filter);
    let out = s.filter(other_than(id));
    if s.len() == 0 {
        assert(out =~= Seq::empty());
    } else {
        let head = s.drop_last();
        let sub = head.filter(other_than(id));
        lemma_filter_out(head, id);
        assert forall|x: u128| #[trigger] out.contains(x) <==> (s.contains(x) && x != id) by {
            if s.contains(x) {
                let i = choose|i: int| 0 <= i < s.len() && s[i] == x;
                if i < head.len() {
                    assert(head[i] == x);
                }
            }
            if head.contains(x) {
                let i = choose|i: int| 0 <= i < head.len() && head[i] == x;
                assert(s[i] == x);
            }
            assert(s[s.len() - 1] == s.last());
            if other_than(id)(s.last()) {
                assert(out == sub.push(s.last()));
                assert(out.contains(x) <==> (x == s.last() || sub.contains(x)));
            }
        }
        if s.no_duplicates() {
            assert forall|i: int, j: int| 0 <= i < head.len() && 0 <= j < head.len() && i != j implies head[i]
                != head[j] by {
                assert(head[i] == s[i] && head[j] == s[j]);
            }
            if other_than(id)(s.last()) {
                if head.contains(s.last()) {
                    let i = choose|i: int| 0 <= i < head.len() && head[i] == s.last();
                    assert(s[i] == s[s.len() - 1]);
                }
                assert(!sub.contains(s.last()));
                assert forall|i: int, j: int| 0 <= i < out.len() && 0 <= j < out.len() && i != j implies out[i]
                    != out[j] by {
                    if i < sub.len() {
                        assert(sub.contains(out[i]));
                    }
                    if j < sub.len() {
                        assert(sub.contains(out[j]));
                    }
                }
            }
        }
    }
}

/// Putting a new id into a sequence of different ids keeps them apart.
pub proof fn lemma_insert_apart(rest: Seq<u128>, at: int, id: u128)
    requires
        0 <= at <= rest.len(),
        rest.no_duplicates(),
        !rest.contains(id),
    ensures
        rest.insert(at, id).no_duplicates(),
        rest.insert(at, id).len() == rest.len() + 1,
        rest.insert(at, id)[at] == id,
        forall|x: u128| #[trigger] rest.insert(at, id).contains(x) <==> (rest.contains(x) || x == id),
{
    let out = rest.insert(at, id);
    rest.insert_ensures(at, id);
    assert forall|i: int, j: int| 0 <= i < out.len() && 0 <= j < out.len() && i != j implies out[i]
        != out[j] by {
        if i < at {
            assert(out[i] == rest[i]);
        } else if i > at {
            assert(out[i] == rest[i - 1]);
        }
        if j < at {
            assert(out[j] == rest[j]);
        } else if j > at {
            assert(out[j] == rest[j - 1]);
        }
        if i != at {
            assert(rest.contains(out[i]));
        }
        if j != at {
            assert(rest.contains(out[j]));
        }
    }
    assert forall|x: u128| #[trigger] out.contains(x) <==> (rest.contains(x) || x == id) by {
        if out.contains(x) {
            let i = choose|i: int| 0 <= i < out.len() && out[i] == x;
            if i < at {
                assert(rest[i] == x);
            } else if i > at {
                assert(rest[i - 1] == x);
            }
        }
        if rest.contains(x) {
            let i = choose|i: int| 0 <= i < rest.len() && rest[i] == x;
            if i < at {
                assert(out[i] == x);
            } else {
                assert(out[i + 1] == x);
            }
        }
    }
}

/// The rows of a listing are rows of the table, under ids that differ.
pub proof fn lemma_listing_ids(s: TreeState, filter: ChildFilter, parent: Option<u128>, rows: Seq<NodeRow>)
    requires
        s.unique_nodes(),
        s.is_listing(filter, parent, rows),
    ensures
        ids_of(rows).no_duplicates(),
        ids_of(rows).len() == rows.len(),
        forall|k: int|
            0 <= k < rows.len() ==> s.has_node((#[trigger] rows[k]).node_uuid) && s.node(
                rows[k].node_uuid,
            ) == rows[k],
        forall|x: u128|
            ids_of(rows).contains(x) ==> s.has_node(x) && s.selects(filter, parent, s.node(x)),
        forall|x: u128|
            s.has_node(x) && s.selects(filter, parent, s.node(x)) ==> #[trigger] ids_of(rows).contains(x),
{
    assert forall|k: int| 0 <= k < rows.len() implies s.has_node((#[trigger] rows[k]).node_uuid)
        && s.node(rows[k].node_uuid) == rows[k] by {
        assert(s.nodes.contains(rows[k]));
        let i = choose|i: int| 0 <= i < s.nodes.len() && s.nodes[i] == rows[k];
        lemma_node_at(s, i);
    }
    assert forall|a: int, b: int|
        0 <= a < ids_of(rows).len() && 0 <= b < ids_of(rows).len() && a != b implies ids_of(rows)[a]
        != ids_of(rows)[b] by {
        if rows[a].node_uuid == rows[b].node_uuid {
            assert(s.node(rows[a].node_uuid) == rows[a]);
            assert(s.node(rows[b].node_uuid) == rows[b]);
            if a < b {
                assert(key_lt(rows[a], rows[b]));
            } else {
                assert(key_lt(rows[b], rows[a]));
            }
        }
    }
    assert forall|x: u128| ids_of(rows).contains(x) implies s.has_node(x) && s.selects(
        filter,
        parent,
        s.node(x),
    ) by {
        let k = choose|k: int| 0 <= k < ids_of(rows).len() && ids_of(rows)[k] == x;
        assert(rows[k].node_uuid == x);
    }
    assert forall|x: u128| s.has_node(x) && s.selects(filter, parent, s.node(x)) implies #[trigger] ids_of(
        rows,
    ).contains(x) by {
        let i = s.index_of(x);
        assert(rows.contains(s.nodes[i]));
        let k = choose|k: int| 0 <= k < rows.len() && rows[k] == s.nodes[i];
        assert(ids_of(rows)[k] == x);
    }
}

/// Ids that differ and all name rows are no more than the rows.
pub proof fn lemma_ids_fit(s: TreeState, ids: Seq<u128>)
    requires
        ids.no_duplicates(),
        forall|k: int| 0 <= k < ids.len() ==> s.has_node(#[trigger] ids[k]),
    ensures
        ids.len() <= s.nodes.len(),
{
    let all = ids_of(s.nodes);
    ids.unique_seq_to_set();
    all.lemma_cardinality_of_set();
    assert forall|x: u128| ids.to_set().contains(x) implies all.to_set().contains(x) by {
        assert(ids.contains(x));
        let k = choose|k: int| 0 <= k < ids.len() && ids[k] == x;
        assert(s.has_node(ids[k]));
        let i = s.index_of(x);
        assert(all[i] == x);
        assert(all.contains(x));
    }
    lemma_len_subset(ids.to_set(), all.to_set());
}

/// What a move leaves as the sibling order under the new parent: the moved
/// node and the visible children that were there, each once.
pub proof fn lemma_move_order(s: TreeState, id: u128, new_parent: Option<u128>, target: Option<i64>)
    requires
        s.wf(),
        s.has_node(id),
    ensures
        s.move_order(id, new_parent, target).no_duplicates(),
        s.move_order(id, new_parent, target).contains(id),
        s.move_order(id, new_parent, target).len() <= i64::MAX,
        forall|x: u128|
            #[trigger] s.move_order(id, new_parent, target).contains(x) <==> (x == id || (s.has_node(x)
                && s.selects(ChildFilter::Visible, new_parent, s.node(x)))),
{
    let rows = s.children(ChildFilter::Visible, new_parent);
    let sib = ids_of(rows);
    let rest = sib.filter(other_than(id));
    let at = move_target(rest.len() as int, target);
    let order = s.move_order(id, new_parent, target);
    lemma_listing_exists(s, ChildFilter::Visible, new_parent);
    lemma_listing_ids(s, ChildFilter::Visible, new_parent, rows);
    lemma_filter_out(sib, id);
    lemma_insert_apart(rest, at, id);
    assert(order == rest.insert(at, id));
    assert forall|x: u128| #[trigger] order.contains(x) <==> (x == id || (s.has_node(x) && s.selects(
        ChildFilter::Visible,
        new_parent,
        s.node(x),
    ))) by {
        assert(order.contains(x) <==> (rest.contains(x) || x == id));
        assert(rest.contains(x) <==> (sib.contains(x) && x != id));
    }
    assert forall|k: int| 0 <= k < order.len() implies s.has_node(#[trigger] order[k]) by {
        assert(order.contains(order[k]));
    }
    lemma_ids_fit(s, order);
}

/// The marks name members of the subtree of `root` only.
pub open spec fn marks_sound(s: TreeState, root: u128, marks: Seq<bool>) -> bool {
    &&& marks.len() == s.nodes.len()
    &&& forall|i: int| 0 <= i < marks.len() && #[trigger] marks[i] ==> s.in_subtree(root, s.nodes[i].node_uuid)
}

/// Among the first `n` rows, a row without a tombstone whose parent is
/// marked is marked too.
pub open spec fn marks_closed(s: TreeState, marks: Seq<bool>, n: int) -> bool {
    forall|i: int|
        0 <= i < n && !(#[trigger] s.nodes[i]).is_deleted && s.nodes[i].parent_uuid is Some && marks[s.index_of(
            s.nodes[i].parent_uuid->0,
        )] ==> marks[i]
}

/// Marks that hold the root and are closed under "child of" hold every
/// node that reaches the root.
pub proof fn lemma_marks_complete(s: TreeState, root: u128, marks: Seq<bool>, x: u128, k: nat)
    requires
        s.wf(),
        marks.len() == s.nodes.len(),
        s.has_node(root),
        marks[s.index_of(root)],
        marks_closed(s, marks, s.nodes.len() as int),
        s.ancestor(x, k) == Some(root),
    ensures
        s.has_node(x),
        marks[s.index_of(x)],
    decreases k,
{
    if k > 0 {
        let p = s.parent_of(x)->0;
        let i = s.index_of(x);
        assert(s.nodes[i].parent_uuid == Some(p));
        assert(s.has_node(p));
        lemma_marks_complete(s, root, marks, p, (k - 1) as nat);
    }
}

/// A row without a tombstone whose parent lies in the subtree lies in it too.
pub proof fn lemma_child_in_subtree(s: TreeState, root: u128, i: int)
    requires
        s.unique_nodes(),
        0 <= i < s.nodes.len(),
        !s.nodes[i].is_deleted,
        s.nodes[i].parent_uuid is Some,
        s.in_subtree(root, s.nodes[i].parent_uuid->0),
    ensures
        s.in_subtree(root, s.nodes[i].node_uuid),
{
    let p = s.nodes[i].parent_uuid->0;
    let x = s.nodes[i].node_uuid;
    lemma_node_at(s, i);
    let k = choose|k: nat| #[trigger] s.ancestor(p, k) == Some(root);
    assert(s.parent_of(x) == Some(p));
    assert(s.ancestor(x, k + 1) == Some(root));
}

} // verus!
