//! Each operation of the tree takes a consistent tree to a consistent tree.

use vstd::prelude::*;
use crate::repo::ancestry::lemma_ancestors_exist;
use crate::repo::ancestry::lemma_cut_acyclic;
use crate::repo::ancestry::lemma_relink_acyclic;
use crate::repo::ancestry::links_within;
use crate::repo::ancestry::relinked;
use crate::repo::listing::lemma_listing_exists;
use crate::repo::tree_lemmas::lemma_child_in_subtree;
use crate::repo::tree_lemmas::lemma_listing_ids;
use crate::repo::tree_lemmas::lemma_move_order;
use crate::repo::tree_lemmas::lemma_node_at;
use crate::repo::tree_lemmas::lemma_same_shape;
use crate::repo::tree_lemmas::lemma_with_node;
use crate::repo::tree_lemmas::same_shape;
use crate::repo::tree_state::ChildFilter;
use crate::repo::tree_state::NodeRow;
use crate::repo::tree_state::TreeState;
use crate::repo::tree_state::WorkspaceNodeKind;
use crate::repo::tree_state::name_kept;
use crate::text::blank;
use crate::text::lemma_trimmed_is_canonical;
use crate::text::trimmed;

verus! {

/// Where `t` has the rows of `s` rewritten in place, the row of a node in
/// `t` is the rewritten row of that node in `s`.
pub proof fn lemma_rewritten(s: TreeState, t: TreeState, y: u128)
    requires
        s.wf(),
        same_shape(s, t),
        t.unique_atoms(),
    ensures
        t.wf(),
        t.has_node(y) == s.has_node(y),
        s.has_node(y) ==> t.node(y) == t.nodes[s.index_of(y)] && s.node(y) == s.nodes[s.index_of(y)] && 0
            <= s.index_of(y) < s.nodes.len(),
{
    lemma_same_shape(s, t);
}

/// A consistent tree with one more node, hung under a folder without a
/// tombstone or at the root level, is consistent.
pub proof fn lemma_create_consistent(s: TreeState, row: NodeRow)
    requires
        s.consistent(),
        !s.has_node(row.node_uuid),
        s.nodes.len() < i64::MAX,
        row.kind == WorkspaceNodeKind::Folder <==> row.atom_uuid is None,
        row.parent_uuid is Some ==> s.active_folder(row.parent_uuid->0),
    ensures
        s.with_node(row).consistent(),
{
    let t = s.with_node(row);
    let id = row.node_uuid;
    lemma_with_node(s, row);
    assert(relinked(s, t, id, row.parent_uuid)) by {
        assert forall|y: u128| y != id && #[trigger] t.parent_of(y) is Some implies t.parent_of(y)
            == s.parent_of(y) by {
            assert(t.has_node(y));
            assert(s.has_node(y));
            assert(t.node(y) == s.node(y));
        }
    }
    if row.parent_uuid is Some {
        let p = row.parent_uuid->0;
        assert forall|j: nat| #[trigger] s.ancestor(p, j) != Some(id) by {
            if s.ancestor(p, j) is Some {
                lemma_ancestors_exist(s, p, j);
            }
        }
    }
    lemma_relink_acyclic(s, t, id, row.parent_uuid);
    assert forall|i: int|
        0 <= i < t.nodes.len() && !(#[trigger] t.nodes[i]).is_deleted && t.nodes[i].parent_uuid
            is Some implies t.active_folder(t.nodes[i].parent_uuid->0) by {
        let q = t.nodes[i].parent_uuid->0;
        if i < s.nodes.len() {
            assert(t.nodes[i] == s.nodes[i]);
            assert(s.active_folder(q));
        }
        assert(s.has_node(q));
        assert(t.node(q) == s.node(q));
    }
}

/// Renaming a node of a consistent tree leaves the tree consistent.
pub proof fn lemma_rename_consistent(s: TreeState, id: u128, name: Seq<char>, now: i64)
    requires
        s.consistent(),
    ensures
        s.after_rename(id, name, now).consistent(),
{
    let t = s.after_rename(id, name, now);
    assert forall|i: int| 0 <= i < s.nodes.len() implies (#[trigger] t.nodes[i]).parent_uuid
        == s.nodes[i].parent_uuid && t.nodes[i].is_deleted == s.nodes[i].is_deleted by {}
    assert(same_shape(s, t)) by {
        assert forall|i: int| 0 <= i < s.nodes.len() implies ((#[trigger] t.nodes[i]).parent_uuid is Some
            ==> s.has_node(t.nodes[i].parent_uuid->0)) by {
            assert(s.nodes[i].parent_uuid is Some ==> s.has_node(s.nodes[i].parent_uuid->0));
        }
    }
    lemma_same_shape(s, t);
    assert(links_within(s, t)) by {
        assert forall|y: u128| #[trigger] t.parent_of(y) is Some implies t.parent_of(y) == s.parent_of(
            y,
        ) by {
            lemma_rewritten(s, t, y);
        }
    }
    lemma_cut_acyclic(s, t);
    assert forall|i: int|
        0 <= i < t.nodes.len() && !(#[trigger] t.nodes[i]).is_deleted && t.nodes[i].parent_uuid
            is Some implies t.active_folder(t.nodes[i].parent_uuid->0) by {
        let q = t.nodes[i].parent_uuid->0;
        assert(!s.nodes[i].is_deleted && s.nodes[i].parent_uuid == Some(q));
        assert(s.active_folder(q));
        lemma_rewritten(s, t, q);
    }
}

/// Moving a visible node of a consistent tree to the root level, or under
/// a folder without a tombstone whose chain of parents does not hold the
/// node, leaves the tree consistent.
pub proof fn lemma_move_consistent(
    s: TreeState,
    id: u128,
    new_parent: Option<u128>,
    target: Option<i64>,
    now: i64,
)
    requires
        s.consistent(),
        s.visible_node(id),
        new_parent is Some ==> s.active_folder(new_parent->0),
        new_parent is Some ==> forall|j: nat| #[trigger] s.ancestor(new_parent->0, j) != Some(id),
    ensures
        s.after_move(id, new_parent, target, now).consistent(),
{
    let t = s.after_move(id, new_parent, target, now);
    assert forall|i: int| 0 <= i < s.nodes.len() implies (#[trigger] t.nodes[i]).is_deleted
        == s.nodes[i].is_deleted && t.nodes[i].node_uuid == s.nodes[i].node_uuid && t.nodes[i].kind
        == s.nodes[i].kind && (t.nodes[i].parent_uuid == s.nodes[i].parent_uuid || (
    t.nodes[i].node_uuid == id && t.nodes[i].parent_uuid == new_parent)) by {}
    assert(same_shape(s, t)) by {
        assert forall|i: int| 0 <= i < s.nodes.len() implies ((#[trigger] t.nodes[i]).parent_uuid is Some
            ==> s.has_node(t.nodes[i].parent_uuid->0)) by {
            assert(s.nodes[i].parent_uuid is Some ==> s.has_node(s.nodes[i].parent_uuid->0));
        }
    }
    lemma_same_shape(s, t);
    assert(relinked(s, t, id, new_parent)) by {
        assert forall|y: u128| y != id && #[trigger] t.parent_of(y) is Some implies t.parent_of(y)
            == s.parent_of(y) by {
            lemma_rewritten(s, t, y);
        }
        lemma_rewritten(s, t, id);
        lemma_move_order(s, id, new_parent, target);
        let i = s.index_of(id);
        assert(s.nodes[i].node_uuid == id);
        assert(t.nodes[i].parent_uuid == new_parent);
    }
    lemma_relink_acyclic(s, t, id, new_parent);
    assert forall|i: int|
        0 <= i < t.nodes.len() && !(#[trigger] t.nodes[i]).is_deleted && t.nodes[i].parent_uuid
            is Some implies t.active_folder(t.nodes[i].parent_uuid->0) by {
        let q = t.nodes[i].parent_uuid->0;
        if t.nodes[i].parent_uuid == s.nodes[i].parent_uuid {
            assert(!s.nodes[i].is_deleted);
            assert(s.active_folder(q));
        }
        assert(s.active_folder(q));
        lemma_rewritten(s, t, q);
    }
}

/// Dissolving a folder of a consistent tree leaves the tree consistent.
pub proof fn lemma_dissolve_consistent(s: TreeState, folder: u128, now: i64)
    requires
        s.consistent(),
        s.active_folder(folder),
    ensures
        s.after_dissolve(folder, now).consistent(),
{
    let t = s.after_dissolve(folder, now);
    let rows = s.children(ChildFilter::Active, Some(folder));
    let children = s.dissolve_children(folder);
    lemma_listing_exists(s, ChildFilter::Active, Some(folder));
    lemma_listing_ids(s, ChildFilter::Active, Some(folder), rows);
    assert forall|i: int| 0 <= i < s.nodes.len() implies (#[trigger] t.nodes[i]).node_uuid
        == s.nodes[i].node_uuid && t.nodes[i].kind == s.nodes[i].kind && t.nodes[i].atom_uuid
        == s.nodes[i].atom_uuid && (t.nodes[i].parent_uuid == s.nodes[i].parent_uuid
        || t.nodes[i].parent_uuid is None) && (t.nodes[i].is_deleted == s.nodes[i].is_deleted || (
    t.nodes[i].is_deleted && t.nodes[i].node_uuid == folder)) by {}
    assert(same_shape(s, t)) by {
        assert forall|i: int| 0 <= i < s.nodes.len() implies ((#[trigger] t.nodes[i]).parent_uuid is Some
            ==> s.has_node(t.nodes[i].parent_uuid->0)) by {
            assert(s.nodes[i].parent_uuid is Some ==> s.has_node(s.nodes[i].parent_uuid->0));
        }
    }
    lemma_same_shape(s, t);
    assert(links_within(s, t)) by {
        assert forall|y: u128| #[trigger] t.parent_of(y) is Some implies t.parent_of(y) == s.parent_of(
            y,
        ) by {
            lemma_rewritten(s, t, y);
        }
    }
    lemma_cut_acyclic(s, t);
    assert forall|i: int|
        0 <= i < t.nodes.len() && !(#[trigger] t.nodes[i]).is_deleted && t.nodes[i].parent_uuid
            is Some implies t.active_folder(t.nodes[i].parent_uuid->0) by {
        let q = t.nodes[i].parent_uuid->0;
        assert(!s.nodes[i].is_deleted && s.nodes[i].parent_uuid == Some(q));
        assert(s.active_folder(q));
        lemma_node_at(s, i);
        if q == folder {
            assert(s.selects(ChildFilter::Active, Some(folder), s.node(s.nodes[i].node_uuid)));
            assert(children.contains(s.nodes[i].node_uuid));
        }
        lemma_rewritten(s, t, q);
    }
}

/// Deleting a folder of a consistent tree with all below it leaves the
/// tree consistent.
pub proof fn lemma_delete_all_consistent(s: TreeState, folder: u128, now: i64)
    requires
        s.consistent(),
        s.active_folder(folder),
    ensures
        s.after_delete_all(folder, now).consistent(),
{
    let t = s.after_delete_all(folder, now);
    assert forall|i: int| 0 <= i < s.nodes.len() implies (#[trigger] t.nodes[i]).node_uuid
        == s.nodes[i].node_uuid && t.nodes[i].kind == s.nodes[i].kind && t.nodes[i].atom_uuid
        == s.nodes[i].atom_uuid && t.nodes[i].parent_uuid == s.nodes[i].parent_uuid && (
    t.nodes[i].is_deleted == s.nodes[i].is_deleted || (t.nodes[i].is_deleted && s.in_subtree(
        folder,
        s.nodes[i].node_uuid,
    ))) by {}
    assert(same_shape(s, t)) by {
        assert forall|i: int| 0 <= i < s.nodes.len() implies ((#[trigger] t.nodes[i]).parent_uuid is Some
            ==> s.has_node(t.nodes[i].parent_uuid->0)) by {
            assert(s.nodes[i].parent_uuid is Some ==> s.has_node(s.nodes[i].parent_uuid->0));
        }
    }
    assert(t.unique_atoms()) by {
        assert forall|a: int, b: int|
            0 <= a < t.atoms.len() && 0 <= b < t.atoms.len() && (#[trigger] t.atoms[a]).uuid == (
            #[trigger] t.atoms[b]).uuid implies a == b by {
            assert(s.atoms[a].uuid == s.atoms[b].uuid);
        }
    }
    lemma_same_shape(s, t);
    assert(links_within(s, t)) by {
        assert forall|y: u128| #[trigger] t.parent_of(y) is Some implies t.parent_of(y) == s.parent_of(
            y,
        ) by {
            lemma_rewritten(s, t, y);
        }
    }
    lemma_cut_acyclic(s, t);
    assert forall|i: int|
        0 <= i < t.nodes.len() && !(#[trigger] t.nodes[i]).is_deleted && t.nodes[i].parent_uuid
            is Some implies t.active_folder(t.nodes[i].parent_uuid->0) by {
        let q = t.nodes[i].parent_uuid->0;
        assert(!s.nodes[i].is_deleted && s.nodes[i].parent_uuid == Some(q));
        assert(!s.in_subtree(folder, s.nodes[i].node_uuid));
        assert(s.active_folder(q));
        if s.in_subtree(folder, q) {
            lemma_child_in_subtree(s, folder, i);
        }
        lemma_rewritten(s, t, q);
        let qi = s.index_of(q);
        assert(s.nodes[qi].node_uuid == q);
    }
}

/// **A node, once there, stays what it is.** Whatever an operation does to
/// the tables, every row is kept under its id with its kind, its atom and
/// its time of creation, and a tombstone is never taken back.
pub proof fn lemma_rows_kept(s: TreeState, id: u128, parent: Option<u128>, target: Option<i64>, name: Seq<
    char,
>, row: NodeRow, now: i64)
    ensures
        s.kept_in(s),
        s.kept_in(s.with_node(row)),
        s.kept_in(s.after_rename(id, name, now)),
        s.kept_in(s.after_move(id, parent, target, now)),
        s.kept_in(s.after_dissolve(id, now)),
        s.kept_in(s.after_delete_all(id, now)),
{
    let t = s.with_node(row);
    assert forall|i: int| 0 <= i < s.nodes.len() implies (#[trigger] t.nodes[i]) == s.nodes[i] by {}
}

/// **No name is stored blank.** Where every display name is trimmed and
/// not blank, it stays so whatever an operation does to the tables, given
/// that a new name is so.
pub proof fn lemma_names_kept(s: TreeState, id: u128, parent: Option<u128>, target: Option<i64>, name: Seq<
    char,
>, row: NodeRow, now: i64)
    requires
        s.names_kept(),
    ensures
        name_kept(row.display_name) ==> s.with_node(row).names_kept(),
        name_kept(name) ==> s.after_rename(id, name, now).names_kept(),
        s.after_move(id, parent, target, now).names_kept(),
        s.after_dissolve(id, now).names_kept(),
        s.after_delete_all(id, now).names_kept(),
{
    let grown = s.with_node(row);
    if name_kept(row.display_name) {
        assert forall|i: int| 0 <= i < grown.nodes.len() implies name_kept(
            (#[trigger] grown.nodes[i]).display_name,
        ) by {
            if i < s.nodes.len() {
                assert(grown.nodes[i] == s.nodes[i]);
            }
        }
    }
    let renamed = s.after_rename(id, name, now);
    if name_kept(name) {
        assert forall|i: int| 0 <= i < renamed.nodes.len() implies name_kept(
            (#[trigger] renamed.nodes[i]).display_name,
        ) by {
            assert(name_kept(s.nodes[i].display_name));
        }
    }
    let moved = s.after_move(id, parent, target, now);
    assert forall|i: int| 0 <= i < moved.nodes.len() implies name_kept(
        (#[trigger] moved.nodes[i]).display_name,
    ) by {
        assert(moved.nodes[i].display_name == s.nodes[i].display_name);
    }
    let lifted = s.after_dissolve(id, now);
    assert forall|i: int| 0 <= i < lifted.nodes.len() implies name_kept(
        (#[trigger] lifted.nodes[i]).display_name,
    ) by {
        assert(lifted.nodes[i].display_name == s.nodes[i].display_name);
    }
    let gone = s.after_delete_all(id, now);
    assert forall|i: int| 0 <= i < gone.nodes.len() implies name_kept(
        (#[trigger] gone.nodes[i]).display_name,
    ) by {
        assert(gone.nodes[i].display_name == s.nodes[i].display_name);
    }
}

/// What trimming leaves of a name that is not blank is a name to store.
pub proof fn lemma_trimmed_name_kept(name: Seq<char>)
    requires
        !blank(name),
    ensures
        name_kept(trimmed(name)),
{
    lemma_trimmed_is_canonical(name);
}

} // verus!
