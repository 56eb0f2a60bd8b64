//! What the two ways of deleting a folder leave alone, and what they take.

use vstd::prelude::*;
use crate::model::atom::AtomType;
use crate::repo::listing::lemma_listing_exists;
use crate::repo::tree_lemmas::lemma_listing_ids;
use crate::repo::tree_lemmas::lemma_node_at;
use crate::repo::tree_state::ChildFilter;
use crate::repo::tree_state::TreeState;
use crate::repo::tree_state::WorkspaceNodeKind;

verus! {

/// **Dissolve flattens one level only.** Dissolving a folder changes the
/// folder and its direct children without a tombstone, and no other row:
/// what lies below the children stays under them.
pub proof fn lemma_dissolve_touches_one_level(s: TreeState, folder: u128, now: i64, i: int)
    requires
        s.unique_nodes(),
        0 <= i < s.nodes.len(),
    ensures
        s.nodes[i].node_uuid != folder && !s.selects(ChildFilter::Active, Some(folder), s.nodes[i])
            ==> s.after_dissolve(folder, now).nodes[i] == s.nodes[i],
        s.selects(ChildFilter::Active, Some(folder), s.nodes[i]) ==> s.after_dissolve(
            folder,
            now,
        ).nodes[i].parent_uuid is None,
        s.nodes[i].node_uuid == folder ==> s.after_dissolve(folder, now).nodes[i].is_deleted,
        s.after_dissolve(folder, now).atoms == s.atoms,
{
    let rows = s.children(ChildFilter::Active, Some(folder));
    lemma_listing_exists(s, ChildFilter::Active, Some(folder));
    lemma_listing_ids(s, ChildFilter::Active, Some(folder), rows);
    lemma_node_at(s, i);
}

/// **A deleted subtree is tombstoned whole, and nothing else is.** Deleting
/// a folder with all below it tombstones the rows of its subtree and
/// changes no other row.
pub proof fn lemma_delete_all_takes_the_subtree(s: TreeState, root: u128, now: i64, i: int)
    requires
        0 <= i < s.nodes.len(),
    ensures
        s.in_subtree(root, s.nodes[i].node_uuid) ==> s.after_delete_all(root, now).nodes[i].is_deleted,
        !s.in_subtree(root, s.nodes[i].node_uuid) ==> s.after_delete_all(root, now).nodes[i]
            == s.nodes[i],
{
}

/// **An atom lives as long as a reference to it does.** After a folder was
/// deleted with all below it, an atom that a note reference without a
/// tombstone outside the subtree points at is as it was; so is an atom
/// that no note reference in the subtree pointed at.
pub proof fn lemma_shared_atom_survives(s: TreeState, root: u128, now: i64, q: int)
    requires
        0 <= q < s.atoms.len(),
        (exists|i: int|
            0 <= i < s.nodes.len() && !s.in_subtree(root, (#[trigger] s.nodes[i]).node_uuid)
                && !s.nodes[i].is_deleted && s.nodes[i].kind == WorkspaceNodeKind::NoteRef
                && s.nodes[i].atom_uuid == Some(s.atoms[q].uuid)) || !s.referenced_below(
            root,
            s.atoms[q].uuid,
        ),
    ensures
        s.after_delete_all(root, now).atoms[q] == s.atoms[q],
{
    let nodes = s.subtree_tombstoned(root, now);
    let rest = TreeState { nodes, atoms: s.atoms };
    if s.referenced_below(root, s.atoms[q].uuid) {
        let i = choose|i: int|
            0 <= i < s.nodes.len() && !s.in_subtree(root, (#[trigger] s.nodes[i]).node_uuid)
                && !s.nodes[i].is_deleted && s.nodes[i].kind == WorkspaceNodeKind::NoteRef
                && s.nodes[i].atom_uuid == Some(s.atoms[q].uuid);
        assert(rest.nodes[i] == s.nodes[i]);
        assert(rest.referenced(s.atoms[q].uuid));
    }
}

/// **The last reference takes the note with it.** After a folder was
/// deleted with all below it, an active note that a note reference in the
/// subtree pointed at, and that no note reference without a tombstone
/// outside the subtree points at, is soft-deleted.
pub proof fn lemma_last_reference_takes_the_note(s: TreeState, root: u128, now: i64, q: int)
    requires
        0 <= q < s.atoms.len(),
        s.atoms[q].kind == AtomType::Note,
        s.referenced_below(root, s.atoms[q].uuid),
        forall|i: int|
            0 <= i < s.nodes.len() && !(#[trigger] s.nodes[i]).is_deleted && s.nodes[i].kind
                == WorkspaceNodeKind::NoteRef && s.nodes[i].atom_uuid == Some(s.atoms[q].uuid)
                ==> s.in_subtree(root, s.nodes[i].node_uuid),
    ensures
        s.after_delete_all(root, now).atoms[q].is_deleted,
        s.after_delete_all(root, now).atoms[q].uuid == s.atoms[q].uuid,
        s.after_delete_all(root, now).atoms[q].kind == s.atoms[q].kind,
{
    let nodes = s.subtree_tombstoned(root, now);
    let rest = TreeState { nodes, atoms: s.atoms };
    if rest.referenced(s.atoms[q].uuid) {
        let i = choose|i: int|
            0 <= i < rest.nodes.len() && !(#[trigger] rest.nodes[i]).is_deleted && rest.nodes[i].kind
                == WorkspaceNodeKind::NoteRef && rest.nodes[i].atom_uuid == Some(s.atoms[q].uuid);
        assert(!s.nodes[i].is_deleted);
    }
}

} // verus!
