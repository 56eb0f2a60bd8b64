//! Workspace tree use-case service.
//!
//! # Responsibility
//! - Validate tree hierarchy invariants above repository layer.
//! - Provide folder/note_ref create, rename, move, and list operations.
//!
//! # Invariants
//! - Parent node must exist and be a folder when provided.
//! - Move operations must not create parent-child cycles.
//! - `note_ref` must target an active `AtomType::Note`.

use std::collections::HashSet;
use vstd::prelude::*;
use crate::text::text_of;
use crate::model::uuid::text_of_uuid;
use crate::model::uuid::write_uuid;
use crate::repo::tree_repo::repo_error_text;
use crate::text::join2;
use crate::text::join3;
use crate::db::SqliteFailure;
use crate::model::atom::AtomId;
use crate::model::atom::AtomType;
use crate::text::trim;
use crate::repo::ancestry::lemma_ancestor_step;
use crate::repo::ordering::lemma_create_dense;
use crate::repo::ordering::lemma_move_dense;
use crate::repo::tree_invariants::lemma_create_consistent;
use crate::repo::tree_invariants::lemma_delete_all_consistent;
use crate::repo::tree_invariants::lemma_dissolve_consistent;
use crate::repo::tree_invariants::lemma_move_consistent;
use crate::repo::tree_invariants::lemma_rename_consistent;
use crate::repo::tree_invariants::lemma_names_kept;
use crate::repo::tree_invariants::lemma_rows_kept;
use crate::repo::tree_invariants::lemma_trimmed_name_kept;
use crate::repo::tree_state::default_note_name;
use crate::repo::tree_state::lemma_default_name_kept;
use crate::repo::tree_lemmas::lemma_node_index;
use crate::repo::tree_repo::TreeRepoError;
use crate::repo::tree_repo::TreeRepository;
use crate::repo::tree_repo::WorkspaceNode;
use crate::repo::tree_repo::WorkspaceNodeId;
use crate::repo::tree_repo::created;
use crate::repo::tree_repo::refused;
use crate::repo::tree_repo::row_of;
use crate::repo::tree_repo::rows_of;
use crate::repo::tree_repo::storage_failure;
use crate::repo::tree_state::ChildFilter;
use crate::repo::tree_state::TreeState;
use crate::repo::tree_state::WorkspaceNodeKind;
use crate::repo::tree_state::reorder;
use crate::service::walk::WalkEnd;
use crate::service::walk::lemma_walk_clear;
use crate::service::walk::lemma_walk_stop;
use crate::service::walk::lemma_walked_fit;
use crate::service::walk::meets_twice;
use crate::service::walk::met_before;
use crate::service::walk::on_chain;
use crate::service::walk::walk_end;
use crate::service::walk::walk_from;
use crate::service::walk::walked_past;
use crate::text::blank;
use crate::text::trimmed;

verus! {

broadcast use vstd::std_specs::hash::group_hash_axioms;

/// Folder delete mode for workspace tree.
#[derive(Debug, Clone, Copy, PartialEq, Eq, Structural)]
pub enum FolderDeleteMode {
    /// Delete folder node only and move direct children to root.
    Dissolve,
    /// Delete folder subtree and soft-delete note atoms with no remaining refs.
    DeleteAll,
}

/// Errors from workspace tree service operations.
#[derive(Debug, Clone, PartialEq, Eq)]
pub enum TreeServiceError {
    /// Display name is blank after trim.
    InvalidDisplayName,
    /// Target node does not exist.
    NodeNotFound(WorkspaceNodeId),
    /// Parent node does not exist.
    ParentNotFound(WorkspaceNodeId),
    /// Parent exists but is not folder kind.
    ParentMustBeFolder(WorkspaceNodeId),
    /// Target node exists but is not folder kind.
    NodeMustBeFolder(WorkspaceNodeId),
    /// Target note atom does not exist or is soft-deleted.
    AtomNotFound(AtomId),
    /// Target atom exists but is not note type.
    AtomNotNote(AtomId),
    /// Move operation would create a cycle.
    CycleDetected { node_uuid: WorkspaceNodeId, parent_uuid: WorkspaceNodeId },
    /// Repository-level failure.
    Repo(TreeRepoError),
}

/// The service error that stands for a repository error: a node that is
/// not found or is no folder is named as such, anything else is passed on.
pub open spec fn lifted(e: TreeRepoError) -> TreeServiceError {
    match e {
        TreeRepoError::NodeNotFound(id) => TreeServiceError::NodeNotFound(id),
        TreeRepoError::NodeNotFolder(id) => TreeServiceError::NodeMustBeFolder(id),
        other => TreeServiceError::Repo(other),
    }
}

impl From<TreeRepoError> for TreeServiceError {
    fn from(value: TreeRepoError) -> (r: Self) {
        match value {
            TreeRepoError::NodeNotFound(node_uuid) => TreeServiceError::NodeNotFound(node_uuid),
            TreeRepoError::NodeNotFolder(node_uuid) => TreeServiceError::NodeMustBeFolder(node_uuid),
            other => TreeServiceError::Repo(other),
        }
    }
}

impl vstd::std_specs::convert::FromSpecImpl<TreeRepoError> for TreeServiceError {
    open spec fn obeys_from_spec() -> bool {
        true
    }

    open spec fn from_spec(value: TreeRepoError) -> Self {
        lifted(value)
    }
}

/// An error that passes on a failure of the storage engine.
pub open spec fn engine_failure(e: TreeServiceError) -> bool {
    e is Repo && storage_failure(e->Repo_0)
}

/// How a rejected operation may end: with the error `expected` that the
/// tree calls for, or, where the engine can fail on its own account, with
/// a failure of the engine.
pub open spec fn rejected_as(may_fail: bool, expected: Option<TreeServiceError>, e: TreeServiceError) -> bool {
    Some(e) == expected || (may_fail && engine_failure(e))
}

/// Why `parent` cannot take children, if it cannot: it is not visible, or
/// it is no folder. The root level takes children always.
pub open spec fn parent_rejection(s: TreeState, parent: Option<u128>) -> Option<TreeServiceError> {
    match parent {
        None => None,
        Some(p) => if !s.visible_node(p) {
            Some(TreeServiceError::ParentNotFound(p))
        } else if s.node(p).kind != WorkspaceNodeKind::Folder {
            Some(TreeServiceError::ParentMustBeFolder(p))
        } else {
            None
        },
    }
}

/// Why atom `atom` cannot be the target of a note reference, if it cannot:
/// it is absent or soft-deleted, or it is no note.
pub open spec fn atom_rejection(s: TreeState, atom: u128) -> Option<TreeServiceError> {
    match s.atom_kind(atom) {
        None => Some(TreeServiceError::AtomNotFound(atom)),
        Some(AtomType::Note) => None,
        Some(_) => Some(TreeServiceError::AtomNotNote(atom)),
    }
}

/// Why a folder named `name` cannot be created under `parent`, if it cannot.
pub open spec fn create_folder_rejection(s: TreeState, parent: Option<u128>, name: Seq<char>) -> Option<
    TreeServiceError,
> {
    if blank(name) {
        Some(TreeServiceError::InvalidDisplayName)
    } else {
        parent_rejection(s, parent)
    }
}

/// Why a note reference to `atom` cannot be created under `parent`, if it cannot.
pub open spec fn create_note_ref_rejection(
    s: TreeState,
    parent: Option<u128>,
    atom: u128,
    name: Option<Seq<char>>,
) -> Option<TreeServiceError> {
    if parent_rejection(s, parent) is Some {
        parent_rejection(s, parent)
    } else if atom_rejection(s, atom) is Some {
        atom_rejection(s, atom)
    } else if name is Some && blank(name->0) {
        Some(TreeServiceError::InvalidDisplayName)
    } else {
        None
    }
}

/// The name a note reference is created with.
pub open spec fn note_ref_name(name: Option<Seq<char>>) -> Seq<char> {
    match name {
        Some(n) => trimmed(n),
        None => default_note_name(),
    }
}

/// Why node `id` cannot be renamed to `name`, if it cannot.
pub open spec fn rename_rejection(s: TreeState, id: u128, name: Seq<char>) -> Option<TreeServiceError> {
    if blank(name) {
        Some(TreeServiceError::InvalidDisplayName)
    } else if !s.active_node(id) {
        Some(TreeServiceError::NodeNotFound(id))
    } else {
        None
    }
}

/// Why node `id` cannot be moved under `new_parent`, if it cannot: the
/// node is not visible; the new parent is the node itself, is not visible
/// or is no folder; or the walk up from the new parent reaches the node,
/// meets a node twice, or stops at a node that is not visible.
pub open spec fn move_rejection(s: TreeState, id: u128, new_parent: Option<u128>) -> Option<
    TreeServiceError,
> {
    if !s.visible_node(id) {
        Some(TreeServiceError::NodeNotFound(id))
    } else {
        match new_parent {
            None => None,
            Some(p) => if p == id {
                Some(TreeServiceError::CycleDetected { node_uuid: id, parent_uuid: p })
            } else if parent_rejection(s, new_parent) is Some {
                parent_rejection(s, new_parent)
            } else {
                match walk_end(s, p, id) {
                    WalkEnd::Cycle => Some(TreeServiceError::CycleDetected { node_uuid: id, parent_uuid: p }),
                    WalkEnd::Hidden(c) => Some(TreeServiceError::ParentNotFound(c)),
                    WalkEnd::Clear => None,
                }
            },
        }
    }
}

/// Why folder `id` cannot be deleted in mode `mode`, if it cannot: the
/// node is not visible or is no folder, or the children of a dissolved
/// folder do not fit behind the root level's nodes.
pub open spec fn delete_rejection(s: TreeState, id: u128, mode: FolderDeleteMode) -> Option<
    TreeServiceError,
> {
    if !s.visible_node(id) {
        Some(TreeServiceError::NodeNotFound(id))
    } else if s.node(id).kind != WorkspaceNodeKind::Folder {
        Some(TreeServiceError::NodeMustBeFolder(id))
    } else if mode == FolderDeleteMode::Dissolve && !s.dissolve_fits(id) {
        Some(TreeServiceError::Repo(refused(SqliteFailure::IntegerOverflow)))
    } else {
        None
    }
}

/// The tables after folder `id` was deleted in mode `mode`.
pub open spec fn after_delete(s: TreeState, id: u128, mode: FolderDeleteMode, now: i64) -> TreeState {
    match mode {
        FolderDeleteMode::Dissolve => s.after_dissolve(id, now),
        FolderDeleteMode::DeleteAll => s.after_delete_all(id, now),
    }
}

/// Trims a display name; a name that is blank is invalid.
pub fn normalize_display_name(value: &str) -> (r: Result<String, TreeServiceError>)
    ensures
        match r {
            Ok(name) => !blank(value@) && name@ == trimmed(value@),
            Err(e) => blank(value@) && e == TreeServiceError::InvalidDisplayName,
        },
{
    let kept = trim(value);
    if kept.is_empty() {
        return Err(TreeServiceError::InvalidDisplayName);
    }
    Ok(kept.to_owned())
}

/// Workspace tree service facade.
pub struct TreeService<R: TreeRepository> {
    pub repo: R,
}

impl<R: TreeRepository> TreeService<R> {
    /// The content of the tables behind the service.
    pub open spec fn state(&self) -> TreeState {
        self.repo.state()
    }

    /// The repository behind the service is in order. The service asks no
    /// more: it works on a tree that is not consistent too, and keeps a
    /// tree consistent that is.
    pub open spec fn inv(&self) -> bool {
        self.repo.inv()
    }

    /// Creates service from repository implementation.
    pub fn new(repo: R) -> (r: Self)
        ensures
            r.repo == repo,
    {
        TreeService { repo }
    }

    fn ensure_parent_is_folder(&self, parent_uuid: WorkspaceNodeId) -> (r: Result<(), TreeServiceError>)
        requires
            self.inv(),
        ensures
            match r {
                Ok(()) => parent_rejection(self.state(), Some(parent_uuid)) is None,
                Err(e) => rejected_as(
                    self.repo.may_fail(),
                    parent_rejection(self.state(), Some(parent_uuid)),
                    e,
                ),
            },
    {
        match self.repo.get_node(parent_uuid, false) {
            Err(e) => Err(TreeServiceError::from(e)),
            Ok(None) => Err(TreeServiceError::ParentNotFound(parent_uuid)),
            Ok(Some(parent)) => match parent.kind {
                WorkspaceNodeKind::Folder => Ok(()),
                WorkspaceNodeKind::NoteRef => Err(TreeServiceError::ParentMustBeFolder(parent_uuid)),
            },
        }
    }

    fn ensure_parent(&self, parent_uuid: Option<WorkspaceNodeId>) -> (r: Result<(), TreeServiceError>)
        requires
            self.inv(),
        ensures
            match r {
                Ok(()) => parent_rejection(self.state(), parent_uuid) is None,
                Err(e) => rejected_as(self.repo.may_fail(), parent_rejection(self.state(), parent_uuid), e),
            },
    {
        match parent_uuid {
            Some(p) => self.ensure_parent_is_folder(p),
            None => Ok(()),
        }
    }

    fn ensure_atom_is_note(&self, atom_uuid: AtomId) -> (r: Result<(), TreeServiceError>)
        requires
            self.inv(),
        ensures
            match r {
                Ok(()) => atom_rejection(self.state(), atom_uuid) is None,
                Err(e) => rejected_as(self.repo.may_fail(), atom_rejection(self.state(), atom_uuid), e),
            },
    {
        match self.repo.atom_kind(atom_uuid) {
            Err(e) => Err(TreeServiceError::from(e)),
            Ok(None) => Err(TreeServiceError::AtomNotFound(atom_uuid)),
            Ok(Some(AtomType::Note)) => Ok(()),
            Ok(Some(_)) => Err(TreeServiceError::AtomNotNote(atom_uuid)),
        }
    }

    /// Creates one folder under optional parent. The name is trimmed; the
    /// parent, where one is given, must be a visible folder.
    pub fn create_folder(&mut self, parent_uuid: Option<WorkspaceNodeId>, display_name: &str) -> (r:
        Result<WorkspaceNode, TreeServiceError>)
        requires
            old(self).inv(),
        ensures
            final(self).inv(),
            final(self).repo.may_fail() == old(self).repo.may_fail(),
            old(self).state().kept_in(final(self).state()),
            old(self).state().consistent() ==> final(self).state().consistent(),
            old(self).state().names_kept() ==> final(self).state().names_kept(),
            match r {
                Ok(node) => create_folder_rejection(old(self).state(), parent_uuid, display_name@)
                    is None && created(
                    old(self).state(),
                    final(self).state(),
                    node@,
                    WorkspaceNodeKind::Folder,
                    parent_uuid,
                    None,
                    trimmed(display_name@),
                ) && (old(self).state().dense(parent_uuid) && old(self).state().children_all_visible(
                    parent_uuid,
                ) ==> final(self).state().dense(parent_uuid)),
                Err(e) => final(self).state() == old(self).state() && (rejected_as(
                    old(self).repo.may_fail(),
                    create_folder_rejection(old(self).state(), parent_uuid, display_name@),
                    e,
                ) || (create_folder_rejection(old(self).state(), parent_uuid, display_name@) is None
                    && engine_failure(e))),
            },
    {
        let normalized = match normalize_display_name(display_name) {
            Ok(name) => name,
            Err(e) => {
                return Err(e);
            },
        };
        match self.ensure_parent(parent_uuid) {
            Ok(()) => {},
            Err(e) => {
                return Err(e);
            },
        }
        match self.repo.create_folder(parent_uuid, normalized.as_str()) {
            Ok(node) => {
                proof {
                    let s = old(self).state();
                    let display_name_text = display_name@;
                    old(self).repo.tables_well_formed();
                    if s.consistent() {
                        lemma_create_consistent(s, node@);
                    }
                    lemma_rows_kept(s, 0, None, None, Seq::empty(), node@, 0);
                    if node@.display_name == default_note_name() {
                        lemma_default_name_kept();
                    } else {
                        lemma_trimmed_name_kept(display_name_text);
                    }
                    if s.names_kept() {
                        lemma_names_kept(s, 0, None, None, Seq::empty(), node@, 0);
                    }
                    if s.dense(parent_uuid) && s.children_all_visible(parent_uuid) {
                        lemma_create_dense(s, node@);
                    }
                }
                Ok(node)
            },
            Err(e) => Err(TreeServiceError::from(e)),
        }
    }

    /// Creates one note reference under optional parent. The parent, where
    /// one is given, must be a visible folder; the atom must be an active
    /// note; the name is trimmed, or "Untitled note" where none is given.
    pub fn create_note_ref(
        &mut self,
        parent_uuid: Option<WorkspaceNodeId>,
        atom_uuid: AtomId,
        display_name: Option<&str>,
    ) -> (r: Result<WorkspaceNode, TreeServiceError>)
        requires
            old(self).inv(),
        ensures
            final(self).inv(),
            final(self).repo.may_fail() == old(self).repo.may_fail(),
            old(self).state().kept_in(final(self).state()),
            old(self).state().consistent() ==> final(self).state().consistent(),
            old(self).state().names_kept() ==> final(self).state().names_kept(),
            match r {
                Ok(node) => create_note_ref_rejection(
                    old(self).state(),
                    parent_uuid,
                    atom_uuid,
                    text_of(display_name),
                ) is None && created(
                    old(self).state(),
                    final(self).state(),
                    node@,
                    WorkspaceNodeKind::NoteRef,
                    parent_uuid,
                    Some(atom_uuid),
                    note_ref_name(text_of(display_name)),
                ) && (old(self).state().dense(parent_uuid) && old(self).state().children_all_visible(
                    parent_uuid,
                ) ==> final(self).state().dense(parent_uuid)),
                Err(e) => final(self).state() == old(self).state() && (rejected_as(
                    old(self).repo.may_fail(),
                    create_note_ref_rejection(
                        old(self).state(),
                        parent_uuid,
                        atom_uuid,
                        text_of(display_name),
                    ),
                    e,
                ) || (create_note_ref_rejection(
                    old(self).state(),
                    parent_uuid,
                    atom_uuid,
                    text_of(display_name),
                ) is None && engine_failure(e))),
            },
    {
        match self.ensure_parent(parent_uuid) {
            Ok(()) => {},
            Err(e) => {
                return Err(e);
            },
        }
        match self.ensure_atom_is_note(atom_uuid) {
            Ok(()) => {},
            Err(e) => {
                return Err(e);
            },
        }
        let normalized = match display_name {
            Some(value) => match normalize_display_name(value) {
                Ok(name) => name,
                Err(e) => {
                    return Err(e);
                },
            },
            None => "Untitled note".to_owned(),
        };
        match self.repo.create_note_ref(parent_uuid, atom_uuid, normalized.as_str()) {
            Ok(node) => {
                proof {
                    let s = old(self).state();
                    let display_name_text = match display_name {
                        Some(given) => given@,
                        None => default_note_name(),
                    };
                    old(self).repo.tables_well_formed();
                    if s.consistent() {
                        lemma_create_consistent(s, node@);
                    }
                    lemma_rows_kept(s, 0, None, None, Seq::empty(), node@, 0);
                    if node@.display_name == default_note_name() {
                        lemma_default_name_kept();
                    } else {
                        lemma_trimmed_name_kept(display_name_text);
                    }
                    if s.names_kept() {
                        lemma_names_kept(s, 0, None, None, Seq::empty(), node@, 0);
                    }
                    if s.dense(parent_uuid) && s.children_all_visible(parent_uuid) {
                        lemma_create_dense(s, node@);
                    }
                }
                Ok(node)
            },
            Err(e) => Err(TreeServiceError::from(e)),
        }
    }

    /// Lists the visible children of optional parent, in sibling order.
    pub fn list_children(&self, parent_uuid: Option<WorkspaceNodeId>) -> (r: Result<
        Vec<WorkspaceNode>,
        TreeServiceError,
    >)
        requires
            self.inv(),
        ensures
            match r {
                Ok(nodes) => parent_rejection(self.state(), parent_uuid) is None && rows_of(nodes@)
                    == self.state().listed(parent_uuid, false) && self.state().is_listing(
                    ChildFilter::Visible,
                    parent_uuid,
                    rows_of(nodes@),
                ),
                Err(e) => rejected_as(self.repo.may_fail(), parent_rejection(self.state(), parent_uuid), e),
            },
    {
        match self.ensure_parent(parent_uuid) {
            Ok(()) => {},
            Err(e) => {
                return Err(e);
            },
        }
        match self.repo.list_children(parent_uuid, false) {
            Ok(nodes) => Ok(nodes),
            Err(e) => Err(TreeServiceError::from(e)),
        }
    }

    /// Loads one visible node by id.
    pub fn get_node(&self, node_uuid: WorkspaceNodeId) -> (r: Result<
        Option<WorkspaceNode>,
        TreeServiceError,
    >)
        requires
            self.inv(),
        ensures
            match r {
                Ok(node) => row_of(node) == self.state().get(node_uuid, false),
                Err(e) => self.repo.may_fail() && engine_failure(e),
            },
    {
        match self.repo.get_node(node_uuid, false) {
            Ok(node) => Ok(node),
            Err(e) => Err(TreeServiceError::from(e)),
        }
    }

    /// Loads the kind of an active atom, if present.
    pub fn atom_kind(&self, atom_uuid: AtomId) -> (r: Result<Option<AtomType>, TreeServiceError>)
        requires
            self.inv(),
        ensures
            match r {
                Ok(kind) => kind == self.state().atom_kind(atom_uuid),
                Err(e) => self.repo.may_fail() && engine_failure(e),
            },
    {
        match self.repo.atom_kind(atom_uuid) {
            Ok(kind) => Ok(kind),
            Err(e) => Err(TreeServiceError::from(e)),
        }
    }

    /// Renames one node to the trimmed name.
    pub fn rename_node(&mut self, node_uuid: WorkspaceNodeId, display_name: &str) -> (r: Result<
        (),
        TreeServiceError,
    >)
        requires
            old(self).inv(),
        ensures
            final(self).inv(),
            final(self).repo.may_fail() == old(self).repo.may_fail(),
            old(self).state().kept_in(final(self).state()),
            old(self).state().consistent() ==> final(self).state().consistent(),
            old(self).state().names_kept() ==> final(self).state().names_kept(),
            match r {
                Ok(()) => rename_rejection(old(self).state(), node_uuid, display_name@) is None
                    && exists|now: i64|
                    final(self).state() == #[trigger] old(self).state().after_rename(
                        node_uuid,
                        trimmed(display_name@),
                        now,
                    ),
                Err(e) => final(self).state() == old(self).state() && rejected_as(
                    old(self).repo.may_fail(),
                    rename_rejection(old(self).state(), node_uuid, display_name@),
                    e,
                ),
            },
    {
        let normalized = match normalize_display_name(display_name) {
            Ok(name) => name,
            Err(e) => {
                return Err(e);
            },
        };
        match self.repo.rename_node(node_uuid, normalized.as_str()) {
            Ok(()) => {
                proof {
                    let s = old(self).state();
                    let now = choose|now: i64|
                        self.state() == #[trigger] s.after_rename(node_uuid, trimmed(display_name@), now);
                    if s.consistent() {
                        lemma_rename_consistent(s, node_uuid, trimmed(display_name@), now);
                    }
                    lemma_rows_kept(s, node_uuid, None, None, trimmed(display_name@), s.nodes[0], now);
                    lemma_trimmed_name_kept(display_name@);
                    if s.names_kept() {
                        lemma_names_kept(s, node_uuid, None, None, trimmed(display_name@), s.nodes[0], now);
                    }
                }
                Ok(())
            },
            Err(e) => Err(TreeServiceError::from(e)),
        }
    }

    /// Walks the parent links upward from the candidate parent and says
    /// whether the move would close a cycle: whether the walk reaches
    /// `node_uuid`, or reaches a node that it met before, as it does where
    /// the stored links already loop. A node on the way that is not visible
    /// is reported as a parent that is not found.
    fn would_create_cycle(&self, node_uuid: WorkspaceNodeId, candidate_parent_uuid: WorkspaceNodeId) -> (r:
        Result<bool, TreeServiceError>)
        requires
            self.inv(),
        ensures
            match r {
                Ok(found) => walk_end(self.state(), candidate_parent_uuid, node_uuid) == (if found {
                    WalkEnd::Cycle
                } else {
                    WalkEnd::Clear
                }) && found == (on_chain(self.state(), candidate_parent_uuid, node_uuid) || meets_twice(
                    self.state(),
                    candidate_parent_uuid,
                )),
                Err(e) => (walk_end(self.state(), candidate_parent_uuid, node_uuid) is Hidden && e
                    == TreeServiceError::ParentNotFound(
                    walk_end(self.state(), candidate_parent_uuid, node_uuid)->0,
                )) || (self.repo.may_fail() && engine_failure(e)),
            },
    {
        let ghost s = self.state();
        let ghost p = candidate_parent_uuid;
        proof {
            self.repo.tables_well_formed();
            lemma_walk_stop(s, p, node_uuid);
        }
        let mut visited: HashSet<WorkspaceNodeId> = HashSet::new();
        let ghost mut steps: nat = 0;
        let mut cursor = Some(candidate_parent_uuid);
        loop
            invariant
                self.inv(),
                s == self.state(),
                p == candidate_parent_uuid,
                s.wf(),
                steps <= s.nodes.len(),
                cursor == s.ancestor(p, steps),
                walked_past(s, p, node_uuid, steps),
                forall|c: u128|
                    visited@.contains(c) <==> exists|i: nat| i < steps && #[trigger] s.ancestor(p, i) == Some(c),
                walk_end(s, p, node_uuid) == walk_from(s, p, node_uuid, steps, (s.nodes.len() - steps) as nat),
                walk_end(s, p, node_uuid) is Cycle ==> on_chain(s, p, node_uuid) || meets_twice(s, p),
            decreases s.nodes.len() - steps,
        {
            let current = match cursor {
                Some(current) => current,
                None => {
                    proof {
                        lemma_walk_clear(s, p, node_uuid);
                    }
                    return Ok(false);
                },
            };
            if current == node_uuid {
                return Ok(true);
            }
            let fresh = visited.insert(current);
            proof {
                if met_before(s, p, steps) {
                    let i = choose|i: nat| i < steps && #[trigger] s.ancestor(p, i) == s.ancestor(p, steps);
                    assert(s.ancestor(p, i) == Some(current));
                }
                assert(fresh == !met_before(s, p, steps));
            }
            if !fresh {
                return Ok(true);
            }
            match self.repo.get_node(current, false) {
                Err(e) => {
                    return Err(TreeServiceError::from(e));
                },
                Ok(None) => {
                    return Err(TreeServiceError::ParentNotFound(current));
                },
                Ok(Some(node)) => {
                    proof {
                        lemma_node_index(s, current);
                        assert(s.parent_of(current) == node.parent_uuid);
                        lemma_ancestor_step(s, p, steps);
                        assert(walked_past(s, p, node_uuid, steps + 1));
                        lemma_walked_fit(s, p, node_uuid, steps + 1);
                        assert forall|c: u128|
                            visited@.contains(c) <==> exists|i: nat|
                                i < steps + 1 && #[trigger] s.ancestor(p, i) == Some(c) by {
                            if visited@.contains(c) && c != current {
                                let i = choose|i: nat| i < steps && #[trigger] s.ancestor(p, i) == Some(c);
                                assert(i < steps + 1 && s.ancestor(p, i) == Some(c));
                            }
                            if c == current {
                                assert(s.ancestor(p, steps) == Some(c));
                            }
                        }
                        steps = steps + 1;
                    }
                    cursor = node.parent_uuid;
                },
            }
        }
    }

    /// Moves one node under optional parent, to the index `target_order`
    /// among the visible children there or to their end. A negative index
    /// counts as 0. A move that would make the node its own ancestor is
    /// rejected.
    pub fn move_node(
        &mut self,
        node_uuid: WorkspaceNodeId,
        new_parent_uuid: Option<WorkspaceNodeId>,
        target_order: Option<i64>,
    ) -> (r: Result<(), TreeServiceError>)
        requires
            old(self).inv(),
        ensures
            final(self).inv(),
            final(self).repo.may_fail() == old(self).repo.may_fail(),
            old(self).state().kept_in(final(self).state()),
            old(self).state().consistent() ==> final(self).state().consistent(),
            old(self).state().names_kept() ==> final(self).state().names_kept(),
            match r {
                Ok(()) => move_rejection(old(self).state(), node_uuid, new_parent_uuid) is None
                    && final(self).state().dense(new_parent_uuid) && exists|now: i64|
                    final(self).state() == #[trigger] old(self).state().after_move(
                        node_uuid,
                        new_parent_uuid,
                        target_order,
                        now,
                    ),
                Err(e) => final(self).state() == old(self).state() && rejected_as(
                    old(self).repo.may_fail(),
                    move_rejection(old(self).state(), node_uuid, new_parent_uuid),
                    e,
                ),
            },
    {
        let ghost s = self.state();
        proof {
            self.repo.tables_well_formed();
        }
        match self.repo.get_node(node_uuid, false) {
            Err(e) => {
                return Err(TreeServiceError::from(e));
            },
            Ok(None) => {
                return Err(TreeServiceError::NodeNotFound(node_uuid));
            },
            Ok(Some(_)) => {},
        }
        if let Some(parent_uuid) = new_parent_uuid {
            if parent_uuid == node_uuid {
                return Err(TreeServiceError::CycleDetected { node_uuid, parent_uuid });
            }
            match self.ensure_parent_is_folder(parent_uuid) {
                Ok(()) => {},
                Err(e) => {
                    return Err(e);
                },
            }
            match self.would_create_cycle(node_uuid, parent_uuid) {
                Err(e) => {
                    return Err(e);
                },
                Ok(true) => {
                    return Err(TreeServiceError::CycleDetected { node_uuid, parent_uuid });
                },
                Ok(false) => {},
            }
        }
        let clamped = match target_order {
            Some(value) => Some(if value < 0 { 0 } else { value }),
            None => None,
        };
        match self.repo.move_node(node_uuid, new_parent_uuid, clamped) {
            Ok(()) => {
                proof {
                    let now = choose|now: i64|
                        self.state() == #[trigger] s.after_move(node_uuid, new_parent_uuid, clamped, now);
                    let siblings = crate::repo::tree_state::ids_of(
                        s.children(ChildFilter::Visible, new_parent_uuid),
                    );
                    assert(reorder(siblings, node_uuid, clamped) == reorder(
                        siblings,
                        node_uuid,
                        target_order,
                    ));
                    assert(s.after_move(node_uuid, new_parent_uuid, clamped, now).nodes =~= s.after_move(
                        node_uuid,
                        new_parent_uuid,
                        target_order,
                        now,
                    ).nodes);
                    if s.consistent() {
                        if new_parent_uuid is Some {
                            lemma_walk_clear(s, new_parent_uuid->0, node_uuid);
                        }
                        lemma_move_consistent(s, node_uuid, new_parent_uuid, target_order, now);
                    }
                    lemma_move_dense(s, node_uuid, new_parent_uuid, target_order, now);
                    lemma_rows_kept(s, node_uuid, new_parent_uuid, target_order, Seq::empty(), s.nodes[0], now);
                    if s.names_kept() {
                        lemma_names_kept(s, node_uuid, new_parent_uuid, target_order, Seq::empty(), s.nodes[0], now);
                    }
                }
                Ok(())
            },
            Err(e) => Err(TreeServiceError::from(e)),
        }
    }

    /// Deletes a folder by mode: dissolved into the root level, or with
    /// all that lies below it.
    pub fn delete_folder(&mut self, folder_uuid: WorkspaceNodeId, mode: FolderDeleteMode) -> (r: Result<
        (),
        TreeServiceError,
    >)
        requires
            old(self).inv(),
        ensures
            final(self).inv(),
            final(self).repo.may_fail() == old(self).repo.may_fail(),
            old(self).state().kept_in(final(self).state()),
            old(self).state().consistent() ==> final(self).state().consistent(),
            old(self).state().names_kept() ==> final(self).state().names_kept(),
            match r {
                Ok(()) => delete_rejection(old(self).state(), folder_uuid, mode) is None
                    && exists|now: i64|
                    final(self).state() == #[trigger] after_delete(
                        old(self).state(),
                        folder_uuid,
                        mode,
                        now,
                    ),
                Err(e) => final(self).state() == old(self).state() && rejected_as(
                    old(self).repo.may_fail(),
                    delete_rejection(old(self).state(), folder_uuid, mode),
                    e,
                ),
            },
    {
        let ghost s = self.state();
        proof {
            self.repo.tables_well_formed();
        }
        match self.repo.get_node(folder_uuid, false) {
            Err(e) => {
                return Err(TreeServiceError::from(e));
            },
            Ok(None) => {
                return Err(TreeServiceError::NodeNotFound(folder_uuid));
            },
            Ok(Some(folder)) => match folder.kind {
                WorkspaceNodeKind::Folder => {},
                WorkspaceNodeKind::NoteRef => {
                    return Err(TreeServiceError::NodeMustBeFolder(folder_uuid));
                },
            },
        }
        match mode {
            FolderDeleteMode::Dissolve => match self.repo.delete_folder_dissolve(folder_uuid) {
                Ok(()) => {
                    proof {
                        let now = choose|now: i64|
                            self.state() == #[trigger] s.after_dissolve(folder_uuid, now);
                        if s.consistent() {
                            lemma_dissolve_consistent(s, folder_uuid, now);
                        }
                        lemma_rows_kept(s, folder_uuid, None, None, Seq::empty(), s.nodes[0], now);
                        if s.names_kept() {
                            lemma_names_kept(s, folder_uuid, None, None, Seq::empty(), s.nodes[0], now);
                        }
                        assert(self.state() == after_delete(s, folder_uuid, mode, now));
                    }
                    Ok(())
                },
                Err(e) => Err(TreeServiceError::from(e)),
            },
            FolderDeleteMode::DeleteAll => match self.repo.delete_folder_delete_all(folder_uuid) {
                Ok(()) => {
                    proof {
                        let now = choose|now: i64|
                            self.state() == #[trigger] s.after_delete_all(folder_uuid, now);
                        if s.consistent() {
                            lemma_delete_all_consistent(s, folder_uuid, now);
                        }
                        lemma_rows_kept(s, folder_uuid, None, None, Seq::empty(), s.nodes[0], now);
                        if s.names_kept() {
                            lemma_names_kept(s, folder_uuid, None, None, Seq::empty(), s.nodes[0], now);
                        }
                        assert(self.state() == after_delete(s, folder_uuid, mode, now));
                    }
                    Ok(())
                },
                Err(e) => Err(TreeServiceError::from(e)),
            },
        }
    }
}

/// What a service error says.
pub open spec fn service_error_text(e: TreeServiceError) -> Seq<char> {
    match e {
        TreeServiceError::InvalidDisplayName => "display name must not be blank"@,
        TreeServiceError::NodeNotFound(id) => "workspace node not found: "@ + text_of_uuid(id),
        TreeServiceError::ParentNotFound(id) => "workspace parent not found: "@ + text_of_uuid(id),
        TreeServiceError::ParentMustBeFolder(id) => "workspace parent must be folder: "@ + text_of_uuid(
            id,
        ),
        TreeServiceError::NodeMustBeFolder(id) => "workspace node must be folder: "@ + text_of_uuid(id),
        TreeServiceError::AtomNotFound(id) => "atom not found: "@ + text_of_uuid(id),
        TreeServiceError::AtomNotNote(id) => "atom is not a note: "@ + text_of_uuid(id),
        TreeServiceError::CycleDetected { node_uuid, parent_uuid } => "move would create cycle: node "@
            + text_of_uuid(node_uuid) + " under parent "@ + text_of_uuid(parent_uuid),
        TreeServiceError::Repo(err) => repo_error_text(err),
    }
}

impl TreeServiceError {
    /// The message of this error.
    pub fn message(&self) -> (r: String)
        ensures
            r@ == service_error_text(*self),
    {
        match self {
            TreeServiceError::InvalidDisplayName => "display name must not be blank".to_owned(),
            TreeServiceError::NodeNotFound(id) => join2(
                "workspace node not found: ",
                write_uuid(*id).as_str(),
            ),
            TreeServiceError::ParentNotFound(id) => join2(
                "workspace parent not found: ",
                write_uuid(*id).as_str(),
            ),
            TreeServiceError::ParentMustBeFolder(id) => join2(
                "workspace parent must be folder: ",
                write_uuid(*id).as_str(),
            ),
            TreeServiceError::NodeMustBeFolder(id) => join2(
                "workspace node must be folder: ",
                write_uuid(*id).as_str(),
            ),
            TreeServiceError::AtomNotFound(id) => join2("atom not found: ", write_uuid(*id).as_str()),
            TreeServiceError::AtomNotNote(id) => join2("atom is not a note: ", write_uuid(*id).as_str()),
            TreeServiceError::CycleDetected { node_uuid, parent_uuid } => {
                let mut r = join3(
                    "move would create cycle: node ",
                    write_uuid(*node_uuid).as_str(),
                    " under parent ",
                );
                r.append(write_uuid(*parent_uuid).as_str());
                r
            },
            TreeServiceError::Repo(err) => err.message(),
        }
    }
}

} // verus!
