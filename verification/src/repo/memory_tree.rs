//! The workspace tree tables held in memory.
//!
//! `MemoryTreeRepository` keeps the node rows and the atoms the tree looks
//! at in two vectors and answers every operation of `TreeRepository` from
//! them. A mutation builds the next rows aside and installs them at the end,
//! so a refused operation leaves the tables as they were.

use vstd::prelude::*;
use vstd::set_lib::lemma_int_range;
use vstd::set_lib::lemma_len_subset;
use vstd::set_lib::set_int_range;
use crate::db::DbError;
use crate::db::SqliteFailure;
use crate::model::atom::AtomId;
use crate::model::atom::AtomType;
use crate::repo::ancestry::lemma_ancestor_ends;
use crate::repo::ancestry::lemma_ancestor_step;
use crate::repo::ancestry::lemma_short_return;
use crate::repo::tree_lemmas::lemma_atom_at;
use crate::repo::tree_lemmas::lemma_listing_is_children;
use crate::repo::tree_lemmas::lemma_child_in_subtree;
use crate::repo::tree_lemmas::lemma_ids_fit;
use crate::repo::tree_lemmas::lemma_listing_ids;
use crate::repo::tree_lemmas::lemma_marks_complete;
use crate::repo::tree_lemmas::lemma_move_order;
use crate::repo::tree_lemmas::marks_closed;
use crate::repo::tree_lemmas::marks_sound;
use crate::repo::tree_lemmas::lemma_node_at;
use crate::repo::tree_lemmas::lemma_node_index;
use crate::repo::tree_lemmas::lemma_same_shape;
use crate::repo::tree_lemmas::lemma_with_node;
use crate::repo::tree_repo::dissolve_refusal;
use crate::repo::tree_repo::folder_refusal;
use crate::repo::tree_repo::move_refusal;
use crate::repo::tree_repo::refused;
use crate::outside::random_uuid;
use crate::outside::since_epoch;
use crate::outside::system_now;
use crate::outside::whole_seconds;
use crate::repo::tree_repo::TreeRepoError;
use crate::repo::tree_repo::TreeRepoResult;
use crate::repo::tree_repo::TreeRepository;
use crate::repo::tree_repo::WorkspaceNode;
use crate::repo::tree_repo::WorkspaceNodeId;
use crate::repo::tree_repo::row_of;
use crate::repo::tree_repo::rows_of;
use crate::repo::tree_state::AtomRow;
use crate::repo::tree_state::ChildFilter;
use crate::repo::tree_state::NodeRow;
use crate::repo::tree_state::TreeState;
use crate::repo::tree_state::WorkspaceNodeKind;
use crate::repo::tree_state::ids_of;
use crate::repo::tree_state::dissolved;
use crate::outside::same_text;
use crate::repo::tree_state::key_lt;
use crate::repo::tree_state::name_kept;
use crate::text::trim;
use crate::repo::tree_state::move_target;
use crate::repo::tree_state::other_than;
use crate::repo::tree_state::placed;

verus! {

/// In-memory workspace tree repository.
pub struct MemoryTreeRepository {
    nodes: Vec<WorkspaceNode>,
    atoms: Vec<AtomRow>,
}

impl View for MemoryTreeRepository {
    type V = TreeState;

    closed spec fn view(&self) -> TreeState {
        TreeState { nodes: rows_of(self.nodes@), atoms: self.atoms@ }
    }
}

/// Whether `a` comes before `b` among siblings.
fn sorts_before(a: &WorkspaceNode, b: &WorkspaceNode) -> (r: bool)
    ensures
        r == key_lt(a@, b@),
{
    a.sort_order < b.sort_order || (a.sort_order == b.sort_order && a.node_uuid < b.node_uuid)
}

/// The index of `x` in `ids`, if it is there.
fn position(ids: &Vec<u128>, x: u128) -> (r: Option<usize>)
    ensures
        match r {
            Some(k) => k < ids.len() && ids[k as int] == x,
            None => !ids@.contains(x),
        },
{
    let mut k: usize = 0;
    while k < ids.len()
        invariant
            k <= ids.len(),
            forall|j: int| 0 <= j < k ==> ids[j] != x,
        decreases ids.len() - k,
    {
        if ids[k] == x {
            return Some(k);
        }
        k += 1;
    }
    None
}

/// `ids` without `id`, in the same order.
fn without(ids: &Vec<u128>, id: u128) -> (rest: Vec<u128>)
    ensures
        rest@ == ids@.filter(other_than(id)),
{
    let mut rest: Vec<u128> = Vec::new();
    let mut k: usize = 0;
    proof {
        reveal(Seq::filter);
        assert(ids@.take(0) =~= Seq::empty());
    }
    while k < ids.len()
        invariant
            k <= ids.len(),
            rest@ == ids@.take(k as int).filter(other_than(id)),
        decreases ids.len() - k,
    {
        proof {
            reveal(Seq::filter);
            assert(ids@.take(k as int + 1).drop_last() =~= ids@.take(k as int));
        }
        if ids[k] != id {
            rest.push(ids[k]);
        }
        k += 1;
    }
    assert(ids@.take(ids.len() as int) =~= ids@);
    rest
}

/// The index a moved node lands on among `len` other siblings.
fn target_index(len: usize, target: Option<i64>) -> (r: usize)
    ensures
        r == move_target(len as int, target),
{
    match target {
        None => len,
        Some(t) => {
            if t < 0 {
                0
            } else if t as u64 > len as u64 {
                len
            } else {
                t as usize
            }
        },
    }
}

impl MemoryTreeRepository {
    /// The tables hold what a storage engine would keep true of them.
    pub closed spec fn well_formed(&self) -> bool {
        self@.wf()
    }

    /// Creates a repository with empty tables.
    pub fn new() -> (r: Self)
        ensures
            r@ == TreeState::empty(),
            r.well_formed(),
            r@.consistent(),
    {
        let r = MemoryTreeRepository { nodes: Vec::new(), atoms: Vec::new() };
        assert(r@.nodes =~= Seq::empty());
        assert forall|x: u128, k: nat| k >= 1 implies #[trigger] r@.ancestor(x, k) != Some(x) by {
            assert(!r@.has_node(x));
        }
        r
    }

    fn find_node(&self, id: WorkspaceNodeId) -> (r: Option<usize>)
        requires
            self@.unique_nodes(),
        ensures
            match r {
                Some(i) => i < self.nodes.len() && self@.has_node(id) && self@.index_of(id) == i
                    && self@.node(id) == self.nodes[i as int]@,
                None => !self@.has_node(id),
            },
    {
        let mut i: usize = 0;
        while i < self.nodes.len()
            invariant
                i <= self.nodes.len(),
                self@.unique_nodes(),
                forall|j: int| 0 <= j < i ==> (#[trigger] self@.nodes[j]).node_uuid != id,
            decreases self.nodes.len() - i,
        {
            if self.nodes[i].node_uuid == id {
                proof {
                    lemma_node_at(self@, i as int);
                }
                return Some(i);
            }
            i += 1;
        }
        None
    }

    fn find_atom(&self, id: AtomId) -> (r: Option<usize>)
        requires
            self@.unique_atoms(),
        ensures
            match r {
                Some(i) => i < self.atoms.len() && self@.has_atom(id) && self@.atom_index(id) == i
                    && self@.atom(id) == self.atoms[i as int],
                None => !self@.has_atom(id),
            },
    {
        let mut i: usize = 0;
        while i < self.atoms.len()
            invariant
                i <= self.atoms.len(),
                self@.unique_atoms(),
                forall|j: int| 0 <= j < i ==> (#[trigger] self@.atoms[j]).uuid != id,
            decreases self.atoms.len() - i,
        {
            if self.atoms[i].uuid == id {
                proof {
                    lemma_atom_at(self@, i as int);
                }
                return Some(i);
            }
            i += 1;
        }
        None
    }

    /// Records atom `id` of the atom store with its kind and its tombstone,
    /// in place of what was recorded of it before.
    pub fn set_atom(&mut self, id: AtomId, kind: AtomType, is_deleted: bool)
        requires
            old(self).well_formed(),
        ensures
            final(self).well_formed(),
            final(self)@ == old(self)@.with_atom(AtomRow { uuid: id, kind, is_deleted }),
    {
        let row = AtomRow { uuid: id, kind, is_deleted };
        match self.find_atom(id) {
            Some(i) => {
                self.atoms.set(i, row);
                assert forall|a: int, b: int|
                    0 <= a < self@.atoms.len() && 0 <= b < self@.atoms.len() && (
                    #[trigger] self@.atoms[a]).uuid == (#[trigger] self@.atoms[b]).uuid implies a
                    == b by {
                    assert(old(self)@.atoms[a].uuid == self@.atoms[a].uuid);
                    assert(old(self)@.atoms[b].uuid == self@.atoms[b].uuid);
                }
            },
            None => {
                self.atoms.push(row);
                assert forall|a: int, b: int|
                    0 <= a < self@.atoms.len() && 0 <= b < self@.atoms.len() && (
                    #[trigger] self@.atoms[a]).uuid == (#[trigger] self@.atoms[b]).uuid implies a
                    == b by {
                    if a < old(self)@.atoms.len() {
                        assert(old(self)@.atoms[a].uuid == self@.atoms[a].uuid);
                    }
                    if b < old(self)@.atoms.len() {
                        assert(old(self)@.atoms[b].uuid == self@.atoms[b].uuid);
                    }
                }
            },
        }
        assert(self@.nodes == old(self)@.nodes);
    }

    /// What is recorded of atom `id`, tombstoned or not.
    pub fn atom_record(&self, id: AtomId) -> (r: Option<AtomRow>)
        requires
            self.well_formed(),
        ensures
            r == (if self@.has_atom(id) {
                Some(self@.atom(id))
            } else {
                None
            }),
    {
        match self.find_atom(id) {
            Some(i) => Some(self.atoms[i]),
            None => None,
        }
    }

    fn active_kind(&self, id: AtomId) -> (r: Option<AtomType>)
        requires
            self@.unique_atoms(),
        ensures
            r == self@.atom_kind(id),
    {
        match self.find_atom(id) {
            Some(i) => {
                if self.atoms[i].is_deleted {
                    None
                } else {
                    Some(self.atoms[i].kind)
                }
            },
            None => None,
        }
    }

    fn shows(&self, node: &WorkspaceNode) -> (r: bool)
        requires
            self@.unique_atoms(),
        ensures
            r == self@.visible(node@),
    {
        if node.is_deleted {
            return false;
        }
        match node.kind {
            WorkspaceNodeKind::Folder => true,
            WorkspaceNodeKind::NoteRef => match node.atom_uuid {
                Some(atom) => match self.active_kind(atom) {
                    Some(AtomType::Note) => true,
                    _ => false,
                },
                None => false,
            },
        }
    }

    fn takes(&self, filter: ChildFilter, parent: Option<WorkspaceNodeId>, node: &WorkspaceNode) -> (r:
        bool)
        requires
            self@.unique_atoms(),
        ensures
            r == self@.selects(filter, parent, node@),
    {
        let same_parent = match (node.parent_uuid, parent) {
            (Some(a), Some(b)) => a == b,
            (None, None) => true,
            _ => false,
        };
        same_parent && match filter {
            ChildFilter::All => true,
            ChildFilter::Active => !node.is_deleted,
            ChildFilter::Visible => self.shows(node),
        }
    }

    /// The indices of the children of `parent` under `filter`, in sibling order.
    fn select(&self, filter: ChildFilter, parent: Option<WorkspaceNodeId>) -> (idx: Vec<usize>)
        requires
            self@.wf(),
        ensures
            forall|k: int| 0 <= k < idx.len() ==> #[trigger] idx[k] < self.nodes.len(),
            self@.picked(idx@) == self@.children(filter, parent),
            self@.is_listing(filter, parent, self@.children(filter, parent)),
    {
        let mut out: Vec<usize> = Vec::new();
        let mut i: usize = 0;
        while i < self.nodes.len()
            invariant
                i <= self.nodes.len(),
                self@.wf(),
                forall|k: int| 0 <= k < out.len() ==> #[trigger] out[k] < i,
                forall|k: int|
                    0 <= k < out.len() ==> self@.selects(filter, parent, self@.nodes[(#[trigger] out[k]) as int]),
                forall|j: int|
                    0 <= j < i && self@.selects(filter, parent, #[trigger] self@.nodes[j])
                        ==> out@.contains(j as usize),
                forall|a: int, b: int|
                    0 <= a < b < out.len() ==> key_lt(
                        self@.nodes[(#[trigger] out[a]) as int],
                        self@.nodes[(#[trigger] out[b]) as int],
                    ),
            decreases self.nodes.len() - i,
        {
            if self.takes(filter, parent, &self.nodes[i]) {
                let mut p: usize = 0;
                while p < out.len() && sorts_before(&self.nodes[out[p]], &self.nodes[i])
                    invariant
                        p <= out.len(),
                        i < self.nodes.len(),
                        forall|k: int| 0 <= k < out.len() ==> #[trigger] out[k] < i,
                        forall|k: int|
                            0 <= k < p ==> key_lt(
                                self@.nodes[(#[trigger] out[k]) as int],
                                self@.nodes[i as int],
                            ),
                    decreases out.len() - p,
                {
                    p += 1;
                }
                let ghost before = out@;
                proof {
                    if p < out.len() {
                        let q = out[p as int] as int;
                        assert(q < i);
                        assert(self@.nodes[q].node_uuid != self@.nodes[i as int].node_uuid);
                        assert(key_lt(self@.nodes[i as int], self@.nodes[q]));
                    }
                }
                out.insert(p, i);
                proof {
                    assert forall|a: int, b: int| 0 <= a < b < out.len() implies key_lt(
                        self@.nodes[(#[trigger] out[a]) as int],
                        self@.nodes[(#[trigger] out[b]) as int],
                    ) by {
                        if a < p && b > p {
                            assert(out[b] == before[b - 1]);
                            assert(out[a] == before[a]);
                            if a < b - 1 {
                                assert(key_lt(
                                    self@.nodes[before[a] as int],
                                    self@.nodes[before[b - 1] as int],
                                ));
                            }
                        } else if a < p && b == p {
                            assert(out[a] == before[a]);
                        } else if a < p && b < p {
                            assert(out[a] == before[a] && out[b] == before[b]);
                        } else if a == p {
                            assert(out[b] == before[b - 1]);
                            if p < b - 1 {
                                assert(key_lt(
                                    self@.nodes[before[p as int] as int],
                                    self@.nodes[before[b - 1] as int],
                                ));
                            }
                        } else {
                            assert(out[a] == before[a - 1] && out[b] == before[b - 1]);
                        }
                    }
                    assert forall|j: int|
                        0 <= j < i + 1 && self@.selects(
                            filter,
                            parent,
                            #[trigger] self@.nodes[j],
                        ) implies out@.contains(j as usize) by {
                        if j < i {
                            assert(before.contains(j as usize));
                            let k = choose|k: int| 0 <= k < before.len() && before[k] == j as usize;
                            if k < p {
                                assert(out@[k] == j as usize);
                            } else {
                                assert(out@[k + 1] == j as usize);
                            }
                        } else {
                            assert(out@[p as int] == i);
                        }
                    }
                    assert forall|k: int| 0 <= k < out.len() implies #[trigger] out[k] < i + 1
                        && self@.selects(filter, parent, self@.nodes[out[k] as int]) by {
                        if k < p {
                            assert(out[k] == before[k]);
                        } else if k > p {
                            assert(out[k] == before[k - 1]);
                        }
                    }
                }
            }
            i += 1;
        }
        proof {
            let rows = self@.picked(out@);
            assert forall|k: int| 0 <= k < rows.len() implies self@.nodes.contains(
                #[trigger] rows[k],
            ) && self@.selects(filter, parent, rows[k]) by {
                assert(rows[k] == self@.nodes[out[k] as int]);
            }
            assert forall|j: int|
                0 <= j < self@.nodes.len() && self@.selects(
                    filter,
                    parent,
                    #[trigger] self@.nodes[j],
                ) implies rows.contains(self@.nodes[j]) by {
                assert(out@.contains(j as usize));
                let k = choose|k: int| 0 <= k < out.len() && out@[k] == j as usize;
                assert(rows[k] == self@.nodes[j]);
            }
            assert forall|a: int, b: int| 0 <= a < b < rows.len() implies key_lt(
                #[trigger] rows[a],
                #[trigger] rows[b],
            ) by {
                assert(rows[a] == self@.nodes[out[a] as int]);
                assert(rows[b] == self@.nodes[out[b] as int]);
            }
            lemma_listing_is_children(self@, filter, parent, rows);
        }
        out
    }

    /// One node by id; without `include_deleted`, only if it is visible.
    fn lookup(&self, node_uuid: WorkspaceNodeId, include_deleted: bool) -> (r: Option<
        WorkspaceNode,
    >)
        requires
            self.well_formed(),
        ensures
            row_of(r) == self@.get(node_uuid, include_deleted),
    {
        match self.find_node(node_uuid) {
            Some(i) => {
                if include_deleted || self.shows(&self.nodes[i]) {
                    Some(self.nodes[i].duplicate())
                } else {
                    None
                }
            },
            None => None,
        }
    }

    /// The children of `parent_uuid` in sibling order; without
    /// `include_deleted`, the visible ones only.
    fn listing(&self, parent_uuid: Option<WorkspaceNodeId>, include_deleted: bool) -> (r:
        Vec<WorkspaceNode>)
        requires
            self.well_formed(),
        ensures
            rows_of(r@) == self@.listed(parent_uuid, include_deleted),
            self@.is_listing(
                if include_deleted {
                    ChildFilter::All
                } else {
                    ChildFilter::Visible
                },
                parent_uuid,
                rows_of(r@),
            ),
    {
        let filter = if include_deleted {
            ChildFilter::All
        } else {
            ChildFilter::Visible
        };
        let idx = self.select(filter, parent_uuid);
        let mut out: Vec<WorkspaceNode> = Vec::new();
        let mut k: usize = 0;
        while k < idx.len()
            invariant
                k <= idx.len(),
                out.len() == k,
                forall|j: int| 0 <= j < idx.len() ==> #[trigger] idx[j] < self.nodes.len(),
                forall|j: int| 0 <= j < k ==> (#[trigger] out[j])@ == self@.nodes[idx[j] as int],
            decreases idx.len() - k,
        {
            out.push(self.nodes[idx[k]].duplicate());
            k += 1;
        }
        assert(rows_of(out@) =~= self@.picked(idx@));
        out
    }


    /// The sort order of the next node under `parent`, unless it leaves `i64`.
    fn next_order(&self, parent: Option<WorkspaceNodeId>) -> (r: Option<i64>)
        requires
            self@.wf(),
        ensures
            match r {
                Some(v) => v == self@.next_sort_order(parent),
                None => self@.next_sort_order(parent) > i64::MAX,
            },
    {
        let idx = self.select(ChildFilter::Active, parent);
        if idx.len() == 0 {
            Some(0)
        } else {
            let last = self.nodes[idx[idx.len() - 1]].sort_order;
            assert(self@.picked(idx@).last() == self@.nodes[idx[idx.len() - 1] as int]);
            if last == i64::MAX {
                None
            } else {
                Some(last + 1)
            }
        }
    }

    fn insert_row(
        &mut self,
        id: WorkspaceNodeId,
        kind: WorkspaceNodeKind,
        parent: Option<WorkspaceNodeId>,
        atom: Option<AtomId>,
        name: &str,
        now: i64,
    ) -> (r: Result<WorkspaceNode, TreeRepoError>)
        requires
            old(self).well_formed(),
            kind == WorkspaceNodeKind::Folder <==> atom is None,
        ensures
            final(self).well_formed(),
            match r {
                Ok(node) => old(self)@.insertable(id, parent) && node@ == old(self)@.new_row(
                    id,
                    kind,
                    parent,
                    atom,
                    name@,
                    now,
                ) && final(self)@ == old(self)@.with_node(node@),
                Err(e) => old(self)@.insert_refusal(id, parent) is Some && e == refused(
                    old(self)@.insert_refusal(id, parent)->0,
                ) && final(self)@ == old(self)@,
            },
    {
        let sort_order = match self.next_order(parent) {
            Some(v) => v,
            None => {
                return Err(TreeRepoError::Db(DbError::Sqlite(SqliteFailure::IntegerOverflow)));
            },
        };
        if self.find_node(id).is_some() {
            return Err(TreeRepoError::Db(DbError::Sqlite(SqliteFailure::UniqueConstraint)));
        }
        if let Some(p) = parent {
            if self.find_node(p).is_none() {
                return Err(TreeRepoError::Db(DbError::Sqlite(SqliteFailure::ForeignKeyConstraint)));
            }
        }
        if self.nodes.len() as u64 >= 0x7fff_ffff_ffff_ffffu64 {
            return Err(TreeRepoError::Db(DbError::Sqlite(SqliteFailure::Full)));
        }
        let node = WorkspaceNode {
            node_uuid: id,
            kind,
            parent_uuid: parent,
            atom_uuid: atom,
            display_name: name.to_owned(),
            sort_order,
            is_deleted: false,
            created_at: now,
            updated_at: now,
        };
        let out = node.duplicate();
        self.nodes.push(node);
        proof {
            assert(self@.nodes =~= old(self)@.with_node(out@).nodes);
            lemma_with_node(old(self)@, out@);
        }
        Ok(out)
    }

    /// Creates the folder `id` under `parent_uuid`, stamped `now`, behind its
    /// siblings. The engine refuses an id that is taken, a parent that names
    /// no row, a sort order beyond `i64`, and a full table.
    pub fn create_folder_with(
        &mut self,
        id: WorkspaceNodeId,
        now: i64,
        parent_uuid: Option<WorkspaceNodeId>,
        display_name: &str,
    ) -> (r: Result<WorkspaceNode, TreeRepoError>)
        requires
            old(self).well_formed(),
        ensures
            final(self).well_formed(),
            match r {
                Ok(node) => old(self)@.insertable(id, parent_uuid) && node@ == old(self)@.new_row(
                    id,
                    WorkspaceNodeKind::Folder,
                    parent_uuid,
                    None,
                    display_name@,
                    now,
                ) && final(self)@ == old(self)@.with_node(node@),
                Err(e) => old(self)@.insert_refusal(id, parent_uuid) is Some && e == refused(
                    old(self)@.insert_refusal(id, parent_uuid)->0,
                ) && final(self)@ == old(self)@,
            },
    {
        self.insert_row(id, WorkspaceNodeKind::Folder, parent_uuid, None, display_name, now)
    }

    /// Creates the note reference `id` to `atom_uuid` under `parent_uuid`,
    /// stamped `now`, behind its siblings. The engine refuses what it refuses
    /// of a folder; the atom is not looked at.
    pub fn create_note_ref_with(
        &mut self,
        id: WorkspaceNodeId,
        now: i64,
        parent_uuid: Option<WorkspaceNodeId>,
        atom_uuid: AtomId,
        display_name: &str,
    ) -> (r: Result<WorkspaceNode, TreeRepoError>)
        requires
            old(self).well_formed(),
        ensures
            final(self).well_formed(),
            match r {
                Ok(node) => old(self)@.insertable(id, parent_uuid) && node@ == old(self)@.new_row(
                    id,
                    WorkspaceNodeKind::NoteRef,
                    parent_uuid,
                    Some(atom_uuid),
                    display_name@,
                    now,
                ) && final(self)@ == old(self)@.with_node(node@),
                Err(e) => old(self)@.insert_refusal(id, parent_uuid) is Some && e == refused(
                    old(self)@.insert_refusal(id, parent_uuid)->0,
                ) && final(self)@ == old(self)@,
            },
    {
        self.insert_row(
            id,
            WorkspaceNodeKind::NoteRef,
            parent_uuid,
            Some(atom_uuid),
            display_name,
            now,
        )
    }

    /// Renames node `node_uuid` at time `now`. A node that is absent or
    /// tombstoned is not found.
    pub fn rename_node_at(&mut self, node_uuid: WorkspaceNodeId, display_name: &str, now: i64) -> (r:
        Result<(), TreeRepoError>)
        requires
            old(self).well_formed(),
        ensures
            final(self).well_formed(),
            match r {
                Ok(()) => old(self)@.active_node(node_uuid) && final(self)@ == old(self)@.after_rename(
                    node_uuid,
                    display_name@,
                    now,
                ),
                Err(e) => !old(self)@.active_node(node_uuid) && e == TreeRepoError::NodeNotFound(
                    node_uuid,
                ) && final(self)@ == old(self)@,
            },
    {
        let i = match self.find_node(node_uuid) {
            Some(i) => i,
            None => {
                return Err(TreeRepoError::NodeNotFound(node_uuid));
            },
        };
        if self.nodes[i].is_deleted {
            return Err(TreeRepoError::NodeNotFound(node_uuid));
        }
        let mut row = self.nodes[i].duplicate();
        row.display_name = display_name.to_owned();
        row.updated_at = now;
        self.nodes.set(i, row);
        proof {
            let s = old(self)@;
            let t = s.after_rename(node_uuid, display_name@, now);
            assert forall|j: int| 0 <= j < s.nodes.len() implies #[trigger] self@.nodes[j] == t.nodes[j] by {
                if j != i {
                    assert(s.nodes[j].node_uuid != s.nodes[i as int].node_uuid);
                }
            }
            assert(self@.nodes =~= t.nodes);
            assert forall|j: int| 0 <= j < s.nodes.len() implies (#[trigger] t.nodes[j]).parent_uuid
                == s.nodes[j].parent_uuid by {}
            lemma_same_shape(s, t);
        }
        Ok(())
    }

    /// The ids of the rows at `idx`, in that order.
    fn ids_at(&self, idx: &Vec<usize>) -> (ids: Vec<WorkspaceNodeId>)
        requires
            forall|k: int| 0 <= k < idx.len() ==> #[trigger] idx[k] < self.nodes.len(),
        ensures
            ids@ == ids_of(self@.picked(idx@)),
    {
        let mut ids: Vec<WorkspaceNodeId> = Vec::new();
        let mut k: usize = 0;
        while k < idx.len()
            invariant
                k <= idx.len(),
                ids.len() == k,
                forall|j: int| 0 <= j < idx.len() ==> #[trigger] idx[j] < self.nodes.len(),
                forall|j: int| 0 <= j < k ==> #[trigger] ids[j] == self@.nodes[idx[j] as int].node_uuid,
            decreases idx.len() - k,
        {
            ids.push(self.nodes[idx[k]].node_uuid);
            k += 1;
        }
        assert(ids@ =~= ids_of(self@.picked(idx@)));
        ids
    }

    /// Moves node `node_uuid` under `new_parent_uuid` at time `now`: the
    /// node goes to the index `target_order` among the visible children
    /// there, clamped into their range, or to their end; all of them are
    /// numbered anew from 0. A node that is not visible is not found; a new
    /// parent that names no row is refused by the engine.
    pub fn move_node_at(
        &mut self,
        node_uuid: WorkspaceNodeId,
        new_parent_uuid: Option<WorkspaceNodeId>,
        target_order: Option<i64>,
        now: i64,
    ) -> (r: Result<(), TreeRepoError>)
        requires
            old(self).well_formed(),
        ensures
            final(self).well_formed(),
            match r {
                Ok(()) => move_refusal(old(self)@, node_uuid, new_parent_uuid) is None && final(self)@
                    == old(self)@.after_move(node_uuid, new_parent_uuid, target_order, now),
                Err(e) => Some(e) == move_refusal(old(self)@, node_uuid, new_parent_uuid)
                    && final(self)@ == old(self)@,
            },
    {
        let i = match self.find_node(node_uuid) {
            Some(i) => i,
            None => {
                return Err(TreeRepoError::NodeNotFound(node_uuid));
            },
        };
        if !self.shows(&self.nodes[i]) {
            return Err(TreeRepoError::NodeNotFound(node_uuid));
        }
        if let Some(p) = new_parent_uuid {
            if self.find_node(p).is_none() {
                return Err(TreeRepoError::Db(DbError::Sqlite(SqliteFailure::ForeignKeyConstraint)));
            }
        }
        let idx = self.select(ChildFilter::Visible, new_parent_uuid);
        let siblings = self.ids_at(&idx);
        let mut order = without(&siblings, node_uuid);
        let at = target_index(order.len(), target_order);
        order.insert(at, node_uuid);
        proof {
            lemma_move_order(self@, node_uuid, new_parent_uuid, target_order);
            assert(order@ == self@.move_order(node_uuid, new_parent_uuid, target_order));
        }
        let mut rows: Vec<WorkspaceNode> = Vec::new();
        let mut j: usize = 0;
        while j < self.nodes.len()
            invariant
                j <= self.nodes.len(),
                rows.len() == j,
                order@.no_duplicates(),
                forall|m: int|
                    0 <= m < j ==> (#[trigger] rows[m])@ == placed(
                        self@.nodes[m],
                        order@,
                        node_uuid,
                        new_parent_uuid,
                        now,
                    ),
            decreases self.nodes.len() - j,
        {
            let mut row = self.nodes[j].duplicate();
            match position(&order, row.node_uuid) {
                Some(k) => {
                    assert(order@.contains(row.node_uuid));
                    assert(order@.index_of(row.node_uuid) == k);
                    if row.node_uuid == node_uuid {
                        row.parent_uuid = new_parent_uuid;
                    }
                    row.sort_order = k as i64;
                    row.updated_at = now;
                },
                None => {},
            }
            rows.push(row);
            j += 1;
        }
        self.nodes = rows;
        proof {
            let s = old(self)@;
            let t = s.after_move(node_uuid, new_parent_uuid, target_order, now);
            assert(self@.nodes =~= t.nodes);
            assert forall|m: int| 0 <= m < s.nodes.len() implies (#[trigger] t.nodes[m]).parent_uuid
                is Some ==> s.has_node(t.nodes[m].parent_uuid->0) by {
                assert(s.nodes[m].parent_uuid is Some ==> s.has_node(s.nodes[m].parent_uuid->0));
            }
            lemma_same_shape(s, t);
        }
        Ok(())
    }

    /// The index of `folder` if it is a folder without a tombstone.
    fn active_folder_index(&self, folder: WorkspaceNodeId) -> (r: Result<usize, TreeRepoError>)
        requires
            self@.wf(),
        ensures
            match r {
                Ok(i) => folder_refusal(self@, folder) is None && i < self.nodes.len() && self@.index_of(
                    folder,
                ) == i,
                Err(e) => Some(e) == folder_refusal(self@, folder),
            },
    {
        let i = match self.find_node(folder) {
            Some(i) => i,
            None => {
                return Err(TreeRepoError::NodeNotFound(folder));
            },
        };
        if self.nodes[i].is_deleted {
            return Err(TreeRepoError::NodeNotFound(folder));
        }
        match self.nodes[i].kind {
            WorkspaceNodeKind::Folder => Ok(i),
            WorkspaceNodeKind::NoteRef => Err(TreeRepoError::NodeNotFolder(folder)),
        }
    }

    /// Deletes folder `folder_uuid` at time `now` by dissolving it: its
    /// direct children without a tombstone go to the root level, in their
    /// order, behind the nodes that are there; the folder gets its tombstone.
    /// What lies below the children stays where it is.
    pub fn delete_folder_dissolve_at(&mut self, folder_uuid: WorkspaceNodeId, now: i64) -> (r: Result<
        (),
        TreeRepoError,
    >)
        requires
            old(self).well_formed(),
        ensures
            final(self).well_formed(),
            match r {
                Ok(()) => dissolve_refusal(old(self)@, folder_uuid) is None
                    && final(self)@ == old(self)@.after_dissolve(folder_uuid, now),
                Err(e) => Some(e) == dissolve_refusal(old(self)@, folder_uuid)
                    && final(self)@ == old(self)@,
            },
    {
        match self.active_folder_index(folder_uuid) {
            Ok(_) => {},
            Err(e) => {
                return Err(e);
            },
        }
        let idx = self.select(ChildFilter::Active, Some(folder_uuid));
        let children = self.ids_at(&idx);
        proof {
            let rows = self@.children(ChildFilter::Active, Some(folder_uuid));
            lemma_listing_ids(self@, ChildFilter::Active, Some(folder_uuid), rows);
            assert forall|k: int| 0 <= k < children@.len() implies self@.has_node(
                #[trigger] children@[k],
            ) by {
                assert(rows[k].node_uuid == children@[k]);
            }
            lemma_ids_fit(self@, children@);
        }
        let base = match self.next_order(None) {
            Some(b) => b,
            None => {
                return Err(TreeRepoError::Db(DbError::Sqlite(SqliteFailure::IntegerOverflow)));
            },
        };
        if base as i128 + children.len() as i128 > 0x7fff_ffff_ffff_ffffi128 + 1 {
            return Err(TreeRepoError::Db(DbError::Sqlite(SqliteFailure::IntegerOverflow)));
        }
        let mut rows: Vec<WorkspaceNode> = Vec::new();
        let mut j: usize = 0;
        while j < self.nodes.len()
            invariant
                j <= self.nodes.len(),
                rows.len() == j,
                children@.no_duplicates(),
                children@.len() <= i64::MAX,
                base as int + children@.len() <= i64::MAX + 1,
                forall|m: int|
                    0 <= m < j ==> (#[trigger] rows[m])@ == dissolved(
                        self@.nodes[m],
                        children@,
                        folder_uuid,
                        base as int,
                        now,
                    ),
            decreases self.nodes.len() - j,
        {
            let mut row = self.nodes[j].duplicate();
            match position(&children, row.node_uuid) {
                Some(k) => {
                    assert(children@.contains(row.node_uuid));
                    assert(children@.index_of(row.node_uuid) == k);
                    row.parent_uuid = None;
                    row.sort_order = (base as i128 + k as i128) as i64;
                    row.updated_at = now;
                },
                None => {},
            }
            if row.node_uuid == folder_uuid {
                row.is_deleted = true;
                row.updated_at = now;
            }
            rows.push(row);
            j += 1;
        }
        self.nodes = rows;
        proof {
            let s = old(self)@;
            let t = s.after_dissolve(folder_uuid, now);
            assert(self@.nodes =~= t.nodes);
            assert forall|m: int| 0 <= m < s.nodes.len() implies (#[trigger] t.nodes[m]).parent_uuid
                is Some ==> s.has_node(t.nodes[m].parent_uuid->0) by {
                assert(s.nodes[m].parent_uuid is Some ==> s.has_node(s.nodes[m].parent_uuid->0));
            }
            lemma_same_shape(s, t);
        }
        Ok(())
    }

    /// For each row, whether it lies in the subtree of the row at `root_index`.
    fn subtree_marks(&self, root_index: usize) -> (marks: Vec<bool>)
        requires
            self@.wf(),
            root_index < self.nodes.len(),
            !self.nodes[root_index as int].is_deleted,
        ensures
            marks.len() == self.nodes.len(),
            forall|i: int|
                0 <= i < marks.len() ==> #[trigger] marks[i] == self@.in_subtree(
                    self@.nodes[root_index as int].node_uuid,
                    self@.nodes[i].node_uuid,
                ),
    {
        let n = self.nodes.len();
        let ghost s = self@;
        let ghost root = s.nodes[root_index as int].node_uuid;
        let mut marks: Vec<bool> = Vec::new();
        let mut i: usize = 0;
        while i < n
            invariant
                i <= n,
                marks.len() == i,
                forall|j: int| 0 <= j < i ==> !(#[trigger] marks[j]),
            decreases n - i,
        {
            marks.push(false);
            i += 1;
        }
        marks.set(root_index, true);
        let ghost mut marked: Set<int> = Set::empty().insert(root_index as int);
        proof {
            lemma_node_at(s, root_index as int);
            assert(s.ancestor(root, 0) == Some(root));
            assert(s.in_subtree(root, root));
        }
        let mut changed = true;
        while changed
            invariant
                n == self.nodes.len(),
                s == self@,
                s.wf(),
                root_index < n,
                root == s.nodes[root_index as int].node_uuid,
                marks[root_index as int],
                marks_sound(s, root, marks@),
                !changed ==> marks_closed(s, marks@, n as int),
                marked.finite(),
                forall|j: int| marked.contains(j) <==> (0 <= j < n && marks[j]),
                marked.len() <= n,
            decreases n - marked.len() + (if changed { 1int } else { 0int }),
        {
            changed = false;
            let ghost start = marks@;
            let ghost start_marked = marked;
            let mut i: usize = 0;
            while i < n
                invariant
                    i <= n,
                    n == self.nodes.len(),
                    s == self@,
                    s.wf(),
                    root_index < n,
                    root == s.nodes[root_index as int].node_uuid,
                    marks[root_index as int],
                    marks_sound(s, root, marks@),
                    !changed ==> marks@ == start && marked == start_marked && marks_closed(
                        s,
                        marks@,
                        i as int,
                    ),
                    changed ==> marked.len() > start_marked.len(),
                    marked.finite(),
                    forall|j: int| marked.contains(j) <==> (0 <= j < n && marks[j]),
                decreases n - i,
            {
                if !marks[i] && !self.nodes[i].is_deleted {
                    if let Some(p) = self.nodes[i].parent_uuid {
                        if let Some(pi) = self.find_node(p) {
                            if marks[pi] {
                                proof {
                                    lemma_node_at(s, pi as int);
                                    lemma_child_in_subtree(s, root, i as int);
                                    assert(!marked.contains(i as int));
                                }
                                marks.set(i, true);
                                proof {
                                    marked = marked.insert(i as int);
                                }
                                changed = true;
                            }
                        }
                    }
                }
                i += 1;
            }
            proof {
                assert(marked.subset_of(set_int_range(0, n as int)));
                lemma_int_range(0, n as int);
                lemma_len_subset(marked, set_int_range(0, n as int));
            }
        }
        proof {
            assert forall|i: int| 0 <= i < marks.len() implies #[trigger] marks[i] == s.in_subtree(
                root,
                s.nodes[i].node_uuid,
            ) by {
                if s.in_subtree(root, s.nodes[i].node_uuid) {
                    let k = choose|k: nat| #[trigger] s.ancestor(s.nodes[i].node_uuid, k) == Some(root);
                    lemma_marks_complete(s, root, marks@, s.nodes[i].node_uuid, k);
                    lemma_node_at(s, i);
                }
            }
        }
        marks
    }

    /// Whether a marked note reference points at `atom`.
    fn marked_reference(&self, marks: &Vec<bool>, atom: AtomId) -> (r: bool)
        requires
            marks.len() == self.nodes.len(),
        ensures
            r == exists|i: int|
                0 <= i < self@.nodes.len() && marks[i] && (#[trigger] self@.nodes[i]).kind
                    == WorkspaceNodeKind::NoteRef && self@.nodes[i].atom_uuid == Some(atom),
    {
        let mut i: usize = 0;
        while i < self.nodes.len()
            invariant
                i <= self.nodes.len(),
                marks.len() == self.nodes.len(),
                forall|j: int|
                    0 <= j < i ==> !(marks[j] && (#[trigger] self@.nodes[j]).kind
                        == WorkspaceNodeKind::NoteRef && self@.nodes[j].atom_uuid == Some(atom)),
            decreases self.nodes.len() - i,
        {
            let hit = match (self.nodes[i].kind, self.nodes[i].atom_uuid) {
                (WorkspaceNodeKind::NoteRef, Some(a)) => marks[i] && a == atom,
                _ => false,
            };
            if hit {
                assert(marks[i as int] && self@.nodes[i as int].kind == WorkspaceNodeKind::NoteRef
                    && self@.nodes[i as int].atom_uuid == Some(atom));
                return true;
            }
            i += 1;
        }
        false
    }

    /// Deletes folder `folder_uuid` at time `now` with all that lies below
    /// it: every node of the subtree gets its tombstone, and an active note
    /// that the subtree pointed at is soft-deleted unless a note reference
    /// outside the subtree still points at it.
    pub fn delete_folder_delete_all_at(&mut self, folder_uuid: WorkspaceNodeId, now: i64) -> (r:
        Result<(), TreeRepoError>)
        requires
            old(self).well_formed(),
        ensures
            final(self).well_formed(),
            match r {
                Ok(()) => folder_refusal(old(self)@, folder_uuid) is None
                    && final(self)@ == old(self)@.after_delete_all(folder_uuid, now),
                Err(e) => Some(e) == folder_refusal(old(self)@, folder_uuid)
                    && final(self)@ == old(self)@,
            },
    {
        let root_index = match self.active_folder_index(folder_uuid) {
            Ok(i) => i,
            Err(e) => {
                return Err(e);
            },
        };
        let ghost s = self@;
        proof {
            lemma_node_index(s, folder_uuid);
        }
        let marks = self.subtree_marks(root_index);
        let mut atoms: Vec<AtomRow> = Vec::new();
        let mut q: usize = 0;
        while q < self.atoms.len()
            invariant
                q <= self.atoms.len(),
                atoms.len() == q,
                s == self@,
                marks.len() == self.nodes.len(),
                forall|i: int|
                    0 <= i < marks.len() ==> #[trigger] marks[i] == s.in_subtree(
                        folder_uuid,
                        s.nodes[i].node_uuid,
                    ),
                forall|m: int|
                    0 <= m < q ==> #[trigger] atoms[m] == s.after_delete_all(folder_uuid, now).atoms[m],
            decreases self.atoms.len() - q,
        {
            let atom = self.atoms[q];
            let below = self.marked_reference(&marks, atom.uuid);
            let mut kept = false;
            let mut i: usize = 0;
            while i < self.nodes.len()
                invariant
                    i <= self.nodes.len(),
                    s == self@,
                    marks.len() == self.nodes.len(),
                    kept ==> exists|j: int|
                        0 <= j < i && !marks[j] && !(#[trigger] s.nodes[j]).is_deleted && s.nodes[j].kind
                            == WorkspaceNodeKind::NoteRef && s.nodes[j].atom_uuid == Some(atom.uuid),
                    !kept ==> forall|j: int|
                        0 <= j < i ==> !(!marks[j] && !(#[trigger] s.nodes[j]).is_deleted
                            && s.nodes[j].kind == WorkspaceNodeKind::NoteRef && s.nodes[j].atom_uuid
                            == Some(atom.uuid)),
                decreases self.nodes.len() - i,
            {
                let hit = match (self.nodes[i].kind, self.nodes[i].atom_uuid) {
                    (WorkspaceNodeKind::NoteRef, Some(a)) => !marks[i] && !self.nodes[i].is_deleted
                        && a == atom.uuid,
                    _ => false,
                };
                if hit {
                    assert(!marks[i as int] && !s.nodes[i as int].is_deleted && s.nodes[i as int].kind
                        == WorkspaceNodeKind::NoteRef && s.nodes[i as int].atom_uuid == Some(
                        atom.uuid,
                    ));
                    kept = true;
                }
                i += 1;
            }
            let gone = below && !kept && !atom.is_deleted && match atom.kind {
                AtomType::Note => true,
                _ => false,
            };
            proof {
                let rest = TreeState { nodes: s.subtree_tombstoned(folder_uuid, now), atoms: s.atoms };
                if rest.referenced(atom.uuid) {
                    let j = choose|j: int|
                        0 <= j < rest.nodes.len() && !(#[trigger] rest.nodes[j]).is_deleted
                            && rest.nodes[j].kind == WorkspaceNodeKind::NoteRef && rest.nodes[j].atom_uuid
                            == Some(atom.uuid);
                    assert(!s.in_subtree(folder_uuid, s.nodes[j].node_uuid));
                    assert(!marks[j] && !s.nodes[j].is_deleted);
                }
                if kept {
                    let j = choose|j: int|
                        0 <= j < s.nodes.len() && !marks[j] && !(#[trigger] s.nodes[j]).is_deleted
                            && s.nodes[j].kind == WorkspaceNodeKind::NoteRef && s.nodes[j].atom_uuid
                            == Some(atom.uuid);
                    assert(!rest.nodes[j].is_deleted);
                }
                assert(kept == rest.referenced(atom.uuid));
                if s.referenced_below(folder_uuid, atom.uuid) {
                    let j = choose|j: int|
                        0 <= j < s.nodes.len() && s.in_subtree(
                            folder_uuid,
                            (#[trigger] s.nodes[j]).node_uuid,
                        ) && s.nodes[j].kind == WorkspaceNodeKind::NoteRef && s.nodes[j].atom_uuid
                            == Some(atom.uuid);
                    assert(marks[j]);
                }
                if below {
                    let j = choose|j: int|
                        0 <= j < s.nodes.len() && marks[j] && (#[trigger] s.nodes[j]).kind
                            == WorkspaceNodeKind::NoteRef && s.nodes[j].atom_uuid == Some(atom.uuid);
                    assert(s.in_subtree(folder_uuid, s.nodes[j].node_uuid));
                }
                assert(below == s.referenced_below(folder_uuid, atom.uuid));
            }
            atoms.push(AtomRow { uuid: atom.uuid, kind: atom.kind, is_deleted: atom.is_deleted || gone });
            q += 1;
        }
        let mut rows: Vec<WorkspaceNode> = Vec::new();
        let mut j: usize = 0;
        while j < self.nodes.len()
            invariant
                j <= self.nodes.len(),
                rows.len() == j,
                s == self@,
                marks.len() == self.nodes.len(),
                forall|i: int|
                    0 <= i < marks.len() ==> #[trigger] marks[i] == s.in_subtree(
                        folder_uuid,
                        s.nodes[i].node_uuid,
                    ),
                forall|m: int|
                    0 <= m < j ==> (#[trigger] rows[m])@ == s.subtree_tombstoned(folder_uuid, now)[m],
            decreases self.nodes.len() - j,
        {
            let mut row = self.nodes[j].duplicate();
            if marks[j] {
                row.is_deleted = true;
                row.updated_at = now;
            }
            rows.push(row);
            j += 1;
        }
        self.nodes = rows;
        self.atoms = atoms;
        proof {
            let t = s.after_delete_all(folder_uuid, now);
            assert(self@.nodes =~= t.nodes);
            assert(self@.atoms =~= t.atoms);
            assert forall|a: int, b: int|
                0 <= a < t.atoms.len() && 0 <= b < t.atoms.len() && (#[trigger] t.atoms[a]).uuid == (
                #[trigger] t.atoms[b]).uuid implies a == b by {
                assert(s.atoms[a].uuid == s.atoms[b].uuid);
            }
            assert forall|m: int| 0 <= m < s.nodes.len() implies (#[trigger] t.nodes[m]).parent_uuid
                is Some ==> s.has_node(t.nodes[m].parent_uuid->0) by {
                assert(s.nodes[m].parent_uuid is Some ==> s.has_node(s.nodes[m].parent_uuid->0));
            }
            lemma_same_shape(s, t);
        }
        Ok(())
    }
}

impl MemoryTreeRepository {
    fn nodes_unique(&self) -> (r: bool)
        ensures
            r == self@.unique_nodes(),
    {
        let mut i: usize = 0;
        while i < self.nodes.len()
            invariant
                i <= self.nodes.len(),
                forall|a: int, b: int|
                    0 <= a < i && 0 <= b < i && (#[trigger] self@.nodes[a]).node_uuid == (
                    #[trigger] self@.nodes[b]).node_uuid ==> a == b,
            decreases self.nodes.len() - i,
        {
            let mut j: usize = 0;
            while j < i
                invariant
                    j <= i,
                    i < self.nodes.len(),
                    forall|b: int|
                        0 <= b < j ==> (#[trigger] self@.nodes[b]).node_uuid
                            != self@.nodes[i as int].node_uuid,
                decreases i - j,
            {
                if self.nodes[j].node_uuid == self.nodes[i].node_uuid {
                    assert(self@.nodes[j as int].node_uuid == self@.nodes[i as int].node_uuid);
                    return false;
                }
                j += 1;
            }
            i += 1;
        }
        true
    }

    fn atoms_unique(&self) -> (r: bool)
        ensures
            r == self@.unique_atoms(),
    {
        let mut i: usize = 0;
        while i < self.atoms.len()
            invariant
                i <= self.atoms.len(),
                forall|a: int, b: int|
                    0 <= a < i && 0 <= b < i && (#[trigger] self@.atoms[a]).uuid == (
                    #[trigger] self@.atoms[b]).uuid ==> a == b,
            decreases self.atoms.len() - i,
        {
            let mut j: usize = 0;
            while j < i
                invariant
                    j <= i,
                    i < self.atoms.len(),
                    forall|b: int|
                        0 <= b < j ==> (#[trigger] self@.atoms[b]).uuid != self@.atoms[i as int].uuid,
                decreases i - j,
            {
                if self.atoms[j].uuid == self.atoms[i].uuid {
                    assert(self@.atoms[j as int].uuid == self@.atoms[i as int].uuid);
                    return false;
                }
                j += 1;
            }
            i += 1;
        }
        true
    }

    /// Whether the rows are such as the engine keeps them, ids apart being given.
    fn rows_in_order(&self) -> (r: bool)
        requires
            self@.unique_nodes(),
            self@.unique_atoms(),
        ensures
            r == self@.wf(),
    {
        if self.nodes.len() as u64 > 0x7fff_ffff_ffff_ffffu64 {
            return false;
        }
        let mut i: usize = 0;
        while i < self.nodes.len()
            invariant
                i <= self.nodes.len(),
                self@.unique_nodes(),
                forall|j: int|
                    0 <= j < i ==> ((#[trigger] self@.nodes[j]).kind == WorkspaceNodeKind::Folder
                        <==> self@.nodes[j].atom_uuid is None),
                forall|j: int|
                    0 <= j < i && (#[trigger] self@.nodes[j]).parent_uuid is Some ==> self@.has_node(
                        self@.nodes[j].parent_uuid->0,
                    ),
            decreases self.nodes.len() - i,
        {
            let folder = match self.nodes[i].kind {
                WorkspaceNodeKind::Folder => true,
                WorkspaceNodeKind::NoteRef => false,
            };
            if folder != self.nodes[i].atom_uuid.is_none() {
                assert(!(self@.nodes[i as int].kind == WorkspaceNodeKind::Folder
                    <==> self@.nodes[i as int].atom_uuid is None));
                return false;
            }
            if let Some(p) = self.nodes[i].parent_uuid {
                if self.find_node(p).is_none() {
                    assert(self@.nodes[i as int].parent_uuid is Some && !self@.has_node(
                        self@.nodes[i as int].parent_uuid->0,
                    ));
                    return false;
                }
            }
            i += 1;
        }
        true
    }

    /// Takes the rows of the two tables as the tables of a repository,
    /// if they are such as the engine keeps them.
    pub fn from_rows(nodes: Vec<WorkspaceNode>, atoms: Vec<AtomRow>) -> (r: Result<Self, TreeRepoError>)
        ensures
            match r {
                Ok(repo) => repo@ == (TreeState { nodes: rows_of(nodes@), atoms: atoms@ })
                    && repo.well_formed(),
                Err(e) => !(TreeState { nodes: rows_of(nodes@), atoms: atoms@ }).wf() && e is InvalidData,
            },
    {
        let repo = MemoryTreeRepository { nodes, atoms };
        if !repo.nodes_unique() {
            return Err(TreeRepoError::InvalidData("workspace_nodes.node_uuid is not unique".to_owned()));
        }
        if !repo.atoms_unique() {
            return Err(TreeRepoError::InvalidData("atoms.uuid is not unique".to_owned()));
        }
        if !repo.rows_in_order() {
            return Err(TreeRepoError::InvalidData("workspace_nodes rows break a constraint".to_owned()));
        }
        Ok(repo)
    }

    /// The rows of the node table.
    pub fn rows(&self) -> (r: Vec<WorkspaceNode>)
        ensures
            rows_of(r@) == self@.nodes,
    {
        let mut out: Vec<WorkspaceNode> = Vec::new();
        let mut i: usize = 0;
        while i < self.nodes.len()
            invariant
                i <= self.nodes.len(),
                out.len() == i,
                forall|j: int| 0 <= j < i ==> (#[trigger] out[j])@ == self@.nodes[j],
            decreases self.nodes.len() - i,
        {
            out.push(self.nodes[i].duplicate());
            i += 1;
        }
        assert(rows_of(out@) =~= self@.nodes);
        out
    }

    /// What is recorded of the atoms.
    pub fn atom_rows(&self) -> (r: Vec<AtomRow>)
        ensures
            r@ == self@.atoms,
    {
        let mut out: Vec<AtomRow> = Vec::new();
        let mut i: usize = 0;
        while i < self.atoms.len()
            invariant
                i <= self.atoms.len(),
                out.len() == i,
                forall|j: int| 0 <= j < i ==> #[trigger] out[j] == self@.atoms[j],
            decreases self.atoms.len() - i,
        {
            out.push(self.atoms[i]);
            i += 1;
        }
        assert(out@ =~= self@.atoms);
        out
    }

    /// The parent link of node `id`.
    fn parent_link(&self, id: WorkspaceNodeId) -> (r: Option<WorkspaceNodeId>)
        requires
            self@.unique_nodes(),
        ensures
            r == self@.parent_of(id),
    {
        match self.find_node(id) {
            Some(i) => {
                if self.nodes[i].is_deleted {
                    None
                } else {
                    self.nodes[i].parent_uuid
                }
            },
            None => None,
        }
    }

    fn folders_as_parents(&self) -> (r: bool)
        requires
            self@.unique_nodes(),
        ensures
            r == self@.parents_are_folders(),
    {
        let mut i: usize = 0;
        while i < self.nodes.len()
            invariant
                i <= self.nodes.len(),
                self@.unique_nodes(),
                forall|j: int|
                    0 <= j < i && !(#[trigger] self@.nodes[j]).is_deleted && self@.nodes[j].parent_uuid
                        is Some ==> self@.active_folder(self@.nodes[j].parent_uuid->0),
            decreases self.nodes.len() - i,
        {
            if !self.nodes[i].is_deleted {
                if let Some(p) = self.nodes[i].parent_uuid {
                    let fine = match self.find_node(p) {
                        Some(pi) => !self.nodes[pi].is_deleted && match self.nodes[pi].kind {
                            WorkspaceNodeKind::Folder => true,
                            WorkspaceNodeKind::NoteRef => false,
                        },
                        None => false,
                    };
                    if !fine {
                        assert(!self@.nodes[i as int].is_deleted && self@.nodes[i as int].parent_uuid
                            is Some && !self@.active_folder(self@.nodes[i as int].parent_uuid->0));
                        return false;
                    }
                }
            }
            i += 1;
        }
        true
    }

    fn free_of_cycles(&self) -> (r: bool)
        requires
            self@.wf(),
        ensures
            r == self@.acyclic(),
    {
        let ghost s = self@;
        let n = self.nodes.len();
        let mut i: usize = 0;
        while i < n
            invariant
                i <= n,
                n == self.nodes.len(),
                s == self@,
                s.wf(),
                forall|j: int, k: nat|
                    0 <= j < i && k >= 1 ==> #[trigger] s.ancestor(s.nodes[j].node_uuid, k) != Some(
                        s.nodes[j].node_uuid,
                    ),
            decreases n - i,
        {
            let x = self.nodes[i].node_uuid;
            proof {
                lemma_node_at(s, i as int);
            }
            let mut cursor = self.parent_link(x);
            let mut steps: usize = 1;
            assert(s.ancestor(x, 1) == match s.parent_of(x) {
                Some(p) => s.ancestor(p, 0),
                None => None,
            });
            let mut ended = false;
            while !ended
                invariant
                    1 <= steps <= n,
                    n == self.nodes.len(),
                    s == self@,
                    s.wf(),
                    s.has_node(x),
                    cursor == s.ancestor(x, steps as nat),
                    forall|k: nat| 1 <= k < steps ==> #[trigger] s.ancestor(x, k) != Some(x),
                    ended ==> forall|k: nat| k >= 1 ==> #[trigger] s.ancestor(x, k) != Some(x),
                decreases n - steps + (if ended { 0int } else { 1int }),
            {
                match cursor {
                    None => {
                        proof {
                            assert forall|k: nat| k >= 1 implies #[trigger] s.ancestor(x, k) != Some(x) by {
                                if k >= steps {
                                    lemma_ancestor_ends(s, x, steps as nat, k);
                                }
                            }
                        }
                        ended = true;
                    },
                    Some(current) => {
                        if current == x {
                            return false;
                        }
                        if steps == n {
                            proof {
                                assert forall|k: nat| k >= 1 implies #[trigger] s.ancestor(x, k) != Some(
                                    x,
                                ) by {
                                    if s.ancestor(x, k) == Some(x) {
                                        lemma_short_return(s, x, k);
                                    }
                                }
                            }
                            ended = true;
                        } else {
                            proof {
                                lemma_ancestor_step(s, x, steps as nat);
                            }
                            cursor = self.parent_link(current);
                            steps += 1;
                        }
                    },
                }
            }
            i += 1;
        }
        proof {
            assert forall|x: u128, k: nat| k >= 1 implies #[trigger] s.ancestor(x, k) != Some(x) by {
                if s.has_node(x) {
                    let j = s.index_of(x);
                    assert(s.nodes[j].node_uuid == x);
                } else {
                    assert(s.parent_of(x) is None);
                }
            }
        }
        true
    }

    /// Whether every display name is trimmed and not blank.
    pub fn names_are_kept(&self) -> (r: bool)
        ensures
            r == self@.names_kept(),
    {
        let mut i: usize = 0;
        while i < self.nodes.len()
            invariant
                i <= self.nodes.len(),
                forall|j: int| 0 <= j < i ==> name_kept((#[trigger] self@.nodes[j]).display_name),
            decreases self.nodes.len() - i,
        {
            let name = self.nodes[i].display_name.as_str();
            let kept = trim(name);
            let fine = !kept.is_empty() && same_text(kept, name);
            if !fine {
                assert(!name_kept(self@.nodes[i as int].display_name));
                return false;
            }
            i += 1;
        }
        true
    }

    /// Whether the tree is consistent: no node is its own ancestor, and
    /// the parents of nodes without a tombstone are folders without one.
    pub fn is_consistent(&self) -> (r: bool)
        requires
            self.well_formed(),
        ensures
            r == self@.consistent(),
    {
        self.folders_as_parents() && self.free_of_cycles()
    }
}

/// The timestamp, in milliseconds, of a clock that reads `seconds` since
/// the epoch; the largest `i64` where that is beyond `i64`.
pub open spec fn millis_of(seconds: u64) -> i64 {
    if seconds > 9_223_372_036_854_775u64 {
        i64::MAX
    } else {
        (seconds * 1000) as i64
    }
}

/// The timestamp of a clock reading, in milliseconds at one-second resolution.
pub fn timestamp_millis(seconds: u64) -> (r: i64)
    ensures
        r == millis_of(seconds),
        r >= 0,
{
    if seconds > 9_223_372_036_854_775u64 {
        i64::MAX
    } else {
        (seconds * 1000) as i64
    }
}

/// The timestamp of now: the clock's reading as milliseconds at
/// one-second resolution, 0 where the clock stands before the epoch.
fn clock_millis() -> (r: i64)
    ensures
        r >= 0,
{
    let reading = system_now();
    match since_epoch(&reading) {
        Some(elapsed) => timestamp_millis(whole_seconds(&elapsed)),
        None => 0,
    }
}

impl TreeRepository for MemoryTreeRepository {
    open spec fn state(&self) -> TreeState {
        self@
    }

    open spec fn inv(&self) -> bool {
        self.well_formed()
    }

    open spec fn may_fail(&self) -> bool {
        false
    }

    proof fn tables_well_formed(&self) {
    }

    fn create_folder(&mut self, parent_uuid: Option<WorkspaceNodeId>, display_name: &str) -> (r:
        TreeRepoResult<WorkspaceNode>)
        ensures
            r is Err ==> exists|id: u128|
                #[trigger] old(self)@.insert_refusal(id, parent_uuid) is Some && r->Err_0 == refused(
                    old(self)@.insert_refusal(id, parent_uuid)->0,
                ),
    {
        let id = random_uuid();
        let now = clock_millis();
        self.create_folder_with(id, now, parent_uuid, display_name)
    }

    fn create_note_ref(
        &mut self,
        parent_uuid: Option<WorkspaceNodeId>,
        atom_uuid: AtomId,
        display_name: &str,
    ) -> (r: TreeRepoResult<WorkspaceNode>)
        ensures
            r is Err ==> exists|id: u128|
                #[trigger] old(self)@.insert_refusal(id, parent_uuid) is Some && r->Err_0 == refused(
                    old(self)@.insert_refusal(id, parent_uuid)->0,
                ),
    {
        let id = random_uuid();
        let now = clock_millis();
        self.create_note_ref_with(id, now, parent_uuid, atom_uuid, display_name)
    }

    fn get_node(&self, node_uuid: WorkspaceNodeId, include_deleted: bool) -> (r: TreeRepoResult<
        Option<WorkspaceNode>,
    >)
        ensures
            r is Ok,
    {
        Ok(self.lookup(node_uuid, include_deleted))
    }

    fn list_children(&self, parent_uuid: Option<WorkspaceNodeId>, include_deleted: bool) -> (r:
        TreeRepoResult<Vec<WorkspaceNode>>)
        ensures
            r is Ok,
    {
        Ok(self.listing(parent_uuid, include_deleted))
    }

    fn rename_node(&mut self, node_uuid: WorkspaceNodeId, display_name: &str) -> (r: TreeRepoResult<
        (),
    >) {
        let now = clock_millis();
        let r = self.rename_node_at(node_uuid, display_name, now);
        assert(r is Ok ==> self.state() == old(self).state().after_rename(node_uuid, display_name@, now));
        r
    }

    fn move_node(
        &mut self,
        node_uuid: WorkspaceNodeId,
        new_parent_uuid: Option<WorkspaceNodeId>,
        target_order: Option<i64>,
    ) -> (r: TreeRepoResult<()>) {
        let now = clock_millis();
        self.move_node_at(node_uuid, new_parent_uuid, target_order, now)
    }

    fn delete_folder_dissolve(&mut self, folder_uuid: WorkspaceNodeId) -> (r: TreeRepoResult<()>) {
        let now = clock_millis();
        self.delete_folder_dissolve_at(folder_uuid, now)
    }

    fn delete_folder_delete_all(&mut self, folder_uuid: WorkspaceNodeId) -> (r: TreeRepoResult<()>) {
        let now = clock_millis();
        self.delete_folder_delete_all_at(folder_uuid, now)
    }

    fn atom_kind(&self, atom_uuid: AtomId) -> (r: TreeRepoResult<Option<AtomType>>)
        ensures
            r is Ok,
    {
        Ok(self.active_kind(atom_uuid))
    }
}

/// One write to the node table.
#[derive(Debug, Clone, PartialEq, Eq)]
pub enum NodeWrite {
    /// A row whose id the table did not hold.
    Insert(WorkspaceNode),
    /// A row that takes the place of the row of its id.
    Update(WorkspaceNode),
}

/// A write with its row as the contracts see it.
pub enum NodeWriteView {
    Insert(NodeRow),
    Update(NodeRow),
}

impl View for NodeWrite {
    type V = NodeWriteView;

    open spec fn view(&self) -> NodeWriteView {
        match self {
            NodeWrite::Insert(row) => NodeWriteView::Insert(row@),
            NodeWrite::Update(row) => NodeWriteView::Update(row@),
        }
    }
}

/// The write that brings `row` into the tables `before`, if one is
/// needed: none where they hold the row as it is.
pub open spec fn write_for(before: TreeState, row: NodeRow) -> Option<NodeWriteView> {
    if !before.has_node(row.node_uuid) {
        Some(NodeWriteView::Insert(row))
    } else if before.node(row.node_uuid) == row {
        None
    } else {
        Some(NodeWriteView::Update(row))
    }
}

/// The writes that bring `rows` into the tables `before`, in the order
/// of the rows.
pub open spec fn writes_for(before: TreeState, rows: Seq<NodeRow>) -> Seq<NodeWriteView>
    decreases rows.len(),
{
    if rows.len() == 0 {
        Seq::empty()
    } else {
        let head = writes_for(before, rows.drop_last());
        match write_for(before, rows.last()) {
            Some(write) => head.push(write),
            None => head,
        }
    }
}

/// The writes as the contracts see them.
pub open spec fn write_views(writes: Seq<NodeWrite>) -> Seq<NodeWriteView> {
    writes.map_values(|w: NodeWrite| w@)
}

/// The atom `atom` is held by `before` with the other tombstone.
pub open spec fn tombstone_turned(before: TreeState, atom: AtomRow) -> bool {
    before.has_atom(atom.uuid) && before.atom(atom.uuid).is_deleted != atom.is_deleted
}

fn same_id(a: Option<u128>, b: Option<u128>) -> (r: bool)
    ensures
        r == (a == b),
{
    match (a, b) {
        (Some(x), Some(y)) => x == y,
        (None, None) => true,
        _ => false,
    }
}

fn same_row(a: &WorkspaceNode, b: &WorkspaceNode) -> (r: bool)
    ensures
        r == (a@ == b@),
{
    let same_kind = match (a.kind, b.kind) {
        (WorkspaceNodeKind::Folder, WorkspaceNodeKind::Folder) => true,
        (WorkspaceNodeKind::NoteRef, WorkspaceNodeKind::NoteRef) => true,
        _ => false,
    };
    a.node_uuid == b.node_uuid && same_kind && same_id(a.parent_uuid, b.parent_uuid) && same_id(
        a.atom_uuid,
        b.atom_uuid,
    ) && same_text(a.display_name.as_str(), b.display_name.as_str()) && a.sort_order == b.sort_order
        && a.is_deleted == b.is_deleted && a.created_at == b.created_at && a.updated_at == b.updated_at
}

impl MemoryTreeRepository {
    /// The writes that bring the node table of `before` to this one,
    /// where no row has left: in the order of the rows, an insert for
    /// each row whose id `before` does not hold, an update for each row
    /// that `before` holds otherwise, and nothing for a row that it holds
    /// as it is.
    pub fn node_writes_since(&self, before: &MemoryTreeRepository) -> (r: Vec<NodeWrite>)
        requires
            before.well_formed(),
        ensures
            write_views(r@) == writes_for(before@, self@.nodes),
    {
        let mut out: Vec<NodeWrite> = Vec::new();
        let mut i: usize = 0;
        assert(self@.nodes.take(0) =~= Seq::<NodeRow>::empty());
        assert(write_views(out@) =~= writes_for(before@, self@.nodes.take(0)));
        while i < self.nodes.len()
            invariant
                i <= self.nodes.len(),
                before.well_formed(),
                write_views(out@) == writes_for(before@, self@.nodes.take(i as int)),
            decreases self.nodes.len() - i,
        {
            let ghost done = write_views(out@);
            let ghost upto = self@.nodes.take(i as int + 1);
            proof {
                assert(upto.drop_last() =~= self@.nodes.take(i as int));
                assert(upto.last() == self@.nodes[i as int]);
            }
            match before.find_node(self.nodes[i].node_uuid) {
                None => {
                    out.push(NodeWrite::Insert(self.nodes[i].duplicate()));
                    assert(write_views(out@) =~= done.push(NodeWriteView::Insert(self@.nodes[i as int])));
                },
                Some(k) => {
                    if !same_row(&before.nodes[k], &self.nodes[i]) {
                        out.push(NodeWrite::Update(self.nodes[i].duplicate()));
                        assert(write_views(out@) =~= done.push(
                            NodeWriteView::Update(self@.nodes[i as int]),
                        ));
                    }
                },
            }
            i += 1;
        }
        assert(self@.nodes.take(i as int) =~= self@.nodes);
        out
    }

    /// The atoms of this table whose tombstone differs from the one that
    /// `before` holds for them, in the order of the table.
    pub fn atom_writes_since(&self, before: &MemoryTreeRepository) -> (r: Vec<AtomRow>)
        requires
            before.well_formed(),
        ensures
            r@ == self@.atoms.filter(|atom: AtomRow| tombstone_turned(before@, atom)),
    {
        let ghost turned = |atom: AtomRow| tombstone_turned(before@, atom);
        let mut out: Vec<AtomRow> = Vec::new();
        let mut i: usize = 0;
        proof {
            reveal(Seq::filter);
            assert(self@.atoms.take(0) =~= Seq::<AtomRow>::empty());
        }
        while i < self.atoms.len()
            invariant
                i <= self.atoms.len(),
                before.well_formed(),
                turned == |atom: AtomRow| tombstone_turned(before@, atom),
                out@ == self@.atoms.take(i as int).filter(turned),
            decreases self.atoms.len() - i,
        {
            proof {
                reveal(Seq::filter);
                assert(self@.atoms.take(i as int + 1).drop_last() =~= self@.atoms.take(i as int));
            }
            let atom = self.atoms[i];
            let changed = match before.find_atom(atom.uuid) {
                Some(k) => before.atoms[k].is_deleted != atom.is_deleted,
                None => false,
            };
            if changed {
                out.push(atom);
            }
            i += 1;
        }
        assert(self@.atoms.take(i as int) =~= self@.atoms);
        out
    }
}

} // verus!
