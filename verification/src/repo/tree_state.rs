//! The workspace tree as a mathematical value: rows, atoms, and what the
//! operations of the repository do to them.
//!
//! Everything here is ghost: it is what contracts speak of, and nothing of it
//! runs. A `TreeState` is the content of the two tables the tree lives in;
//! each operation of the repository is a function from one `TreeState` to
//! the next.

use vstd::prelude::*;
use crate::db::SqliteFailure;
use crate::model::atom::AtomType;
use crate::text::blank;
use crate::text::canonical;
use crate::text::lemma_edges_keep;

verus! {

/// Workspace tree node kind.
#[derive(Debug, Clone, Copy, PartialEq, Eq, Structural)]
pub enum WorkspaceNodeKind {
    /// Grouping node that can contain child nodes.
    Folder,
    /// Link node pointing to one note atom.
    NoteRef,
}

/// Which children of a parent a listing selects.
#[derive(Debug, Clone, Copy, PartialEq, Eq, Structural)]
pub enum ChildFilter {
    /// Every row, tombstoned or not.
    All,
    /// Rows that are not tombstoned.
    Active,
    /// Rows that are not tombstoned and, for a note reference, whose atom is
    /// an active note.
    Visible,
}

/// One row of the node table.
pub struct NodeRow {
    pub node_uuid: u128,
    pub kind: WorkspaceNodeKind,
    pub parent_uuid: Option<u128>,
    pub atom_uuid: Option<u128>,
    pub display_name: Seq<char>,
    pub sort_order: i64,
    pub is_deleted: bool,
    pub created_at: i64,
    pub updated_at: i64,
}

/// What the tree needs to know of one atom of the atom store.
#[derive(Debug, Clone, Copy, PartialEq, Eq, Structural)]
pub struct AtomRow {
    pub uuid: u128,
    pub kind: AtomType,
    pub is_deleted: bool,
}

/// The content of the node table and of the atom store.
pub struct TreeState {
    pub nodes: Seq<NodeRow>,
    pub atoms: Seq<AtomRow>,
}

/// The name that a note reference gets where none is given.
pub open spec fn default_note_name() -> Seq<char> {
    "Untitled note"@
}

/// A display name as the service stores it: trimmed and not blank.
pub open spec fn name_kept(name: Seq<char>) -> bool {
    !blank(name) && canonical(name)
}

/// The name that a note reference gets where none is given is a name to
/// store.
pub proof fn lemma_default_name_kept()
    ensures
        name_kept(default_note_name()),
{
    reveal_strlit("Untitled note");
    let name = default_note_name();
    assert(name.len() == 13);
    assert(name.first() == 'U');
    assert(name.last() == 'e');
    lemma_edges_keep(name);
}

/// Sibling order: by `sort_order`, ties broken by the node id.
pub open spec fn key_lt(a: NodeRow, b: NodeRow) -> bool {
    a.sort_order < b.sort_order || (a.sort_order == b.sort_order && a.node_uuid < b.node_uuid)
}

/// The ids of a sequence of rows, in the same order.
pub open spec fn ids_of(rows: Seq<NodeRow>) -> Seq<u128> {
    rows.map_values(|n: NodeRow| n.node_uuid)
}

/// The index a moved node lands on among `rest_len` other siblings: the end
/// when none is asked for, else the asked index clamped into `[0, rest_len]`.
pub open spec fn move_target(rest_len: int, target: Option<i64>) -> int {
    match target {
        None => rest_len,
        Some(t) => if t < 0 {
            0
        } else if t > rest_len {
            rest_len
        } else {
            t as int
        },
    }
}

/// The test "is not `id`".
pub open spec fn other_than(id: u128) -> spec_fn(u128) -> bool {
    |x: u128| x != id
}

/// The sibling order after a move: the visible siblings without the moved
/// node, with the moved node put in at its target index.
pub open spec fn reorder(siblings: Seq<u128>, id: u128, target: Option<i64>) -> Seq<u128> {
    let rest = siblings.filter(other_than(id));
    rest.insert(move_target(rest.len() as int, target), id)
}

/// A row after a move that leaves the siblings in `order`.
pub open spec fn placed(
    n: NodeRow,
    order: Seq<u128>,
    id: u128,
    new_parent: Option<u128>,
    now: i64,
) -> NodeRow {
    if order.contains(n.node_uuid) {
        NodeRow {
            parent_uuid: if n.node_uuid == id {
                new_parent
            } else {
                n.parent_uuid
            },
            sort_order: order.index_of(n.node_uuid) as i64,
            updated_at: now,
            ..n
        }
    } else {
        n
    }
}

/// A row after its folder `folder` was dissolved: a direct child goes to the
/// root level, behind the nodes that are there; the folder gets its tombstone.
pub open spec fn dissolved(
    n: NodeRow,
    children: Seq<u128>,
    folder: u128,
    base: int,
    now: i64,
) -> NodeRow {
    let lifted = if children.contains(n.node_uuid) {
        NodeRow {
            parent_uuid: None,
            sort_order: (base + children.index_of(n.node_uuid)) as i64,
            updated_at: now,
            ..n
        }
    } else {
        n
    };
    if n.node_uuid == folder {
        NodeRow { is_deleted: true, updated_at: now, ..lifted }
    } else {
        lifted
    }
}

impl TreeState {
    /// The empty tables.
    pub open spec fn empty() -> TreeState {
        TreeState { nodes: Seq::empty(), atoms: Seq::empty() }
    }

    pub open spec fn has_node(self, id: u128) -> bool {
        exists|i: int| 0 <= i < self.nodes.len() && (#[trigger] self.nodes[i]).node_uuid == id
    }

    pub open spec fn index_of(self, id: u128) -> int {
        choose|i: int| 0 <= i < self.nodes.len() && (#[trigger] self.nodes[i]).node_uuid == id
    }

    /// The row of node `id`; meaningful where `has_node(id)`.
    pub open spec fn node(self, id: u128) -> NodeRow {
        self.nodes[self.index_of(id)]
    }

    pub open spec fn has_atom(self, id: u128) -> bool {
        exists|i: int| 0 <= i < self.atoms.len() && (#[trigger] self.atoms[i]).uuid == id
    }

    pub open spec fn atom_index(self, id: u128) -> int {
        choose|i: int| 0 <= i < self.atoms.len() && (#[trigger] self.atoms[i]).uuid == id
    }

    pub open spec fn atom(self, id: u128) -> AtomRow {
        self.atoms[self.atom_index(id)]
    }

    /// The kind of atom `id`, if the atom store holds it and it is not
    /// soft-deleted.
    pub open spec fn atom_kind(self, id: u128) -> Option<AtomType> {
        if self.has_atom(id) && !self.atom(id).is_deleted {
            Some(self.atom(id).kind)
        } else {
            None
        }
    }

    /// The one visibility rule of every read path: not tombstoned and, for a
    /// note reference, pointing at an active note.
    pub open spec fn visible(self, n: NodeRow) -> bool {
        !n.is_deleted && (n.kind == WorkspaceNodeKind::Folder || (n.atom_uuid is Some
            && self.atom_kind(n.atom_uuid->0) == Some(AtomType::Note)))
    }

    /// Node `id` exists and is visible.
    pub open spec fn visible_node(self, id: u128) -> bool {
        self.has_node(id) && self.visible(self.node(id))
    }

    /// Node `id` exists and carries no tombstone.
    pub open spec fn active_node(self, id: u128) -> bool {
        self.has_node(id) && !self.node(id).is_deleted
    }

    /// Node `id` exists, carries no tombstone and is a folder.
    pub open spec fn active_folder(self, id: u128) -> bool {
        self.active_node(id) && self.node(id).kind == WorkspaceNodeKind::Folder
    }

    pub open spec fn unique_nodes(self) -> bool {
        forall|i: int, j: int|
            0 <= i < self.nodes.len() && 0 <= j < self.nodes.len() && (#[trigger] self.nodes[i]).node_uuid
                == (#[trigger] self.nodes[j]).node_uuid ==> i == j
    }

    pub open spec fn unique_atoms(self) -> bool {
        forall|i: int, j: int|
            0 <= i < self.atoms.len() && 0 <= j < self.atoms.len() && (#[trigger] self.atoms[i]).uuid
                == (#[trigger] self.atoms[j]).uuid ==> i == j
    }

    /// What the storage engine keeps true of the tables: ids are keys, a
    /// parent id names a row, exactly the note references carry an atom, and
    /// the rows can be counted in an `i64`.
    pub open spec fn wf(self) -> bool {
        &&& self.nodes.len() <= i64::MAX
        &&& self.unique_nodes()
        &&& self.unique_atoms()
        &&& forall|i: int|
            0 <= i < self.nodes.len() ==> ((#[trigger] self.nodes[i]).kind == WorkspaceNodeKind::Folder
                <==> self.nodes[i].atom_uuid is None)
        &&& forall|i: int|
            0 <= i < self.nodes.len() && (#[trigger] self.nodes[i]).parent_uuid is Some
                ==> self.has_node(self.nodes[i].parent_uuid->0)
    }

    /// The result of a lookup by id.
    pub open spec fn get(self, id: u128, include_deleted: bool) -> Option<NodeRow> {
        if self.has_node(id) && (include_deleted || self.visible(self.node(id))) {
            Some(self.node(id))
        } else {
            None
        }
    }

    /// Whether a listing of the children of `parent` under `filter` takes row `n`.
    pub open spec fn selects(self, filter: ChildFilter, parent: Option<u128>, n: NodeRow) -> bool {
        n.parent_uuid == parent && match filter {
            ChildFilter::All => true,
            ChildFilter::Active => !n.is_deleted,
            ChildFilter::Visible => self.visible(n),
        }
    }

    /// `rows` is the listing of the children of `parent` under `filter`: the
    /// selected rows, each once, in sibling order.
    pub open spec fn is_listing(self, filter: ChildFilter, parent: Option<u128>, rows: Seq<NodeRow>) -> bool {
        &&& forall|k: int|
            0 <= k < rows.len() ==> self.nodes.contains(#[trigger] rows[k]) && self.selects(
                filter,
                parent,
                rows[k],
            )
        &&& forall|i: int|
            0 <= i < self.nodes.len() && self.selects(filter, parent, #[trigger] self.nodes[i])
                ==> rows.contains(self.nodes[i])
        &&& forall|a: int, b: int|
            0 <= a < b < rows.len() ==> key_lt(#[trigger] rows[a], #[trigger] rows[b])
    }

    /// The listing of the children of `parent` under `filter`.
    pub open spec fn children(self, filter: ChildFilter, parent: Option<u128>) -> Seq<NodeRow> {
        choose|rows: Seq<NodeRow>| self.is_listing(filter, parent, rows)
    }

    /// What `list_children` returns.
    pub open spec fn listed(self, parent: Option<u128>, include_deleted: bool) -> Seq<NodeRow> {
        self.children(
            if include_deleted {
                ChildFilter::All
            } else {
                ChildFilter::Visible
            },
            parent,
        )
    }

    /// The `sort_order` of a node created under `parent`: one more than the
    /// largest among the siblings that are not tombstoned, 0 where there is none.
    pub open spec fn next_sort_order(self, parent: Option<u128>) -> int {
        let c = self.children(ChildFilter::Active, parent);
        if c.len() == 0 {
            0
        } else {
            c.last().sort_order + 1
        }
    }

    /// The rows at the indices `idx`, in that order.
    pub open spec fn picked(self, idx: Seq<usize>) -> Seq<NodeRow> {
        idx.map_values(|i: usize| self.nodes[i as int])
    }

    /// The tables with atom `row.uuid` recorded as `row`.
    pub open spec fn with_atom(self, row: AtomRow) -> TreeState {
        TreeState {
            nodes: self.nodes,
            atoms: if self.has_atom(row.uuid) {
                self.atoms.update(self.atom_index(row.uuid), row)
            } else {
                self.atoms.push(row)
            },
        }
    }

    /// The tables with one more node row.
    pub open spec fn with_node(self, row: NodeRow) -> TreeState {
        TreeState { nodes: self.nodes.push(row), atoms: self.atoms }
    }

    /// Whether the engine takes a new row `id` under `parent`: the id is new,
    /// the parent names a row, the next sort order is still an `i64`, and
    /// the table is not full.
    pub open spec fn insertable(self, id: u128, parent: Option<u128>) -> bool {
        self.insert_refusal(id, parent) is None
    }

    /// Why the engine refuses a new row `id` under `parent`, if it does.
    pub open spec fn insert_refusal(self, id: u128, parent: Option<u128>) -> Option<SqliteFailure> {
        if self.next_sort_order(parent) > i64::MAX {
            Some(SqliteFailure::IntegerOverflow)
        } else if self.has_node(id) {
            Some(SqliteFailure::UniqueConstraint)
        } else if parent is Some && !self.has_node(parent->0) {
            Some(SqliteFailure::ForeignKeyConstraint)
        } else if self.nodes.len() >= i64::MAX {
            Some(SqliteFailure::Full)
        } else {
            None
        }
    }

    /// The row that creating a node appends.
    pub open spec fn new_row(
        self,
        id: u128,
        kind: WorkspaceNodeKind,
        parent: Option<u128>,
        atom: Option<u128>,
        name: Seq<char>,
        now: i64,
    ) -> NodeRow {
        NodeRow {
            node_uuid: id,
            kind,
            parent_uuid: parent,
            atom_uuid: atom,
            display_name: name,
            sort_order: self.next_sort_order(parent) as i64,
            is_deleted: false,
            created_at: now,
            updated_at: now,
        }
    }

    /// The tables after node `id` was renamed.
    pub open spec fn after_rename(self, id: u128, name: Seq<char>, now: i64) -> TreeState {
        TreeState {
            nodes: self.nodes.map_values(
                |n: NodeRow|
                    if n.node_uuid == id && !n.is_deleted {
                        NodeRow { display_name: name, updated_at: now, ..n }
                    } else {
                        n
                    },
            ),
            atoms: self.atoms,
        }
    }

    /// The sibling order that moving `id` under `new_parent` leaves there.
    pub open spec fn move_order(self, id: u128, new_parent: Option<u128>, target: Option<i64>) -> Seq<u128> {
        reorder(ids_of(self.children(ChildFilter::Visible, new_parent)), id, target)
    }

    /// The tables after node `id` was moved under `new_parent`.
    pub open spec fn after_move(
        self,
        id: u128,
        new_parent: Option<u128>,
        target: Option<i64>,
        now: i64,
    ) -> TreeState {
        let order = self.move_order(id, new_parent, target);
        TreeState {
            nodes: self.nodes.map_values(|n: NodeRow| placed(n, order, id, new_parent, now)),
            atoms: self.atoms,
        }
    }

    /// The direct children that dissolving `folder` lifts to the root level.
    pub open spec fn dissolve_children(self, folder: u128) -> Seq<u128> {
        ids_of(self.children(ChildFilter::Active, Some(folder)))
    }

    /// Whether the lifted children of `folder` fit behind the root level's
    /// nodes without leaving `i64`.
    pub open spec fn dissolve_fits(self, folder: u128) -> bool {
        self.next_sort_order(None) <= i64::MAX && self.next_sort_order(None) + self.dissolve_children(
            folder,
        ).len() <= i64::MAX + 1
    }

    /// The tables after `folder` was dissolved.
    pub open spec fn after_dissolve(self, folder: u128, now: i64) -> TreeState {
        let children = self.dissolve_children(folder);
        let base = self.next_sort_order(None);
        TreeState {
            nodes: self.nodes.map_values(|n: NodeRow| dissolved(n, children, folder, base, now)),
            atoms: self.atoms,
        }
    }

    /// The parent link that an ancestor walk follows from `x`: the parent of
    /// a row without a tombstone.
    pub open spec fn parent_of(self, x: u128) -> Option<u128> {
        if self.active_node(x) {
            self.node(x).parent_uuid
        } else {
            None
        }
    }

    /// The node reached from `x` after `k` parent links, if the chain is that long.
    pub open spec fn ancestor(self, x: u128, k: nat) -> Option<u128>
        decreases k,
    {
        if k == 0 {
            Some(x)
        } else {
            match self.parent_of(x) {
                Some(p) => self.ancestor(p, (k - 1) as nat),
                None => None,
            }
        }
    }

    /// No node is its own ancestor.
    pub open spec fn acyclic(self) -> bool {
        forall|x: u128, k: nat| k >= 1 ==> #[trigger] self.ancestor(x, k) != Some(x)
    }

    /// `x` is `root` or lies below it: `root` carries no tombstone and is
    /// reached from `x` over rows without a tombstone.
    pub open spec fn in_subtree(self, root: u128, x: u128) -> bool {
        self.active_node(root) && exists|k: nat| #[trigger] self.ancestor(x, k) == Some(root)
    }

    /// Some note reference without a tombstone points at `atom`.
    pub open spec fn referenced(self, atom: u128) -> bool {
        exists|i: int|
            0 <= i < self.nodes.len() && !(#[trigger] self.nodes[i]).is_deleted && self.nodes[i].kind
                == WorkspaceNodeKind::NoteRef && self.nodes[i].atom_uuid == Some(atom)
    }

    /// Some note reference in the subtree of `root` points at `atom`.
    pub open spec fn referenced_below(self, root: u128, atom: u128) -> bool {
        exists|i: int|
            0 <= i < self.nodes.len() && self.in_subtree(root, (#[trigger] self.nodes[i]).node_uuid)
                && self.nodes[i].kind == WorkspaceNodeKind::NoteRef && self.nodes[i].atom_uuid == Some(
                atom,
            )
    }

    /// The node rows after the subtree of `root` got its tombstones.
    pub open spec fn subtree_tombstoned(self, root: u128, now: i64) -> Seq<NodeRow> {
        self.nodes.map_values(
            |n: NodeRow|
                if self.in_subtree(root, n.node_uuid) {
                    NodeRow { is_deleted: true, updated_at: now, ..n }
                } else {
                    n
                },
        )
    }

    /// The tables after `root` and everything below it was deleted: the
    /// subtree is tombstoned, and an active note that the subtree pointed at
    /// and that no remaining note reference points at is soft-deleted.
    pub open spec fn after_delete_all(self, root: u128, now: i64) -> TreeState {
        let nodes = self.subtree_tombstoned(root, now);
        let rest = TreeState { nodes, atoms: self.atoms };
        TreeState {
            nodes,
            atoms: self.atoms.map_values(
                |a: AtomRow|
                    if self.referenced_below(root, a.uuid) && !rest.referenced(a.uuid) && a.kind
                        == AtomType::Note && !a.is_deleted {
                        AtomRow { is_deleted: true, ..a }
                    } else {
                        a
                    },
            ),
        }
    }

    /// Every parent of a node without a tombstone is a folder without a tombstone.
    pub open spec fn parents_are_folders(self) -> bool {
        forall|i: int|
            0 <= i < self.nodes.len() && !(#[trigger] self.nodes[i]).is_deleted
                && self.nodes[i].parent_uuid is Some ==> self.active_folder(
                self.nodes[i].parent_uuid->0,
            )
    }

    /// The visible children of `parent` carry the sort orders `0, 1, 2, ...`
    /// in the order of their listing.
    pub open spec fn dense(self, parent: Option<u128>) -> bool {
        forall|k: int|
            0 <= k < self.listed(parent, false).len() ==> (#[trigger] self.listed(
                parent,
                false,
            )[k]).sort_order == k
    }

    /// Every child of `parent` without a tombstone is visible: no note
    /// reference there points at an atom that is gone or is no note.
    pub open spec fn children_all_visible(self, parent: Option<u128>) -> bool {
        forall|i: int|
            0 <= i < self.nodes.len() && self.selects(ChildFilter::Active, parent, #[trigger] self.nodes[i])
                ==> self.visible(self.nodes[i])
    }

    /// `after` keeps every row of these tables: under its id, with its kind,
    /// its atom and its time of creation, and with its tombstone if it has one.
    pub open spec fn kept_in(self, after: TreeState) -> bool {
        &&& self.nodes.len() <= after.nodes.len()
        &&& forall|i: int|
            0 <= i < self.nodes.len() ==> {
                &&& (#[trigger] after.nodes[i]).node_uuid == self.nodes[i].node_uuid
                &&& after.nodes[i].kind == self.nodes[i].kind
                &&& after.nodes[i].atom_uuid == self.nodes[i].atom_uuid
                &&& after.nodes[i].created_at == self.nodes[i].created_at
                &&& (self.nodes[i].is_deleted ==> after.nodes[i].is_deleted)
            }
    }

    /// No display name is stored blank or with whitespace around it.
    pub open spec fn names_kept(self) -> bool {
        forall|i: int| 0 <= i < self.nodes.len() ==> name_kept((#[trigger] self.nodes[i]).display_name)
    }

    /// What the tree is at rest: well-formed tables, no node its own
    /// ancestor, and folders without a tombstone as the only parents of
    /// nodes without one.
    pub open spec fn consistent(self) -> bool {
        self.wf() && self.acyclic() && self.parents_are_folders()
    }
}

} // verus!
