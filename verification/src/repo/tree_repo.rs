//! Workspace tree repository contract.
//!
//! # Invariants
//! - Only visible nodes are returned by default.
//! - Child listing is deterministic: `sort_order` ascending, then node id ascending.
//! - A mutation either happens in full or leaves the tables as they were.

use vstd::prelude::*;
use crate::text::texts;
use crate::text::has_text;
use crate::text::optional_text;
use crate::db::db_error_text;
use crate::db::migrations::latest_version;
use crate::model::uuid::read_uuid;
use crate::model::uuid::text_of_uuid;
use crate::model::uuid::uuid_of_text;
use crate::model::uuid::write_uuid;
use crate::outside::same_text;
use crate::text::decimal;
use crate::text::decimal_text;
use crate::text::join2;
use crate::text::join3;
use crate::db::DbError;
use crate::db::SqliteFailure;
use crate::model::atom::AtomId;
use crate::model::atom::AtomType;
use crate::repo::tree_state::ChildFilter;
use crate::repo::tree_state::NodeRow;
use crate::repo::tree_state::TreeState;
use crate::repo::tree_state::WorkspaceNodeKind;

verus! {

/// Stable workspace node identifier, the 128 bits of its UUID.
pub type WorkspaceNodeId = u128;

/// Result type used by workspace tree repository operations.
pub type TreeRepoResult<T> = Result<T, TreeRepoError>;

/// Errors from workspace tree repository operations.
#[derive(Debug, Clone, PartialEq, Eq)]
pub enum TreeRepoError {
    /// Underlying storage error.
    Db(DbError),
    /// Target workspace node does not exist or is soft-deleted.
    NodeNotFound(WorkspaceNodeId),
    /// Target workspace node exists but is not folder kind.
    NodeNotFolder(WorkspaceNodeId),
    /// Connection schema is not at the expected migrated version.
    UninitializedConnection { expected_version: u32, actual_version: u32 },
    /// Required table is missing.
    MissingRequiredTable(&'static str),
    /// Required column is missing from expected table.
    MissingRequiredColumn { table: &'static str, column: &'static str },
    /// Persisted data cannot be converted to valid read model.
    InvalidData(String),
}

/// Workspace tree read model.
#[derive(Debug, Clone, PartialEq, Eq)]
pub struct WorkspaceNode {
    /// Stable workspace node id.
    pub node_uuid: WorkspaceNodeId,
    /// Node type.
    pub kind: WorkspaceNodeKind,
    /// Parent node id. `None` means root-level node.
    pub parent_uuid: Option<WorkspaceNodeId>,
    /// Target atom id for note references.
    pub atom_uuid: Option<AtomId>,
    /// User-facing label.
    pub display_name: String,
    /// Stable child order key within one parent.
    pub sort_order: i64,
    /// Soft-delete marker.
    pub is_deleted: bool,
    /// Epoch ms creation timestamp.
    pub created_at: i64,
    /// Epoch ms update timestamp.
    pub updated_at: i64,
}

impl View for WorkspaceNode {
    type V = NodeRow;

    open spec fn view(&self) -> NodeRow {
        NodeRow {
            node_uuid: self.node_uuid,
            kind: self.kind,
            parent_uuid: self.parent_uuid,
            atom_uuid: self.atom_uuid,
            display_name: self.display_name@,
            sort_order: self.sort_order,
            is_deleted: self.is_deleted,
            created_at: self.created_at,
            updated_at: self.updated_at,
        }
    }
}

/// The rows that a vector of nodes stands for.
pub open spec fn rows_of(nodes: Seq<WorkspaceNode>) -> Seq<NodeRow> {
    nodes.map_values(|n: WorkspaceNode| n@)
}

/// The row that an optional node stands for.
pub open spec fn row_of(node: Option<WorkspaceNode>) -> Option<NodeRow> {
    match node {
        Some(n) => Some(n@),
        None => None,
    }
}

impl WorkspaceNode {
    /// A copy of this node.
    pub fn duplicate(&self) -> (r: WorkspaceNode)
        ensures
            r@ == self@,
    {
        WorkspaceNode {
            node_uuid: self.node_uuid,
            kind: self.kind,
            parent_uuid: self.parent_uuid,
            atom_uuid: self.atom_uuid,
            display_name: self.display_name.clone(),
            sort_order: self.sort_order,
            is_deleted: self.is_deleted,
            created_at: self.created_at,
            updated_at: self.updated_at,
        }
    }
}

/// An error that tells of the storage engine, not of the tree.
pub open spec fn storage_failure(e: TreeRepoError) -> bool {
    e is Db || e is InvalidData
}

/// The error of a statement that the engine refused for the reason `why`.
pub open spec fn refused(why: SqliteFailure) -> TreeRepoError {
    TreeRepoError::Db(DbError::Sqlite(why))
}

/// `after` is `before` with one node created: the row `row` is new, has the
/// asked kind, parent, atom and name, comes last among its siblings, and is
/// the only change.
pub open spec fn created(
    before: TreeState,
    after: TreeState,
    row: NodeRow,
    kind: WorkspaceNodeKind,
    parent: Option<u128>,
    atom: Option<u128>,
    name: Seq<char>,
) -> bool {
    &&& before.insertable(row.node_uuid, parent)
    &&& row == before.new_row(row.node_uuid, kind, parent, atom, name, row.created_at)
    &&& after == before.with_node(row)
}

/// Why the repository refuses to move `id` under `new_parent`, if it does:
/// the node is not visible, or the new parent names no row.
pub open spec fn move_refusal(s: TreeState, id: u128, new_parent: Option<u128>) -> Option<TreeRepoError> {
    if !s.visible_node(id) {
        Some(TreeRepoError::NodeNotFound(id))
    } else if new_parent is Some && !s.has_node(new_parent->0) {
        Some(refused(SqliteFailure::ForeignKeyConstraint))
    } else {
        None
    }
}

/// Why the repository refuses to delete `folder`, if it does: the node is
/// absent or tombstoned, or it is no folder.
pub open spec fn folder_refusal(s: TreeState, folder: u128) -> Option<TreeRepoError> {
    if !s.active_node(folder) {
        Some(TreeRepoError::NodeNotFound(folder))
    } else if s.node(folder).kind != WorkspaceNodeKind::Folder {
        Some(TreeRepoError::NodeNotFolder(folder))
    } else {
        None
    }
}

/// Why the repository refuses to dissolve `folder`, if it does: what it
/// refuses of any delete, or sort orders that would leave `i64`.
pub open spec fn dissolve_refusal(s: TreeState, folder: u128) -> Option<TreeRepoError> {
    if folder_refusal(s, folder) is Some {
        folder_refusal(s, folder)
    } else if !s.dissolve_fits(folder) {
        Some(refused(SqliteFailure::IntegerOverflow))
    } else {
        None
    }
}

/// How a refused operation may end: with the error `expected` that the
/// tables call for, or, where the engine can fail on its own account, with
/// an error that tells of the engine.
pub open spec fn failed_as(may_fail: bool, expected: Option<TreeRepoError>, e: TreeRepoError) -> bool {
    Some(e) == expected || (may_fail && storage_failure(e))
}

/// Repository interface for workspace tree operations.
///
/// `state` is the content of the tables behind the repository. Every
/// operation either does to it what its function in `TreeState` says, or
/// fails and leaves it unchanged. Where `may_fail` is false, an operation
/// fails only with the error that the tables call for.
pub trait TreeRepository {
    /// The content of the tables.
    spec fn state(&self) -> TreeState;

    /// What this repository keeps true of itself.
    spec fn inv(&self) -> bool;

    /// Whether the engine behind this repository can fail on its own account.
    spec fn may_fail(&self) -> bool;

    /// The tables of a repository are well formed.
    proof fn tables_well_formed(&self)
        requires
            self.inv(),
        ensures
            self.state().wf(),
    ;

    /// Creates one folder node under a new id, behind its siblings.
    fn create_folder(&mut self, parent_uuid: Option<WorkspaceNodeId>, display_name: &str) -> (r:
        TreeRepoResult<WorkspaceNode>)
        requires
            old(self).inv(),
        ensures
            final(self).inv(),
            final(self).may_fail() == old(self).may_fail(),
            match r {
                Ok(node) => created(
                    old(self).state(),
                    final(self).state(),
                    node@,
                    WorkspaceNodeKind::Folder,
                    parent_uuid,
                    None,
                    display_name@,
                ),
                Err(e) => final(self).state() == old(self).state() && storage_failure(e),
            },
    ;

    /// Creates one note reference under a new id, behind its siblings.
    fn create_note_ref(
        &mut self,
        parent_uuid: Option<WorkspaceNodeId>,
        atom_uuid: AtomId,
        display_name: &str,
    ) -> (r: TreeRepoResult<WorkspaceNode>)
        requires
            old(self).inv(),
        ensures
            final(self).inv(),
            final(self).may_fail() == old(self).may_fail(),
            match r {
                Ok(node) => created(
                    old(self).state(),
                    final(self).state(),
                    node@,
                    WorkspaceNodeKind::NoteRef,
                    parent_uuid,
                    Some(atom_uuid),
                    display_name@,
                ),
                Err(e) => final(self).state() == old(self).state() && storage_failure(e),
            },
    ;

    /// Loads one node by id.
    fn get_node(&self, node_uuid: WorkspaceNodeId, include_deleted: bool) -> (r: TreeRepoResult<
        Option<WorkspaceNode>,
    >)
        requires
            self.inv(),
        ensures
            match r {
                Ok(node) => row_of(node) == self.state().get(node_uuid, include_deleted),
                Err(e) => self.may_fail() && storage_failure(e),
            },
    ;

    /// Lists children under one parent.
    fn list_children(&self, parent_uuid: Option<WorkspaceNodeId>, include_deleted: bool) -> (r:
        TreeRepoResult<Vec<WorkspaceNode>>)
        requires
            self.inv(),
        ensures
            match r {
                Ok(nodes) => rows_of(nodes@) == self.state().listed(parent_uuid, include_deleted)
                    && self.state().is_listing(
                    if include_deleted {
                        ChildFilter::All
                    } else {
                        ChildFilter::Visible
                    },
                    parent_uuid,
                    rows_of(nodes@),
                ),
                Err(e) => self.may_fail() && storage_failure(e),
            },
    ;

    /// Renames one node.
    fn rename_node(&mut self, node_uuid: WorkspaceNodeId, display_name: &str) -> (r: TreeRepoResult<
        (),
    >)
        requires
            old(self).inv(),
        ensures
            final(self).inv(),
            final(self).may_fail() == old(self).may_fail(),
            match r {
                Ok(()) => old(self).state().active_node(node_uuid) && exists|now: i64|
                    final(self).state() == #[trigger] old(self).state().after_rename(
                        node_uuid,
                        display_name@,
                        now,
                    ),
                Err(e) => final(self).state() == old(self).state() && failed_as(
                    old(self).may_fail(),
                    if old(self).state().active_node(node_uuid) {
                        None
                    } else {
                        Some(TreeRepoError::NodeNotFound(node_uuid))
                    },
                    e,
                ),
            },
    ;

    /// Moves one node to another parent and optional target order.
    fn move_node(
        &mut self,
        node_uuid: WorkspaceNodeId,
        new_parent_uuid: Option<WorkspaceNodeId>,
        target_order: Option<i64>,
    ) -> (r: TreeRepoResult<()>)
        requires
            old(self).inv(),
        ensures
            final(self).inv(),
            final(self).may_fail() == old(self).may_fail(),
            match r {
                Ok(()) => move_refusal(old(self).state(), node_uuid, new_parent_uuid) is None
                    && exists|now: i64|
                    final(self).state() == #[trigger] old(self).state().after_move(
                        node_uuid,
                        new_parent_uuid,
                        target_order,
                        now,
                    ),
                Err(e) => final(self).state() == old(self).state() && failed_as(
                    old(self).may_fail(),
                    move_refusal(old(self).state(), node_uuid, new_parent_uuid),
                    e,
                ),
            },
    ;

    /// Deletes one folder by dissolving it into root-level children.
    fn delete_folder_dissolve(&mut self, folder_uuid: WorkspaceNodeId) -> (r: TreeRepoResult<()>)
        requires
            old(self).inv(),
        ensures
            final(self).inv(),
            final(self).may_fail() == old(self).may_fail(),
            match r {
                Ok(()) => dissolve_refusal(old(self).state(), folder_uuid) is None && exists|now: i64|
                    final(self).state() == #[trigger] old(self).state().after_dissolve(folder_uuid, now),
                Err(e) => final(self).state() == old(self).state() && failed_as(
                    old(self).may_fail(),
                    dissolve_refusal(old(self).state(), folder_uuid),
                    e,
                ),
            },
    ;

    /// Deletes one folder subtree and conditionally soft-deletes note atoms.
    fn delete_folder_delete_all(&mut self, folder_uuid: WorkspaceNodeId) -> (r: TreeRepoResult<()>)
        requires
            old(self).inv(),
        ensures
            final(self).inv(),
            final(self).may_fail() == old(self).may_fail(),
            match r {
                Ok(()) => folder_refusal(old(self).state(), folder_uuid) is None && exists|now: i64|
                    final(self).state() == #[trigger] old(self).state().after_delete_all(
                        folder_uuid,
                        now,
                    ),
                Err(e) => final(self).state() == old(self).state() && failed_as(
                    old(self).may_fail(),
                    folder_refusal(old(self).state(), folder_uuid),
                    e,
                ),
            },
    ;

    /// Loads atom type for active atom, if present.
    fn atom_kind(&self, atom_uuid: AtomId) -> (r: TreeRepoResult<Option<AtomType>>)
        requires
            self.inv(),
        ensures
            match r {
                Ok(kind) => kind == self.state().atom_kind(atom_uuid),
                Err(e) => self.may_fail() && storage_failure(e),
            },
    ;
}

/// One row of the node table as the storage engine hands it out: ids and
/// kind as text, the tombstone as a number.
#[derive(Debug, Clone, PartialEq, Eq)]
pub struct RawNodeRow {
    pub node_uuid: String,
    pub kind: String,
    pub parent_uuid: Option<String>,
    pub atom_uuid: Option<String>,
    pub display_name: String,
    pub sort_order: i64,
    pub is_deleted: i64,
    pub created_at: i64,
    pub updated_at: i64,
}

/// A raw row as characters.
pub struct RawRowView {
    pub node_uuid: Seq<char>,
    pub kind: Seq<char>,
    pub parent_uuid: Option<Seq<char>>,
    pub atom_uuid: Option<Seq<char>>,
    pub display_name: Seq<char>,
    pub sort_order: i64,
    pub is_deleted: i64,
    pub created_at: i64,
    pub updated_at: i64,
}

impl View for RawNodeRow {
    type V = RawRowView;

    open spec fn view(&self) -> RawRowView {
        RawRowView {
            node_uuid: self.node_uuid@,
            kind: self.kind@,
            parent_uuid: optional_text(self.parent_uuid),
            atom_uuid: optional_text(self.atom_uuid),
            display_name: self.display_name@,
            sort_order: self.sort_order,
            is_deleted: self.is_deleted,
            created_at: self.created_at,
            updated_at: self.updated_at,
        }
    }
}

/// How a node kind is written in storage.
pub open spec fn kind_text(kind: WorkspaceNodeKind) -> Seq<char> {
    match kind {
        WorkspaceNodeKind::Folder => "folder"@,
        WorkspaceNodeKind::NoteRef => "note_ref"@,
    }
}

/// The node kind that `text` is the writing of, if it is one.
pub open spec fn kind_of_text(text: Seq<char>) -> Option<WorkspaceNodeKind> {
    if text == kind_text(WorkspaceNodeKind::Folder) {
        Some(WorkspaceNodeKind::Folder)
    } else if text == kind_text(WorkspaceNodeKind::NoteRef) {
        Some(WorkspaceNodeKind::NoteRef)
    } else {
        None
    }
}

/// Reading back what was written gives the kind that was written.
pub proof fn lemma_kind_round_trip(kind: WorkspaceNodeKind)
    ensures
        kind_of_text(kind_text(kind)) == Some(kind),
{
    reveal_strlit("folder");
    reveal_strlit("note_ref");
    assert("folder"@[0] == 'f');
    assert("note_ref"@[0] == 'n');
}

/// How a node kind is written in storage.
pub fn workspace_kind_to_db(kind: WorkspaceNodeKind) -> (r: &'static str)
    ensures
        r@ == kind_text(kind),
{
    match kind {
        WorkspaceNodeKind::Folder => "folder",
        WorkspaceNodeKind::NoteRef => "note_ref",
    }
}

/// Reads a node kind as storage writes it.
pub fn parse_workspace_kind(value: &str) -> (r: Option<WorkspaceNodeKind>)
    ensures
        r == kind_of_text(value@),
{
    if same_text(value, "folder") {
        Some(WorkspaceNodeKind::Folder)
    } else if same_text(value, "note_ref") {
        Some(WorkspaceNodeKind::NoteRef)
    } else {
        None
    }
}

/// What is said of a text in column `column` that writes no identifier.
pub open spec fn invalid_uuid_text(value: Seq<char>, column: Seq<char>) -> Seq<char> {
    "invalid uuid `"@ + value + "` in "@ + column
}

/// What reading the identifier `value` of column `column` gives.
pub open spec fn parsed_uuid(value: Seq<char>, column: Seq<char>) -> Result<u128, Seq<char>> {
    match uuid_of_text(value) {
        Some(id) => Ok(id),
        None => Err(invalid_uuid_text(value, column)),
    }
}

/// What reading the optional identifier `value` of column `column` gives.
pub open spec fn parsed_optional_uuid(value: Option<Seq<char>>, column: Seq<char>) -> Result<
    Option<u128>,
    Seq<char>,
> {
    match value {
        None => Ok(None),
        Some(text) => match uuid_of_text(text) {
            Some(id) => Ok(Some(id)),
            None => Err(invalid_uuid_text(text, column)),
        },
    }
}

/// The message of an error that tells of data that cannot be read.
pub open spec fn invalid_data_text(e: TreeRepoError) -> Option<Seq<char>> {
    match e {
        TreeRepoError::InvalidData(message) => Some(message@),
        _ => None,
    }
}

/// Reads an identifier of column `column`.
pub fn parse_uuid(value: &str, column: &'static str) -> (r: Result<u128, TreeRepoError>)
    ensures
        match r {
            Ok(id) => parsed_uuid(value@, column@) == Ok::<u128, Seq<char>>(id),
            Err(e) => invalid_data_text(e) is Some && parsed_uuid(value@, column@) == Err::<
                u128,
                Seq<char>,
            >(invalid_data_text(e)->0),
        },
{
    match read_uuid(value) {
        Some(id) => Ok(id),
        None => {
            let mut message = join3("invalid uuid `", value, "` in ");
            message.append(column);
            Err(TreeRepoError::InvalidData(message))
        },
    }
}

fn parse_optional_uuid(value: &Option<String>, column: &'static str) -> (r: Result<
    Option<u128>,
    TreeRepoError,
>)
    ensures
        match r {
            Ok(id) => parsed_optional_uuid(optional_text(*value), column@) == Ok::<
                Option<u128>,
                Seq<char>,
            >(id),
            Err(e) => invalid_data_text(e) is Some && parsed_optional_uuid(
                optional_text(*value),
                column@,
            ) == Err::<Option<u128>, Seq<char>>(invalid_data_text(e)->0),
        },
{
    match value {
        None => Ok(None),
        Some(text) => match parse_uuid(text.as_str(), column) {
            Ok(id) => Ok(Some(id)),
            Err(e) => Err(e),
        },
    }
}

/// What reading a raw row gives: the node it writes, or what is wrong
/// with the first column that cannot be read, in the order node id, parent
/// id, atom id, kind, tombstone.
pub open spec fn parsed_row(raw: RawRowView) -> Result<NodeRow, Seq<char>> {
    match parsed_uuid(raw.node_uuid, "workspace_nodes.node_uuid"@) {
        Err(m) => Err(m),
        Ok(node_uuid) => match parsed_optional_uuid(raw.parent_uuid, "workspace_nodes.parent_uuid"@) {
            Err(m) => Err(m),
            Ok(parent_uuid) => match parsed_optional_uuid(raw.atom_uuid, "workspace_nodes.atom_uuid"@) {
                Err(m) => Err(m),
                Ok(atom_uuid) => match kind_of_text(raw.kind) {
                    None => Err(
                        "invalid workspace node kind `"@ + raw.kind + "` in workspace_nodes.kind"@,
                    ),
                    Some(kind) => if raw.is_deleted != 0 && raw.is_deleted != 1 {
                        Err(
                            "invalid is_deleted value `"@ + decimal_text(raw.is_deleted as int)
                                + "` in workspace_nodes.is_deleted"@,
                        )
                    } else {
                        Ok(
                            NodeRow {
                                node_uuid,
                                kind,
                                parent_uuid,
                                atom_uuid,
                                display_name: raw.display_name,
                                sort_order: raw.sort_order,
                                is_deleted: raw.is_deleted == 1,
                                created_at: raw.created_at,
                                updated_at: raw.updated_at,
                            },
                        )
                    },
                },
            },
        },
    }
}

/// Reads one row of the node table.
pub fn parse_workspace_node_row(row: &RawNodeRow) -> (r: Result<WorkspaceNode, TreeRepoError>)
    ensures
        match r {
            Ok(node) => parsed_row(row@) == Ok::<NodeRow, Seq<char>>(node@),
            Err(e) => invalid_data_text(e) is Some && parsed_row(row@) == Err::<NodeRow, Seq<char>>(
                invalid_data_text(e)->0,
            ),
        },
{
    let node_uuid = match parse_uuid(row.node_uuid.as_str(), "workspace_nodes.node_uuid") {
        Ok(id) => id,
        Err(e) => {
            return Err(e);
        },
    };
    let parent_uuid = match parse_optional_uuid(&row.parent_uuid, "workspace_nodes.parent_uuid") {
        Ok(id) => id,
        Err(e) => {
            return Err(e);
        },
    };
    let atom_uuid = match parse_optional_uuid(&row.atom_uuid, "workspace_nodes.atom_uuid") {
        Ok(id) => id,
        Err(e) => {
            return Err(e);
        },
    };
    let kind = match parse_workspace_kind(row.kind.as_str()) {
        Some(kind) => kind,
        None => {
            return Err(
                TreeRepoError::InvalidData(
                    join3(
                        "invalid workspace node kind `",
                        row.kind.as_str(),
                        "` in workspace_nodes.kind",
                    ),
                ),
            );
        },
    };
    let is_deleted = if row.is_deleted == 0 {
        false
    } else if row.is_deleted == 1 {
        true
    } else {
        return Err(
            TreeRepoError::InvalidData(
                join3(
                    "invalid is_deleted value `",
                    decimal(row.is_deleted).as_str(),
                    "` in workspace_nodes.is_deleted",
                ),
            ),
        );
    };
    Ok(
        WorkspaceNode {
            node_uuid,
            kind,
            parent_uuid,
            atom_uuid,
            display_name: row.display_name.clone(),
            sort_order: row.sort_order,
            is_deleted,
            created_at: row.created_at,
            updated_at: row.updated_at,
        },
    )
}

/// What a repository error says.
pub open spec fn repo_error_text(e: TreeRepoError) -> Seq<char> {
    match e {
        TreeRepoError::Db(err) => db_error_text(err),
        TreeRepoError::NodeNotFound(id) => "workspace node not found: "@ + text_of_uuid(id),
        TreeRepoError::NodeNotFolder(id) => "workspace node is not a folder: "@ + text_of_uuid(id),
        TreeRepoError::UninitializedConnection { expected_version, actual_version } => "workspace repository requires schema version "@
            + decimal_text(expected_version as int) + ", got "@ + decimal_text(actual_version as int),
        TreeRepoError::MissingRequiredTable(table) => "workspace repository requires table `"@ + table@
            + "`"@,
        TreeRepoError::MissingRequiredColumn { table, column } => "workspace repository requires column `"@
            + column@ + "` in table `"@ + table@ + "`"@,
        TreeRepoError::InvalidData(message) => "invalid workspace data: "@ + message@,
    }
}

impl TreeRepoError {
    /// The message of this error.
    pub fn message(&self) -> (r: String)
        ensures
            r@ == repo_error_text(*self),
    {
        match self {
            TreeRepoError::Db(err) => err.message(),
            TreeRepoError::NodeNotFound(id) => join2(
                "workspace node not found: ",
                write_uuid(*id).as_str(),
            ),
            TreeRepoError::NodeNotFolder(id) => join2(
                "workspace node is not a folder: ",
                write_uuid(*id).as_str(),
            ),
            TreeRepoError::UninitializedConnection { expected_version, actual_version } => {
                let mut r = join3(
                    "workspace repository requires schema version ",
                    decimal(*expected_version as i64).as_str(),
                    ", got ",
                );
                r.append(decimal(*actual_version as i64).as_str());
                r
            },
            TreeRepoError::MissingRequiredTable(table) => join3(
                "workspace repository requires table `",
                table,
                "`",
            ),
            TreeRepoError::MissingRequiredColumn { table, column } => {
                let mut r = join3("workspace repository requires column `", column, "` in table `");
                r.append(table);
                r.append("`");
                r
            },
            TreeRepoError::InvalidData(message) => join2("invalid workspace data: ", message.as_str()),
        }
    }
}

/// The columns of the node table that the repository reads and writes.
pub open spec fn required_columns() -> Seq<Seq<char>> {
    seq![
        "node_uuid"@,
        "kind"@,
        "parent_uuid"@,
        "atom_uuid"@,
        "display_name"@,
        "sort_order"@,
        "is_deleted"@,
        "created_at"@,
        "updated_at"@,
    ]
}

/// The first `n` required columns are among `columns`.
pub open spec fn columns_present(columns: Seq<Seq<char>>, n: int) -> bool {
    forall|i: int| 0 <= i < n ==> columns.contains(#[trigger] required_columns()[i])
}

/// A connection is ready for the repository: its schema is at the latest
/// version, and the node table is there with its columns.
pub open spec fn connection_ready(actual_version: u32, table_exists: bool, columns: Seq<Seq<char>>) -> bool {
    actual_version == 8 && table_exists && columns_present(columns, 9)
}

fn column_names() -> (r: Vec<&'static str>)
    ensures
        r@.len() == 9,
        forall|i: int| 0 <= i < 9 ==> (#[trigger] r@[i])@ == required_columns()[i],
{
    let mut r: Vec<&'static str> = Vec::new();
    r.push("node_uuid");
    r.push("kind");
    r.push("parent_uuid");
    r.push("atom_uuid");
    r.push("display_name");
    r.push("sort_order");
    r.push("is_deleted");
    r.push("created_at");
    r.push("updated_at");
    r
}

/// Checks what was read of a connection before a repository is built on
/// it: the schema version, whether the node table exists, and the names
/// of its columns. The first thing that is not as it must be is the error:
/// the version, then the table, then the first missing column.
#[verifier::loop_isolation(false)]
pub fn ensure_tree_connection_ready(actual_version: u32, table_exists: bool, columns: &Vec<String>) -> (r:
    Result<(), TreeRepoError>)
    ensures
        r is Ok <==> connection_ready(actual_version, table_exists, texts(columns@)),
        match r {
            Ok(()) => true,
            Err(e) => if actual_version != 8 {
                e == (TreeRepoError::UninitializedConnection { expected_version: 8, actual_version })
            } else if !table_exists {
                e is MissingRequiredTable && e->MissingRequiredTable_0@ == "workspace_nodes"@
            } else {
                e is MissingRequiredColumn && e->table@ == "workspace_nodes"@ && exists|i: int|
                    0 <= i < 9 && e->column@ == #[trigger] required_columns()[i] && columns_present(
                        texts(columns@),
                        i,
                    ) && !texts(columns@).contains(required_columns()[i])
            },
        },
{
    let expected_version = latest_version();
    if actual_version != expected_version {
        return Err(TreeRepoError::UninitializedConnection { expected_version, actual_version });
    }
    if !table_exists {
        return Err(TreeRepoError::MissingRequiredTable("workspace_nodes"));
    }
    let names = column_names();
    let mut i: usize = 0;
    while i < names.len()
        invariant
            i <= names.len(),
            names@.len() == 9,
            forall|k: int| 0 <= k < 9 ==> (#[trigger] names@[k])@ == required_columns()[k],
            columns_present(texts(columns@), i as int),
        decreases names.len() - i,
    {
        if !has_text(columns, names[i]) {
            let e = TreeRepoError::MissingRequiredColumn { table: "workspace_nodes", column: names[i] };
            proof {
                let at = i as int;
                assert(names@[at]@ == required_columns()[at]);
                assert(0 <= at < 9 && e->column@ == required_columns()[at] && columns_present(
                    texts(columns@),
                    at,
                ) && !texts(columns@).contains(required_columns()[at]));
            }
            return Err(e);
        }
        i += 1;
    }
    Ok(())
}

} // verus!
