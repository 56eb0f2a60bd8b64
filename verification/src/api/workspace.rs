//! The workspace tree as callers outside the core see it: ids as text,
//! answers as envelopes with a stable error code.
//!
//! Every entry point here takes the tree service it works on, reads its
//! arguments, asks the service, and wraps what comes back.

use vstd::prelude::*;
use crate::text::optional_text;
use crate::db::DbError;
use crate::db::db_error_text;
use crate::db::failure_busy;
use crate::model::uuid::read_uuid;
use crate::model::uuid::text_of_uuid;
use crate::model::uuid::uuid_of_text;
use crate::model::uuid::write_uuid;
use crate::outside::same_text;
use crate::text::trim;
use crate::repo::tree_repo::TreeRepoError;
use crate::repo::tree_repo::TreeRepository;
use crate::repo::tree_repo::WorkspaceNode;
use crate::repo::tree_repo::created;
use crate::repo::tree_repo::kind_text;
use crate::repo::tree_repo::rows_of;
use crate::repo::tree_repo::workspace_kind_to_db;
use crate::repo::tree_state::NodeRow;
use crate::repo::tree_state::WorkspaceNodeKind;
use crate::service::tree_service::FolderDeleteMode;
use crate::service::tree_service::TreeService;
use crate::service::tree_service::TreeServiceError;
use crate::service::tree_service::after_delete;
use crate::service::tree_service::create_folder_rejection;
use crate::service::tree_service::create_note_ref_rejection;
use crate::service::tree_service::delete_rejection;
use crate::service::tree_service::engine_failure;
use crate::service::tree_service::move_rejection;
use crate::service::tree_service::note_ref_name;
use crate::service::tree_service::parent_rejection;
use crate::service::tree_service::rejected_as;
use crate::service::tree_service::rename_rejection;
use crate::text::text_of;
use crate::text::blank;
use crate::text::decimal;
use crate::text::decimal_count;
use crate::text::decimal_text;
use crate::text::join2;
use crate::text::join3;
use crate::text::trimmed;

verus! {

/// Workspace action response envelope.
#[derive(Debug, Clone, PartialEq, Eq)]
pub struct WorkspaceActionResponse {
    /// Whether operation succeeded.
    pub ok: bool,
    /// Stable machine-readable error code for failure paths.
    pub error_code: Option<String>,
    /// Human-readable message for diagnostics/UI.
    pub message: String,
}

/// Workspace tree node as callers see it.
#[derive(Debug, Clone, PartialEq, Eq)]
pub struct WorkspaceNodeItem {
    /// Stable workspace node id.
    pub node_id: String,
    /// Node kind label (`folder|note_ref`).
    pub kind: String,
    /// Parent node id for non-root nodes.
    pub parent_node_id: Option<String>,
    /// Target note atom id for note_ref nodes.
    pub atom_id: Option<String>,
    /// User-facing display name.
    pub display_name: String,
    /// Deterministic sibling order key.
    pub sort_order: i64,
}

/// Workspace single-node response envelope.
#[derive(Debug, Clone, PartialEq, Eq)]
pub struct WorkspaceNodeResponse {
    /// Whether operation succeeded.
    pub ok: bool,
    /// Stable machine-readable error code for failure paths.
    pub error_code: Option<String>,
    /// Human-readable message for diagnostics/UI.
    pub message: String,
    /// Returned node payload on success.
    pub node: Option<WorkspaceNodeItem>,
}

/// Workspace children-list response envelope.
#[derive(Debug, Clone, PartialEq, Eq)]
pub struct WorkspaceListChildrenResponse {
    /// Whether operation succeeded.
    pub ok: bool,
    /// Stable machine-readable error code for failure paths.
    pub error_code: Option<String>,
    /// Human-readable message for diagnostics/UI.
    pub message: String,
    /// Child nodes in deterministic order.
    pub items: Vec<WorkspaceNodeItem>,
}

/// An action response as characters.
pub struct ActionView {
    pub ok: bool,
    pub error_code: Option<Seq<char>>,
    pub message: Seq<char>,
}

/// A node item as characters.
pub struct NodeItemView {
    pub node_id: Seq<char>,
    pub kind: Seq<char>,
    pub parent_node_id: Option<Seq<char>>,
    pub atom_id: Option<Seq<char>>,
    pub display_name: Seq<char>,
    pub sort_order: i64,
}

/// A node response as characters.
pub struct NodeResponseView {
    pub ok: bool,
    pub error_code: Option<Seq<char>>,
    pub message: Seq<char>,
    pub node: Option<NodeItemView>,
}

/// A list response as characters.
pub struct ListResponseView {
    pub ok: bool,
    pub error_code: Option<Seq<char>>,
    pub message: Seq<char>,
    pub items: Seq<NodeItemView>,
}

impl View for WorkspaceActionResponse {
    type V = ActionView;

    open spec fn view(&self) -> ActionView {
        ActionView { ok: self.ok, error_code: optional_text(self.error_code), message: self.message@ }
    }
}

impl View for WorkspaceNodeItem {
    type V = NodeItemView;

    open spec fn view(&self) -> NodeItemView {
        NodeItemView {
            node_id: self.node_id@,
            kind: self.kind@,
            parent_node_id: optional_text(self.parent_node_id),
            atom_id: optional_text(self.atom_id),
            display_name: self.display_name@,
            sort_order: self.sort_order,
        }
    }
}

/// The view of an optional node item.
pub open spec fn optional_item(value: Option<WorkspaceNodeItem>) -> Option<NodeItemView> {
    match value {
        Some(item) => Some(item@),
        None => None,
    }
}

/// The views of node items.
pub open spec fn item_views(items: Seq<WorkspaceNodeItem>) -> Seq<NodeItemView> {
    items.map_values(|item: WorkspaceNodeItem| item@)
}

impl View for WorkspaceNodeResponse {
    type V = NodeResponseView;

    open spec fn view(&self) -> NodeResponseView {
        NodeResponseView {
            ok: self.ok,
            error_code: optional_text(self.error_code),
            message: self.message@,
            node: optional_item(self.node),
        }
    }
}

impl View for WorkspaceListChildrenResponse {
    type V = ListResponseView;

    open spec fn view(&self) -> ListResponseView {
        ListResponseView {
            ok: self.ok,
            error_code: optional_text(self.error_code),
            message: self.message@,
            items: item_views(self.items@),
        }
    }
}

/// Why a workspace call failed, as callers are told.
#[derive(Debug, Clone, PartialEq, Eq)]
pub enum WorkspaceFfiError {
    InvalidNodeId(String),
    InvalidParentNodeId(String),
    InvalidAtomId(String),
    InvalidDisplayName(String),
    InvalidDeleteMode(String),
    NodeNotFound(String),
    ParentNotFound(String),
    NodeNotFolder(String),
    ParentNotFolder(String),
    AtomNotFound(String),
    AtomNotNote(String),
    CycleDetected(String),
    DbBusy(String),
    DbError(String),
    Internal(String),
}

/// A failure with its detail as characters.
pub enum WorkspaceIssue {
    InvalidNodeId(Seq<char>),
    InvalidParentNodeId(Seq<char>),
    InvalidAtomId(Seq<char>),
    InvalidDisplayName(Seq<char>),
    InvalidDeleteMode(Seq<char>),
    NodeNotFound(Seq<char>),
    ParentNotFound(Seq<char>),
    NodeNotFolder(Seq<char>),
    ParentNotFolder(Seq<char>),
    AtomNotFound(Seq<char>),
    AtomNotNote(Seq<char>),
    CycleDetected(Seq<char>),
    DbBusy(Seq<char>),
    DbError(Seq<char>),
    Internal(Seq<char>),
}

impl View for WorkspaceFfiError {
    type V = WorkspaceIssue;

    open spec fn view(&self) -> WorkspaceIssue {
        match self {
            WorkspaceFfiError::InvalidNodeId(v) => WorkspaceIssue::InvalidNodeId(v@),
            WorkspaceFfiError::InvalidParentNodeId(v) => WorkspaceIssue::InvalidParentNodeId(v@),
            WorkspaceFfiError::InvalidAtomId(v) => WorkspaceIssue::InvalidAtomId(v@),
            WorkspaceFfiError::InvalidDisplayName(v) => WorkspaceIssue::InvalidDisplayName(v@),
            WorkspaceFfiError::InvalidDeleteMode(v) => WorkspaceIssue::InvalidDeleteMode(v@),
            WorkspaceFfiError::NodeNotFound(v) => WorkspaceIssue::NodeNotFound(v@),
            WorkspaceFfiError::ParentNotFound(v) => WorkspaceIssue::ParentNotFound(v@),
            WorkspaceFfiError::NodeNotFolder(v) => WorkspaceIssue::NodeNotFolder(v@),
            WorkspaceFfiError::ParentNotFolder(v) => WorkspaceIssue::ParentNotFolder(v@),
            WorkspaceFfiError::AtomNotFound(v) => WorkspaceIssue::AtomNotFound(v@),
            WorkspaceFfiError::AtomNotNote(v) => WorkspaceIssue::AtomNotNote(v@),
            WorkspaceFfiError::CycleDetected(v) => WorkspaceIssue::CycleDetected(v@),
            WorkspaceFfiError::DbBusy(v) => WorkspaceIssue::DbBusy(v@),
            WorkspaceFfiError::DbError(v) => WorkspaceIssue::DbError(v@),
            WorkspaceFfiError::Internal(v) => WorkspaceIssue::Internal(v@),
        }
    }
}

/// The stable code of a failure.
pub open spec fn issue_code(e: WorkspaceIssue) -> Seq<char> {
    match e {
        WorkspaceIssue::InvalidNodeId(_) => "invalid_node_id"@,
        WorkspaceIssue::InvalidParentNodeId(_) => "invalid_parent_node_id"@,
        WorkspaceIssue::InvalidAtomId(_) => "invalid_atom_id"@,
        WorkspaceIssue::InvalidDisplayName(_) => "invalid_display_name"@,
        WorkspaceIssue::InvalidDeleteMode(_) => "invalid_delete_mode"@,
        WorkspaceIssue::NodeNotFound(_) => "node_not_found"@,
        WorkspaceIssue::ParentNotFound(_) => "parent_not_found"@,
        WorkspaceIssue::NodeNotFolder(_) => "node_not_folder"@,
        WorkspaceIssue::ParentNotFolder(_) => "parent_not_folder"@,
        WorkspaceIssue::AtomNotFound(_) => "atom_not_found"@,
        WorkspaceIssue::AtomNotNote(_) => "atom_not_note"@,
        WorkspaceIssue::CycleDetected(_) => "cycle_detected"@,
        WorkspaceIssue::DbBusy(_) => "db_busy"@,
        WorkspaceIssue::DbError(_) => "db_error"@,
        WorkspaceIssue::Internal(_) => "internal_error"@,
    }
}

/// The message of a failure.
pub open spec fn issue_message(e: WorkspaceIssue) -> Seq<char> {
    match e {
        WorkspaceIssue::InvalidNodeId(v) => "invalid node id: "@ + v,
        WorkspaceIssue::InvalidParentNodeId(v) => "invalid parent node id: "@ + v,
        WorkspaceIssue::InvalidAtomId(v) => "invalid atom id: "@ + v,
        WorkspaceIssue::InvalidDisplayName(v) => "invalid display name: "@ + v,
        WorkspaceIssue::InvalidDeleteMode(v) => "invalid delete mode: "@ + v
            + ", expected dissolve|delete_all"@,
        WorkspaceIssue::NodeNotFound(v) => "workspace node not found: "@ + v,
        WorkspaceIssue::ParentNotFound(v) => "workspace parent not found: "@ + v,
        WorkspaceIssue::NodeNotFolder(v) => "workspace node is not a folder: "@ + v,
        WorkspaceIssue::ParentNotFolder(v) => "workspace parent is not a folder: "@ + v,
        WorkspaceIssue::AtomNotFound(v) => "workspace atom not found: "@ + v,
        WorkspaceIssue::AtomNotNote(v) => "workspace atom is not a note: "@ + v,
        WorkspaceIssue::CycleDetected(v) => "workspace cycle detected: "@ + v,
        WorkspaceIssue::DbBusy(v) => "workspace database busy: "@ + v,
        WorkspaceIssue::DbError(v) => "workspace database error: "@ + v,
        WorkspaceIssue::Internal(v) => "workspace internal error: "@ + v,
    }
}

impl WorkspaceFfiError {
    /// The stable code of this failure.
    pub fn code(&self) -> (r: &'static str)
        ensures
            r@ == issue_code(self@),
    {
        match self {
            WorkspaceFfiError::InvalidNodeId(_) => "invalid_node_id",
            WorkspaceFfiError::InvalidParentNodeId(_) => "invalid_parent_node_id",
            WorkspaceFfiError::InvalidAtomId(_) => "invalid_atom_id",
            WorkspaceFfiError::InvalidDisplayName(_) => "invalid_display_name",
            WorkspaceFfiError::InvalidDeleteMode(_) => "invalid_delete_mode",
            WorkspaceFfiError::NodeNotFound(_) => "node_not_found",
            WorkspaceFfiError::ParentNotFound(_) => "parent_not_found",
            WorkspaceFfiError::NodeNotFolder(_) => "node_not_folder",
            WorkspaceFfiError::ParentNotFolder(_) => "parent_not_folder",
            WorkspaceFfiError::AtomNotFound(_) => "atom_not_found",
            WorkspaceFfiError::AtomNotNote(_) => "atom_not_note",
            WorkspaceFfiError::CycleDetected(_) => "cycle_detected",
            WorkspaceFfiError::DbBusy(_) => "db_busy",
            WorkspaceFfiError::DbError(_) => "db_error",
            WorkspaceFfiError::Internal(_) => "internal_error",
        }
    }

    /// The message of this failure.
    pub fn message(&self) -> (r: String)
        ensures
            r@ == issue_message(self@),
    {
        match self {
            WorkspaceFfiError::InvalidNodeId(v) => join2("invalid node id: ", v.as_str()),
            WorkspaceFfiError::InvalidParentNodeId(v) => join2("invalid parent node id: ", v.as_str()),
            WorkspaceFfiError::InvalidAtomId(v) => join2("invalid atom id: ", v.as_str()),
            WorkspaceFfiError::InvalidDisplayName(v) => join2("invalid display name: ", v.as_str()),
            WorkspaceFfiError::InvalidDeleteMode(v) => join3(
                "invalid delete mode: ",
                v.as_str(),
                ", expected dissolve|delete_all",
            ),
            WorkspaceFfiError::NodeNotFound(v) => join2("workspace node not found: ", v.as_str()),
            WorkspaceFfiError::ParentNotFound(v) => join2("workspace parent not found: ", v.as_str()),
            WorkspaceFfiError::NodeNotFolder(v) => join2("workspace node is not a folder: ", v.as_str()),
            WorkspaceFfiError::ParentNotFolder(v) => join2(
                "workspace parent is not a folder: ",
                v.as_str(),
            ),
            WorkspaceFfiError::AtomNotFound(v) => join2("workspace atom not found: ", v.as_str()),
            WorkspaceFfiError::AtomNotNote(v) => join2("workspace atom is not a note: ", v.as_str()),
            WorkspaceFfiError::CycleDetected(v) => join2("workspace cycle detected: ", v.as_str()),
            WorkspaceFfiError::DbBusy(v) => join2("workspace database busy: ", v.as_str()),
            WorkspaceFfiError::DbError(v) => join2("workspace database error: ", v.as_str()),
            WorkspaceFfiError::Internal(v) => join2("workspace internal error: ", v.as_str()),
        }
    }
}

/// Whether a database error tells of a busy or locked engine.
pub open spec fn db_busy(e: DbError) -> bool {
    e is Sqlite && failure_busy(e->Sqlite_0)
}

/// Whether a database error tells of a busy or locked engine.
pub fn is_db_busy(err: &DbError) -> (r: bool)
    ensures
        r == db_busy(*err),
{
    match err {
        DbError::Sqlite(failure) => failure.is_busy(),
        _ => false,
    }
}

/// How a database error is told to callers.
pub open spec fn db_issue(e: DbError) -> WorkspaceIssue {
    if db_busy(e) {
        WorkspaceIssue::DbBusy(db_error_text(e))
    } else {
        WorkspaceIssue::DbError(db_error_text(e))
    }
}

/// How a repository error is told to callers.
pub open spec fn repo_issue(e: TreeRepoError) -> WorkspaceIssue {
    match e {
        TreeRepoError::Db(err) => db_issue(err),
        TreeRepoError::NodeNotFound(id) => WorkspaceIssue::NodeNotFound(text_of_uuid(id)),
        TreeRepoError::NodeNotFolder(id) => WorkspaceIssue::NodeNotFolder(text_of_uuid(id)),
        TreeRepoError::UninitializedConnection { expected_version, actual_version } => WorkspaceIssue::DbError(
            "repository requires schema "@ + decimal_text(expected_version as int) + ", got "@
                + decimal_text(actual_version as int),
        ),
        TreeRepoError::MissingRequiredTable(table) => WorkspaceIssue::DbError(
            "missing required table `"@ + table@ + "`"@,
        ),
        TreeRepoError::MissingRequiredColumn { table, column } => WorkspaceIssue::DbError(
            "missing required column `"@ + column@ + "` in table `"@ + table@ + "`"@,
        ),
        TreeRepoError::InvalidData(details) => WorkspaceIssue::Internal(details@),
    }
}

/// How a service error is told to callers.
pub open spec fn service_issue(e: TreeServiceError) -> WorkspaceIssue {
    match e {
        TreeServiceError::InvalidDisplayName => WorkspaceIssue::InvalidDisplayName(
            "display name must not be blank"@,
        ),
        TreeServiceError::NodeNotFound(id) => WorkspaceIssue::NodeNotFound(text_of_uuid(id)),
        TreeServiceError::ParentNotFound(id) => WorkspaceIssue::ParentNotFound(text_of_uuid(id)),
        TreeServiceError::ParentMustBeFolder(id) => WorkspaceIssue::ParentNotFolder(text_of_uuid(id)),
        TreeServiceError::NodeMustBeFolder(id) => WorkspaceIssue::NodeNotFolder(text_of_uuid(id)),
        TreeServiceError::AtomNotFound(id) => WorkspaceIssue::AtomNotFound(text_of_uuid(id)),
        TreeServiceError::AtomNotNote(id) => WorkspaceIssue::AtomNotNote(text_of_uuid(id)),
        TreeServiceError::CycleDetected { node_uuid, parent_uuid } => WorkspaceIssue::CycleDetected(
            "node="@ + text_of_uuid(node_uuid) + " parent="@ + text_of_uuid(parent_uuid),
        ),
        TreeServiceError::Repo(err) => repo_issue(err),
    }
}

/// Tells a database error to callers.
pub fn map_workspace_db_error(err: DbError) -> (r: WorkspaceFfiError)
    ensures
        r@ == db_issue(err),
{
    if is_db_busy(&err) {
        WorkspaceFfiError::DbBusy(err.message())
    } else {
        WorkspaceFfiError::DbError(err.message())
    }
}

/// Tells a repository error to callers.
pub fn map_tree_repo_error(err: TreeRepoError) -> (r: WorkspaceFfiError)
    ensures
        r@ == repo_issue(err),
{
    match err {
        TreeRepoError::Db(db_err) => map_workspace_db_error(db_err),
        TreeRepoError::NodeNotFound(node_id) => WorkspaceFfiError::NodeNotFound(write_uuid(node_id)),
        TreeRepoError::NodeNotFolder(node_id) => WorkspaceFfiError::NodeNotFolder(write_uuid(node_id)),
        TreeRepoError::UninitializedConnection { expected_version, actual_version } => {
            let mut text = join3(
                "repository requires schema ",
                decimal(expected_version as i64).as_str(),
                ", got ",
            );
            text.append(decimal(actual_version as i64).as_str());
            WorkspaceFfiError::DbError(text)
        },
        TreeRepoError::MissingRequiredTable(table) => WorkspaceFfiError::DbError(
            join3("missing required table `", table, "`"),
        ),
        TreeRepoError::MissingRequiredColumn { table, column } => {
            let mut text = join3("missing required column `", column, "` in table `");
            text.append(table);
            text.append("`");
            WorkspaceFfiError::DbError(text)
        },
        TreeRepoError::InvalidData(details) => WorkspaceFfiError::Internal(details),
    }
}

/// Tells a service error to callers.
pub fn map_tree_service_error(err: TreeServiceError) -> (r: WorkspaceFfiError)
    ensures
        r@ == service_issue(err),
{
    match err {
        TreeServiceError::InvalidDisplayName => WorkspaceFfiError::InvalidDisplayName(
            "display name must not be blank".to_owned(),
        ),
        TreeServiceError::NodeNotFound(node_id) => WorkspaceFfiError::NodeNotFound(write_uuid(node_id)),
        TreeServiceError::ParentNotFound(node_id) => WorkspaceFfiError::ParentNotFound(
            write_uuid(node_id),
        ),
        TreeServiceError::ParentMustBeFolder(node_id) => WorkspaceFfiError::ParentNotFolder(
            write_uuid(node_id),
        ),
        TreeServiceError::NodeMustBeFolder(node_id) => WorkspaceFfiError::NodeNotFolder(
            write_uuid(node_id),
        ),
        TreeServiceError::AtomNotFound(atom_id) => WorkspaceFfiError::AtomNotFound(write_uuid(atom_id)),
        TreeServiceError::AtomNotNote(atom_id) => WorkspaceFfiError::AtomNotNote(write_uuid(atom_id)),
        TreeServiceError::CycleDetected { node_uuid, parent_uuid } => {
            let mut text = join3("node=", write_uuid(node_uuid).as_str(), " parent=");
            text.append(write_uuid(parent_uuid).as_str());
            WorkspaceFfiError::CycleDetected(text)
        },
        TreeServiceError::Repo(repo_err) => map_tree_repo_error(repo_err),
    }
}

/// The delete mode that `raw` names, trimmed: `dissolve` or `delete_all`.
pub open spec fn parsed_delete_mode(raw: Seq<char>) -> Result<FolderDeleteMode, WorkspaceIssue> {
    if trimmed(raw) == "dissolve"@ {
        Ok(FolderDeleteMode::Dissolve)
    } else if trimmed(raw) == "delete_all"@ {
        Ok(FolderDeleteMode::DeleteAll)
    } else {
        Err(WorkspaceIssue::InvalidDeleteMode(trimmed(raw)))
    }
}

/// The node id that `raw` writes, trimmed.
pub open spec fn parsed_node_id(raw: Seq<char>) -> Result<u128, WorkspaceIssue> {
    match uuid_of_text(trimmed(raw)) {
        Some(id) => Ok(id),
        None => Err(WorkspaceIssue::InvalidNodeId(raw)),
    }
}

/// The atom id that `raw` writes, trimmed.
pub open spec fn parsed_atom_id(raw: Seq<char>) -> Result<u128, WorkspaceIssue> {
    match uuid_of_text(trimmed(raw)) {
        Some(id) => Ok(id),
        None => Err(WorkspaceIssue::InvalidAtomId(raw)),
    }
}

/// The parent that `raw` names: the root level where there is no text,
/// else the node whose id the trimmed text writes.
pub open spec fn parsed_parent_id(raw: Option<Seq<char>>) -> Result<Option<u128>, WorkspaceIssue> {
    match raw {
        None => Ok(None),
        Some(value) => match uuid_of_text(trimmed(value)) {
            Some(id) if !blank(value) => Ok(Some(id)),
            _ => Err(WorkspaceIssue::InvalidParentNodeId(value)),
        },
    }
}

/// Reads a delete mode.
pub fn parse_folder_delete_mode(raw: &str) -> (r: Result<FolderDeleteMode, WorkspaceFfiError>)
    ensures
        match r {
            Ok(mode) => parsed_delete_mode(raw@) == Ok::<FolderDeleteMode, WorkspaceIssue>(mode),
            Err(e) => parsed_delete_mode(raw@) == Err::<FolderDeleteMode, WorkspaceIssue>(e@),
        },
{
    let kept = trim(raw);
    if same_text(kept, "dissolve") {
        Ok(FolderDeleteMode::Dissolve)
    } else if same_text(kept, "delete_all") {
        Ok(FolderDeleteMode::DeleteAll)
    } else {
        Err(WorkspaceFfiError::InvalidDeleteMode(kept.to_owned()))
    }
}

/// Reads a node id.
pub fn parse_workspace_node_id(raw: &str) -> (r: Result<u128, WorkspaceFfiError>)
    ensures
        match r {
            Ok(id) => parsed_node_id(raw@) == Ok::<u128, WorkspaceIssue>(id),
            Err(e) => parsed_node_id(raw@) == Err::<u128, WorkspaceIssue>(e@),
        },
{
    match read_uuid(trim(raw)) {
        Some(id) => Ok(id),
        None => Err(WorkspaceFfiError::InvalidNodeId(raw.to_owned())),
    }
}

/// Reads an atom id.
pub fn parse_workspace_atom_id(raw: &str) -> (r: Result<u128, WorkspaceFfiError>)
    ensures
        match r {
            Ok(id) => parsed_atom_id(raw@) == Ok::<u128, WorkspaceIssue>(id),
            Err(e) => parsed_atom_id(raw@) == Err::<u128, WorkspaceIssue>(e@),
        },
{
    match read_uuid(trim(raw)) {
        Some(id) => Ok(id),
        None => Err(WorkspaceFfiError::InvalidAtomId(raw.to_owned())),
    }
}

/// Reads an optional parent id.
pub fn parse_optional_parent_node_id(raw: Option<&str>) -> (r: Result<Option<u128>, WorkspaceFfiError>)
    ensures
        match r {
            Ok(id) => parsed_parent_id(text_of(raw)) == Ok::<Option<u128>, WorkspaceIssue>(id),
            Err(e) => parsed_parent_id(text_of(raw)) == Err::<Option<u128>, WorkspaceIssue>(e@),
        },
{
    match raw {
        None => Ok(None),
        Some(value) => {
            let kept = trim(value);
            if kept.is_empty() {
                return Err(WorkspaceFfiError::InvalidParentNodeId(value.to_owned()));
            }
            match read_uuid(kept) {
                Some(id) => Ok(Some(id)),
                None => Err(WorkspaceFfiError::InvalidParentNodeId(value.to_owned())),
            }
        },
    }
}

/// The label of a node kind.
pub fn workspace_node_kind_label(kind: WorkspaceNodeKind) -> (r: &'static str)
    ensures
        r@ == kind_text(kind),
{
    workspace_kind_to_db(kind)
}

/// The writing of an optional id.
pub open spec fn optional_uuid_text(id: Option<u128>) -> Option<Seq<char>> {
    match id {
        Some(v) => Some(text_of_uuid(v)),
        None => None,
    }
}

/// A node as callers see it.
pub open spec fn node_item(n: NodeRow) -> NodeItemView {
    NodeItemView {
        node_id: text_of_uuid(n.node_uuid),
        kind: kind_text(n.kind),
        parent_node_id: optional_uuid_text(n.parent_uuid),
        atom_id: optional_uuid_text(n.atom_uuid),
        display_name: n.display_name,
        sort_order: n.sort_order,
    }
}

/// Nodes as callers see them.
pub open spec fn node_items(rows: Seq<NodeRow>) -> Seq<NodeItemView> {
    rows.map_values(|n: NodeRow| node_item(n))
}

fn write_optional_uuid(id: Option<u128>) -> (r: Option<String>)
    ensures
        optional_text(r) == optional_uuid_text(id),
{
    match id {
        Some(v) => Some(write_uuid(v)),
        None => None,
    }
}

/// Shows a node as callers see it.
pub fn to_workspace_node_item(node: WorkspaceNode) -> (r: WorkspaceNodeItem)
    ensures
        r@ == node_item(node@),
{
    WorkspaceNodeItem {
        node_id: write_uuid(node.node_uuid),
        kind: workspace_node_kind_label(node.kind).to_owned(),
        parent_node_id: write_optional_uuid(node.parent_uuid),
        atom_id: write_optional_uuid(node.atom_uuid),
        display_name: node.display_name,
        sort_order: node.sort_order,
    }
}

/// The envelope of a failed action.
pub open spec fn action_failure(e: WorkspaceIssue) -> ActionView {
    ActionView { ok: false, error_code: Some(issue_code(e)), message: issue_message(e) }
}

/// The envelope of an action that was done.
pub open spec fn action_done(message: Seq<char>) -> ActionView {
    ActionView { ok: true, error_code: None, message }
}

/// The envelope of a failed node call.
pub open spec fn node_failure(e: WorkspaceIssue) -> NodeResponseView {
    NodeResponseView { ok: false, error_code: Some(issue_code(e)), message: issue_message(e), node: None }
}

/// The envelope of a node call that gave a node.
pub open spec fn node_done(message: Seq<char>, n: NodeRow) -> NodeResponseView {
    NodeResponseView { ok: true, error_code: None, message, node: Some(node_item(n)) }
}

/// The envelope of a failed listing.
pub open spec fn list_failure(e: WorkspaceIssue) -> ListResponseView {
    ListResponseView {
        ok: false,
        error_code: Some(issue_code(e)),
        message: issue_message(e),
        items: Seq::empty(),
    }
}

/// The envelope of a listing.
pub open spec fn list_done(rows: Seq<NodeRow>) -> ListResponseView {
    ListResponseView {
        ok: true,
        error_code: None,
        message: "Loaded "@ + decimal_text(rows.len() as int) + " workspace node(s)."@,
        items: node_items(rows),
    }
}

/// Wraps a failure as an action response.
pub fn workspace_failure(error: WorkspaceFfiError) -> (r: WorkspaceActionResponse)
    ensures
        r@ == action_failure(error@),
{
    WorkspaceActionResponse {
        ok: false,
        error_code: Some(error.code().to_owned()),
        message: error.message(),
    }
}

/// Wraps a failure as a node response.
pub fn workspace_node_failure(error: WorkspaceFfiError) -> (r: WorkspaceNodeResponse)
    ensures
        r@ == node_failure(error@),
{
    WorkspaceNodeResponse {
        ok: false,
        error_code: Some(error.code().to_owned()),
        message: error.message(),
        node: None,
    }
}

/// Wraps a failure as a list response.
pub fn workspace_list_failure(error: WorkspaceFfiError) -> (r: WorkspaceListChildrenResponse)
    ensures
        r@ == list_failure(error@),
{
    let r = WorkspaceListChildrenResponse {
        ok: false,
        error_code: Some(error.code().to_owned()),
        message: error.message(),
        items: Vec::new(),
    };
    assert(r@.items =~= Seq::empty());
    r
}

fn action_ok(message: &str) -> (r: WorkspaceActionResponse)
    ensures
        r@ == action_done(message@),
{
    WorkspaceActionResponse { ok: true, error_code: None, message: message.to_owned() }
}

/// A failed call answers with what a service error, or a failure of the
/// engine where it can fail, is told as.
pub open spec fn told_as(may_fail: bool, expected: Option<TreeServiceError>, issue: WorkspaceIssue) -> bool {
    exists|e: TreeServiceError| rejected_as(may_fail, expected, e) && issue == #[trigger] service_issue(e)
}

/// A failed create answers with what a service error is told as, or with a
/// failure of the engine.
pub open spec fn create_told_as(may_fail: bool, expected: Option<TreeServiceError>, issue: WorkspaceIssue) -> bool {
    exists|e: TreeServiceError|
        (rejected_as(may_fail, expected, e) || (expected is None && engine_failure(e))) && issue
            == #[trigger] service_issue(e)
}

/// Lists workspace child nodes under optional parent. `parent_node_id` is
/// an optional id as text; `None` lists root-level nodes.
pub fn workspace_list_children_impl<R: TreeRepository>(
    service: &TreeService<R>,
    parent_node_id: Option<&str>,
) -> (r: WorkspaceListChildrenResponse)
    requires
        service.inv(),
    ensures
        match parsed_parent_id(text_of(parent_node_id)) {
            Err(issue) => r@ == list_failure(issue),
            Ok(parent) => if r.ok {
                parent_rejection(service.state(), parent) is None && r@ == list_done(
                    service.state().listed(parent, false),
                )
            } else {
                exists|issue: WorkspaceIssue|
                    told_as(service.repo.may_fail(), parent_rejection(service.state(), parent), issue)
                        && r@ == #[trigger] list_failure(issue)
            },
        },
{
    let parsed_parent = match parse_optional_parent_node_id(parent_node_id) {
        Ok(value) => value,
        Err(err) => {
            return workspace_list_failure(err);
        },
    };
    match service.list_children(parsed_parent) {
        Ok(nodes) => {
            let ghost rows = rows_of(nodes@);
            let mut message = join3(
                "Loaded ",
                decimal_count(nodes.len()).as_str(),
                " workspace node(s).",
            );
            let mut items: Vec<WorkspaceNodeItem> = Vec::new();
            let mut remaining = nodes;
            let mut i: usize = 0;
            while i < remaining.len()
                invariant
                    i <= remaining.len(),
                    items.len() == i,
                    rows == rows_of(remaining@),
                    forall|k: int| 0 <= k < i ==> (#[trigger] items[k])@ == node_item(rows[k]),
                decreases remaining.len() - i,
            {
                items.push(to_workspace_node_item(remaining[i].duplicate()));
                i += 1;
            }
            let r = WorkspaceListChildrenResponse { ok: true, error_code: None, message, items };
            assert(r@.items =~= node_items(rows));
            r
        },
        Err(err) => {
            let told = map_tree_service_error(err);
            let ghost issue = told@;
            let r = workspace_list_failure(told);
            assert(told_as(service.repo.may_fail(), parent_rejection(service.state(), parsed_parent), issue))
                by {
                assert(issue == service_issue(err));
            }
            r
        },
    }
}

/// Creates one workspace folder under optional parent. `parent_node_id`
/// is an optional id as text; `None` creates a root-level folder.
pub fn workspace_create_folder_impl<R: TreeRepository>(
    service: &mut TreeService<R>,
    parent_node_id: Option<&str>,
    name: &str,
) -> (r: WorkspaceNodeResponse)
    requires
        old(service).inv(),
    ensures
        final(service).inv(),
        final(service).repo.may_fail() == old(service).repo.may_fail(),
        match parsed_parent_id(text_of(parent_node_id)) {
            Err(issue) => r@ == node_failure(issue) && final(service).state() == old(service).state(),
            Ok(parent) => if r.ok {
                exists|row: NodeRow|
                    #[trigger] created(
                        old(service).state(),
                        final(service).state(),
                        row,
                        WorkspaceNodeKind::Folder,
                        parent,
                        None,
                        trimmed(name@),
                    ) && r@ == node_done("Workspace folder created."@, row)
            } else {
                final(service).state() == old(service).state() && exists|issue: WorkspaceIssue|
                    create_told_as(
                        old(service).repo.may_fail(),
                        create_folder_rejection(old(service).state(), parent, name@),
                        issue,
                    ) && r@ == #[trigger] node_failure(issue)
            },
        },
{
    let parsed_parent = match parse_optional_parent_node_id(parent_node_id) {
        Ok(value) => value,
        Err(err) => {
            return workspace_node_failure(err);
        },
    };
    match service.create_folder(parsed_parent, name) {
        Ok(node) => {
            let ghost row = node@;
            let r = WorkspaceNodeResponse {
                ok: true,
                error_code: None,
                message: "Workspace folder created.".to_owned(),
                node: Some(to_workspace_node_item(node)),
            };
            assert(r@ == node_done("Workspace folder created."@, row));
            r
        },
        Err(err) => {
            let told = map_tree_service_error(err);
            let ghost issue = told@;
            let r = workspace_node_failure(told);
            assert(create_told_as(
                old(service).repo.may_fail(),
                create_folder_rejection(old(service).state(), parsed_parent, name@),
                issue,
            )) by {
                assert(issue == service_issue(err));
            }
            r
        },
    }
}

/// Creates one workspace note reference under optional parent. `atom_id`
/// must be the id, as text, of a note atom.
pub fn workspace_create_note_ref_impl<R: TreeRepository>(
    service: &mut TreeService<R>,
    parent_node_id: Option<&str>,
    atom_id: &str,
    display_name: Option<&str>,
) -> (r: WorkspaceNodeResponse)
    requires
        old(service).inv(),
    ensures
        final(service).inv(),
        final(service).repo.may_fail() == old(service).repo.may_fail(),
        match (parsed_parent_id(text_of(parent_node_id)), parsed_atom_id(atom_id@)) {
            (Err(issue), _) => r@ == node_failure(issue) && final(service).state() == old(
                service,
            ).state(),
            (Ok(_), Err(issue)) => r@ == node_failure(issue) && final(service).state() == old(
                service,
            ).state(),
            (Ok(parent), Ok(atom)) => if r.ok {
                exists|row: NodeRow|
                    #[trigger] created(
                        old(service).state(),
                        final(service).state(),
                        row,
                        WorkspaceNodeKind::NoteRef,
                        parent,
                        Some(atom),
                        note_ref_name(text_of(display_name)),
                    ) && r@ == node_done("Workspace note reference created."@, row)
            } else {
                final(service).state() == old(service).state() && exists|issue: WorkspaceIssue|
                    create_told_as(
                        old(service).repo.may_fail(),
                        create_note_ref_rejection(
                            old(service).state(),
                            parent,
                            atom,
                            text_of(display_name),
                        ),
                        issue,
                    ) && r@ == #[trigger] node_failure(issue)
            },
        },
{
    let parsed_parent = match parse_optional_parent_node_id(parent_node_id) {
        Ok(value) => value,
        Err(err) => {
            return workspace_node_failure(err);
        },
    };
    let parsed_atom_id = match parse_workspace_atom_id(atom_id) {
        Ok(value) => value,
        Err(err) => {
            return workspace_node_failure(err);
        },
    };
    match service.create_note_ref(parsed_parent, parsed_atom_id, display_name) {
        Ok(node) => {
            let ghost row = node@;
            let r = WorkspaceNodeResponse {
                ok: true,
                error_code: None,
                message: "Workspace note reference created.".to_owned(),
                node: Some(to_workspace_node_item(node)),
            };
            assert(r@ == node_done("Workspace note reference created."@, row));
            r
        },
        Err(err) => {
            let told = map_tree_service_error(err);
            let ghost issue = told@;
            let r = workspace_node_failure(told);
            assert(create_told_as(
                old(service).repo.may_fail(),
                create_note_ref_rejection(
                    old(service).state(),
                    parsed_parent,
                    parsed_atom_id,
                    text_of(display_name),
                ),
                issue,
            )) by {
                assert(issue == service_issue(err));
            }
            r
        },
    }
}

/// Renames one workspace node. `node_id` must be an id as text.
pub fn workspace_rename_node_impl<R: TreeRepository>(
    service: &mut TreeService<R>,
    node_id: &str,
    new_name: &str,
) -> (r: WorkspaceActionResponse)
    requires
        old(service).inv(),
    ensures
        final(service).inv(),
        final(service).repo.may_fail() == old(service).repo.may_fail(),
        match parsed_node_id(node_id@) {
            Err(issue) => r@ == action_failure(issue) && final(service).state() == old(service).state(),
            Ok(id) => if r.ok {
                r@ == action_done("Workspace node renamed."@) && rename_rejection(
                    old(service).state(),
                    id,
                    new_name@,
                ) is None && exists|now: i64|
                    final(service).state() == #[trigger] old(service).state().after_rename(
                        id,
                        trimmed(new_name@),
                        now,
                    )
            } else {
                final(service).state() == old(service).state() && exists|issue: WorkspaceIssue|
                    told_as(
                        old(service).repo.may_fail(),
                        rename_rejection(old(service).state(), id, new_name@),
                        issue,
                    ) && r@ == #[trigger] action_failure(issue)
            },
        },
{
    let parsed_id = match parse_workspace_node_id(node_id) {
        Ok(value) => value,
        Err(err) => {
            return workspace_failure(err);
        },
    };
    match service.rename_node(parsed_id, new_name) {
        Ok(()) => action_ok("Workspace node renamed."),
        Err(err) => {
            let told = map_tree_service_error(err);
            let ghost issue = told@;
            let r = workspace_failure(told);
            assert(told_as(
                old(service).repo.may_fail(),
                rename_rejection(old(service).state(), parsed_id, new_name@),
                issue,
            )) by {
                assert(issue == service_issue(err));
            }
            r
        },
    }
}

/// Moves one workspace node under optional new parent and target order.
/// `new_parent_id = None` moves the node to root level.
pub fn workspace_move_node_impl<R: TreeRepository>(
    service: &mut TreeService<R>,
    node_id: &str,
    new_parent_id: Option<&str>,
    target_order: Option<i64>,
) -> (r: WorkspaceActionResponse)
    requires
        old(service).inv(),
    ensures
        final(service).inv(),
        final(service).repo.may_fail() == old(service).repo.may_fail(),
        match (parsed_node_id(node_id@), parsed_parent_id(text_of(new_parent_id))) {
            (Err(issue), _) => r@ == action_failure(issue) && final(service).state() == old(
                service,
            ).state(),
            (Ok(_), Err(issue)) => r@ == action_failure(issue) && final(service).state() == old(
                service,
            ).state(),
            (Ok(id), Ok(parent)) => if r.ok {
                r@ == action_done("Workspace node moved."@) && move_rejection(
                    old(service).state(),
                    id,
                    parent,
                ) is None && final(service).state().dense(parent) && exists|now: i64|
                    final(service).state() == #[trigger] old(service).state().after_move(
                        id,
                        parent,
                        target_order,
                        now,
                    )
            } else {
                final(service).state() == old(service).state() && exists|issue: WorkspaceIssue|
                    told_as(
                        old(service).repo.may_fail(),
                        move_rejection(old(service).state(), id, parent),
                        issue,
                    ) && r@ == #[trigger] action_failure(issue)
            },
        },
{
    let parsed_id = match parse_workspace_node_id(node_id) {
        Ok(value) => value,
        Err(err) => {
            return workspace_failure(err);
        },
    };
    let parsed_parent = match parse_optional_parent_node_id(new_parent_id) {
        Ok(value) => value,
        Err(err) => {
            return workspace_failure(err);
        },
    };
    match service.move_node(parsed_id, parsed_parent, target_order) {
        Ok(()) => action_ok("Workspace node moved."),
        Err(err) => {
            let told = map_tree_service_error(err);
            let ghost issue = told@;
            let r = workspace_failure(told);
            assert(told_as(
                old(service).repo.may_fail(),
                move_rejection(old(service).state(), parsed_id, parsed_parent),
                issue,
            )) by {
                assert(issue == service_issue(err));
            }
            r
        },
    }
}

/// Deletes one workspace folder by explicit mode (`dissolve|delete_all`).
/// `node_id` must be the id, as text, of a folder node.
pub fn workspace_delete_folder_impl<R: TreeRepository>(
    service: &mut TreeService<R>,
    node_id: &str,
    mode: &str,
) -> (r: WorkspaceActionResponse)
    requires
        old(service).inv(),
    ensures
        final(service).inv(),
        final(service).repo.may_fail() == old(service).repo.may_fail(),
        match (parsed_node_id(node_id@), parsed_delete_mode(mode@)) {
            (Err(issue), _) => r@ == action_failure(issue) && final(service).state() == old(
                service,
            ).state(),
            (Ok(_), Err(issue)) => r@ == action_failure(issue) && final(service).state() == old(
                service,
            ).state(),
            (Ok(id), Ok(how)) => if r.ok {
                r@ == action_done("Workspace folder deleted."@) && delete_rejection(
                    old(service).state(),
                    id,
                    how,
                ) is None && exists|now: i64|
                    final(service).state() == #[trigger] after_delete(
                        old(service).state(),
                        id,
                        how,
                        now,
                    )
            } else {
                final(service).state() == old(service).state() && exists|issue: WorkspaceIssue|
                    told_as(
                        old(service).repo.may_fail(),
                        delete_rejection(old(service).state(), id, how),
                        issue,
                    ) && r@ == #[trigger] action_failure(issue)
            },
        },
{
    let parsed_id = match parse_workspace_node_id(node_id) {
        Ok(value) => value,
        Err(err) => {
            return workspace_failure(err);
        },
    };
    let parsed_mode = match parse_folder_delete_mode(mode) {
        Ok(value) => value,
        Err(err) => {
            return workspace_failure(err);
        },
    };
    match service.delete_folder(parsed_id, parsed_mode) {
        Ok(()) => action_ok("Workspace folder deleted."),
        Err(err) => {
            let told = map_tree_service_error(err);
            let ghost issue = told@;
            let r = workspace_failure(told);
            assert(told_as(
                old(service).repo.may_fail(),
                delete_rejection(old(service).state(), parsed_id, parsed_mode),
                issue,
            )) by {
                assert(issue == service_issue(err));
            }
            r
        },
    }
}

} // verus!
