//! Atom queries, and how atom kinds and task states are written in storage.

use vstd::prelude::*;
use crate::text::optional_text;
use crate::db::DbError;
use crate::db::db_error_text;
use crate::model::atom::Atom;
use crate::model::atom::AtomId;
use crate::model::atom::AtomValidationError;
use crate::model::atom::atom_error_text;
use crate::model::atom::atom_issue;
use crate::model::uuid::read_uuid;
use crate::model::uuid::text_of_uuid;
use crate::model::uuid::uuid_of_text;
use crate::model::uuid::write_uuid;
use crate::text::decimal;
use crate::text::decimal_text;
use crate::text::join2;
use crate::text::join3;
use crate::model::atom::AtomType;
use crate::model::atom::TaskStatus;
use crate::outside::same_text;
use crate::db::migrations::latest_version;
use crate::repo::schema::bind_views;
use crate::text::texts;
use crate::repo::schema::first_missing;
use crate::repo::schema::name_texts;
use crate::repo::schema::present;
use crate::repo::schema::BindValue;
use crate::repo::schema::BindView;
use crate::repo::schema::Statement;

verus! {

/// Query options for listing atoms.
#[derive(Debug, Clone, Default)]
pub struct AtomListQuery {
    /// Optional filter by atom kind.
    pub kind: Option<AtomType>,
    /// Whether soft-deleted rows should be included.
    pub include_deleted: bool,
    /// Maximum rows to return. When `None`, no explicit limit is applied.
    pub limit: Option<u32>,
    /// Number of rows to skip from the sorted result set.
    pub offset: u32,
}

/// How an atom kind is written in storage.
pub open spec fn atom_type_text(kind: AtomType) -> Seq<char> {
    match kind {
        AtomType::Note => "note"@,
        AtomType::Task => "task"@,
        AtomType::Event => "event"@,
    }
}

/// How a task state is written in storage.
pub open spec fn task_status_text(status: TaskStatus) -> Seq<char> {
    match status {
        TaskStatus::Todo => "todo"@,
        TaskStatus::InProgress => "in_progress"@,
        TaskStatus::Done => "done"@,
        TaskStatus::Cancelled => "cancelled"@,
    }
}

/// The atom kind that `text` is the writing of, if it is one.
pub open spec fn atom_type_of(text: Seq<char>) -> Option<AtomType> {
    if text == atom_type_text(AtomType::Note) {
        Some(AtomType::Note)
    } else if text == atom_type_text(AtomType::Task) {
        Some(AtomType::Task)
    } else if text == atom_type_text(AtomType::Event) {
        Some(AtomType::Event)
    } else {
        None
    }
}

/// The task state that `text` is the writing of, if it is one.
pub open spec fn task_status_of(text: Seq<char>) -> Option<TaskStatus> {
    if text == task_status_text(TaskStatus::Todo) {
        Some(TaskStatus::Todo)
    } else if text == task_status_text(TaskStatus::InProgress) {
        Some(TaskStatus::InProgress)
    } else if text == task_status_text(TaskStatus::Done) {
        Some(TaskStatus::Done)
    } else if text == task_status_text(TaskStatus::Cancelled) {
        Some(TaskStatus::Cancelled)
    } else {
        None
    }
}

/// Reading back what was written gives the atom kind that was written.
pub proof fn lemma_atom_type_round_trip(kind: AtomType)
    ensures
        atom_type_of(atom_type_text(kind)) == Some(kind),
{
    reveal_strlit("note");
    reveal_strlit("task");
    reveal_strlit("event");
    assert("note"@[0] == 'n');
    assert("task"@[0] == 't');
    assert("event"@[0] == 'e');
}

/// Reading back what was written gives the task state that was written.
pub proof fn lemma_task_status_round_trip(status: TaskStatus)
    ensures
        task_status_of(task_status_text(status)) == Some(status),
{
    reveal_strlit("todo");
    reveal_strlit("in_progress");
    reveal_strlit("done");
    reveal_strlit("cancelled");
    assert("todo"@[0] == 't');
    assert("in_progress"@[0] == 'i');
    assert("done"@[0] == 'd');
    assert("cancelled"@[0] == 'c');
}

pub fn atom_type_to_db(kind: AtomType) -> (r: &'static str)
    ensures
        r@ == atom_type_text(kind),
{
    match kind {
        AtomType::Note => "note",
        AtomType::Task => "task",
        AtomType::Event => "event",
    }
}

pub fn parse_atom_type(value: &str) -> (r: Option<AtomType>)
    ensures
        r == atom_type_of(value@),
{
    if same_text(value, "note") {
        Some(AtomType::Note)
    } else if same_text(value, "task") {
        Some(AtomType::Task)
    } else if same_text(value, "event") {
        Some(AtomType::Event)
    } else {
        None
    }
}

pub fn task_status_to_db(status: TaskStatus) -> (r: &'static str)
    ensures
        r@ == task_status_text(status),
{
    match status {
        TaskStatus::Todo => "todo",
        TaskStatus::InProgress => "in_progress",
        TaskStatus::Done => "done",
        TaskStatus::Cancelled => "cancelled",
    }
}

pub fn parse_task_status(value: &str) -> (r: Option<TaskStatus>)
    ensures
        r == task_status_of(value@),
{
    if same_text(value, "todo") {
        Some(TaskStatus::Todo)
    } else if same_text(value, "in_progress") {
        Some(TaskStatus::InProgress)
    } else if same_text(value, "done") {
        Some(TaskStatus::Done)
    } else if same_text(value, "cancelled") {
        Some(TaskStatus::Cancelled)
    } else {
        None
    }
}

/// How a flag is written in storage: 1 for true, 0 for false.
pub fn bool_to_int(value: bool) -> (r: i64)
    ensures
        r == (if value {
            1i64
        } else {
            0i64
        }),
{
    if value {
        1
    } else {
        0
    }
}

/// Result type used by atom repository operations.
pub type RepoResult<T> = Result<T, RepoError>;

/// Generic repository error for atom persistence and query operations.
#[derive(Debug, Clone, PartialEq, Eq)]
pub enum RepoError {
    /// Domain-level atom validation failed before a statement was run.
    Validation(AtomValidationError),
    /// Underlying database/bootstrap operation failed.
    Db(DbError),
    /// Requested atom does not exist.
    NotFound(AtomId),
    /// Connection is open but not initialized to expected migration version.
    UninitializedConnection { expected_version: u32, actual_version: u32 },
    /// Required table is missing from schema.
    MissingRequiredTable(&'static str),
    /// Required column is missing from a required table.
    MissingRequiredColumn { table: &'static str, column: &'static str },
    /// Persisted row exists but cannot be converted into a valid atom.
    InvalidData(String),
}

/// What a repository error says.
pub open spec fn atom_repo_error_text(e: RepoError) -> Seq<char> {
    match e {
        RepoError::Validation(err) => atom_error_text(err),
        RepoError::Db(err) => db_error_text(err),
        RepoError::NotFound(id) => "atom not found: "@ + text_of_uuid(id),
        RepoError::UninitializedConnection { expected_version, actual_version } => "repository requires migrated database schema version "@
            + decimal_text(expected_version as int) + ", got "@ + decimal_text(actual_version as int),
        RepoError::MissingRequiredTable(table) => "repository requires table `"@ + table@
            + "`, but it was not found"@,
        RepoError::MissingRequiredColumn { table, column } => "repository requires column `"@ + column@
            + "` in table `"@ + table@ + "`, but it was not found"@,
        RepoError::InvalidData(message) => "invalid persisted atom data: "@ + message@,
    }
}

impl RepoError {
    /// The message of this error.
    pub fn message(&self) -> (r: String)
        ensures
            r@ == atom_repo_error_text(*self),
    {
        match self {
            RepoError::Validation(err) => err.message(),
            RepoError::Db(err) => err.message(),
            RepoError::NotFound(id) => join2("atom not found: ", write_uuid(*id).as_str()),
            RepoError::UninitializedConnection { expected_version, actual_version } => {
                let mut r = join3(
                    "repository requires migrated database schema version ",
                    decimal(*expected_version as i64).as_str(),
                    ", got ",
                );
                r.append(decimal(*actual_version as i64).as_str());
                r
            },
            RepoError::MissingRequiredTable(table) => join3(
                "repository requires table `",
                table,
                "`, but it was not found",
            ),
            RepoError::MissingRequiredColumn { table, column } => {
                let mut r = join3("repository requires column `", column, "` in table `");
                r.append(table);
                r.append("`, but it was not found");
                r
            },
            RepoError::InvalidData(message) => join2("invalid persisted atom data: ", message.as_str()),
        }
    }
}

/// One row of the atom table as the storage engine hands it out: id, kind
/// and task state as text, the tombstone as a number.
#[derive(Debug, Clone, PartialEq, Eq)]
pub struct RawAtomRow {
    pub uuid: String,
    pub kind: String,
    pub content: String,
    pub preview_text: Option<String>,
    pub preview_image: Option<String>,
    pub task_status: Option<String>,
    pub event_start: Option<i64>,
    pub event_end: Option<i64>,
    pub hlc_timestamp: Option<String>,
    pub is_deleted: i64,
}

/// An atom as characters.
pub struct AtomView {
    pub uuid: u128,
    pub kind: AtomType,
    pub content: Seq<char>,
    pub preview_text: Option<Seq<char>>,
    pub preview_image: Option<Seq<char>>,
    pub task_status: Option<TaskStatus>,
    pub event_start: Option<i64>,
    pub event_end: Option<i64>,
    pub hlc_timestamp: Option<Seq<char>>,
    pub is_deleted: bool,
}

/// The view of an atom.
pub open spec fn atom_view(atom: Atom) -> AtomView {
    AtomView {
        uuid: atom.uuid,
        kind: atom.kind,
        content: atom.content@,
        preview_text: optional_text(atom.preview_text),
        preview_image: optional_text(atom.preview_image),
        task_status: atom.task_status,
        event_start: atom.event_start,
        event_end: atom.event_end,
        hlc_timestamp: optional_text(atom.hlc_timestamp),
        is_deleted: atom.is_deleted,
    }
}

/// What is wrong with a raw row, as an error with its text as characters.
pub enum AtomRowIssue {
    InvalidData(Seq<char>),
    Validation(AtomValidationError),
}

/// The issue that a repository error tells of, where it tells of a row.
pub open spec fn row_issue(e: RepoError) -> Option<AtomRowIssue> {
    match e {
        RepoError::InvalidData(message) => Some(AtomRowIssue::InvalidData(message@)),
        RepoError::Validation(err) => Some(AtomRowIssue::Validation(err)),
        _ => None,
    }
}

/// What reading a raw atom row gives: the atom it writes, or what is wrong
/// with the first column that cannot be read, in the order id, kind, task
/// state, tombstone; an atom that is read is validated.
pub open spec fn parsed_atom_row(
    uuid: Seq<char>,
    kind: Seq<char>,
    content: Seq<char>,
    preview_text: Option<Seq<char>>,
    preview_image: Option<Seq<char>>,
    task_status: Option<Seq<char>>,
    event_start: Option<i64>,
    event_end: Option<i64>,
    hlc_timestamp: Option<Seq<char>>,
    is_deleted: i64,
) -> Result<AtomView, AtomRowIssue> {
    if uuid_of_text(uuid) is None {
        Err(AtomRowIssue::InvalidData("invalid uuid value `"@ + uuid + "` in atoms.uuid"@))
    } else if atom_type_of(kind) is None {
        Err(AtomRowIssue::InvalidData("invalid atom type `"@ + kind + "` in atoms.type"@))
    } else if task_status is Some && task_status_of(task_status->0) is None {
        Err(
            AtomRowIssue::InvalidData(
                "invalid task status `"@ + task_status->0 + "` in atoms.task_status"@,
            ),
        )
    } else if is_deleted != 0 && is_deleted != 1 {
        Err(
            AtomRowIssue::InvalidData(
                "invalid is_deleted value `"@ + decimal_text(is_deleted as int)
                    + "` in atoms.is_deleted"@,
            ),
        )
    } else if atom_issue(uuid_of_text(uuid)->0, event_start, event_end) is Some {
        Err(AtomRowIssue::Validation(atom_issue(uuid_of_text(uuid)->0, event_start, event_end)->0))
    } else {
        Ok(
            AtomView {
                uuid: uuid_of_text(uuid)->0,
                kind: atom_type_of(kind)->0,
                content,
                preview_text,
                preview_image,
                task_status: match task_status {
                    Some(text) => task_status_of(text),
                    None => None,
                },
                event_start,
                event_end,
                hlc_timestamp,
                is_deleted: is_deleted == 1,
            },
        )
    }
}

/// Reads one row of the atom table.
pub fn parse_atom_row(row: &RawAtomRow) -> (r: Result<Atom, RepoError>)
    ensures
        match r {
            Ok(atom) => parsed_atom_row(
                row.uuid@,
                row.kind@,
                row.content@,
                optional_text(row.preview_text),
                optional_text(row.preview_image),
                optional_text(row.task_status),
                row.event_start,
                row.event_end,
                optional_text(row.hlc_timestamp),
                row.is_deleted,
            ) == Ok::<AtomView, AtomRowIssue>(atom_view(atom)),
            Err(e) => row_issue(e) is Some && parsed_atom_row(
                row.uuid@,
                row.kind@,
                row.content@,
                optional_text(row.preview_text),
                optional_text(row.preview_image),
                optional_text(row.task_status),
                row.event_start,
                row.event_end,
                optional_text(row.hlc_timestamp),
                row.is_deleted,
            ) == Err::<AtomView, AtomRowIssue>(row_issue(e)->0),
        },
{
    let uuid = match read_uuid(row.uuid.as_str()) {
        Some(id) => id,
        None => {
            return Err(
                RepoError::InvalidData(join3("invalid uuid value `", row.uuid.as_str(), "` in atoms.uuid")),
            );
        },
    };
    let kind = match parse_atom_type(row.kind.as_str()) {
        Some(kind) => kind,
        None => {
            return Err(
                RepoError::InvalidData(join3("invalid atom type `", row.kind.as_str(), "` in atoms.type")),
            );
        },
    };
    let task_status = match &row.task_status {
        Some(value) => match parse_task_status(value.as_str()) {
            Some(status) => Some(status),
            None => {
                return Err(
                    RepoError::InvalidData(
                        join3("invalid task status `", value.as_str(), "` in atoms.task_status"),
                    ),
                );
            },
        },
        None => None,
    };
    let is_deleted = if row.is_deleted == 0 {
        false
    } else if row.is_deleted == 1 {
        true
    } else {
        return Err(
            RepoError::InvalidData(
                join3(
                    "invalid is_deleted value `",
                    decimal(row.is_deleted).as_str(),
                    "` in atoms.is_deleted",
                ),
            ),
        );
    };
    let hlc_timestamp = match &row.hlc_timestamp {
        Some(text) => Some(text.clone()),
        None => None,
    };
    let preview_text = match &row.preview_text {
        Some(text) => Some(text.clone()),
        None => None,
    };
    let preview_image = match &row.preview_image {
        Some(text) => Some(text.clone()),
        None => None,
    };
    let atom = Atom {
        uuid,
        kind,
        content: row.content.clone(),
        preview_text,
        preview_image,
        task_status,
        event_start: row.event_start,
        event_end: row.event_end,
        hlc_timestamp,
        is_deleted,
    };
    match atom.validate() {
        Ok(()) => Ok(atom),
        Err(e) => Err(RepoError::Validation(e)),
    }
}

/// The columns of the atom table that the repository cannot do without.
pub open spec fn required_atom_columns() -> Seq<Seq<char>> {
    seq!["uuid"@, "type"@, "content"@, "is_deleted"@, "updated_at"@]
}

/// A connection is ready for the atom repository: its schema is at the
/// latest version, and the atom table is there with its columns.
pub open spec fn atom_connection_ready(actual_version: u32, table_exists: bool, columns: Seq<Seq<char>>) -> bool {
    actual_version == 8 && table_exists && present(columns, required_atom_columns(), 5)
}

fn atom_column_names() -> (r: Vec<&'static str>)
    ensures
        r@.len() == 5,
        name_texts(r@) == required_atom_columns(),
{
    let mut r: Vec<&'static str> = Vec::new();
    r.push("uuid");
    r.push("type");
    r.push("content");
    r.push("is_deleted");
    r.push("updated_at");
    assert(name_texts(r@) =~= required_atom_columns());
    r
}

/// Checks what was read of a connection before an atom repository is
/// built on it: the schema version, whether the atom table exists, and
/// the names of its columns. The first thing that is not as it must be is
/// the error: the version, then the table, then the first missing column.
pub fn ensure_connection_ready(actual_version: u32, table_exists: bool, columns: &Vec<String>) -> (r:
    Result<(), RepoError>)
    ensures
        r is Ok <==> atom_connection_ready(actual_version, table_exists, texts(columns@)),
        match r {
            Ok(()) => true,
            Err(e) => if actual_version != 8 {
                e == (RepoError::UninitializedConnection { expected_version: 8, actual_version })
            } else if !table_exists {
                e is MissingRequiredTable && e->MissingRequiredTable_0@ == "atoms"@
            } else {
                e is MissingRequiredColumn && e->table@ == "atoms"@ && exists|i: int|
                    0 <= i < 5 && e->column@ == #[trigger] required_atom_columns()[i] && present(
                        texts(columns@),
                        required_atom_columns(),
                        i,
                    ) && !texts(columns@).contains(required_atom_columns()[i])
            },
        },
{
    let expected_version = latest_version();
    if actual_version != expected_version {
        return Err(RepoError::UninitializedConnection { expected_version, actual_version });
    }
    if !table_exists {
        return Err(RepoError::MissingRequiredTable("atoms"));
    }
    let names = atom_column_names();
    match first_missing(columns, &names) {
        Some(i) => {
            let e = RepoError::MissingRequiredColumn { table: "atoms", column: names[i] };
            proof {
                let at = i as int;
                assert(name_texts(names@)[at] == names@[at]@);
                assert(0 <= at < 5 && e->column@ == required_atom_columns()[at] && present(
                    texts(columns@),
                    required_atom_columns(),
                    at,
                ) && !texts(columns@).contains(required_atom_columns()[at]));
            }
            Err(e)
        },
        None => Ok(()),
    }
}

/// The statement that reads atoms, up to its conditions.
pub const ATOM_SELECT_SQL: &'static str =
    "SELECT uuid, type, content, preview_text, preview_image, task_status, event_start, event_end, hlc_timestamp, is_deleted FROM atoms";

/// The text of the statement that lists atoms for a query: tombstoned
/// rows left out unless they are asked for, one kind where one is asked
/// for, the newest first and equal times by id, then limit and offset.
pub open spec fn atom_list_sql(query: AtomListQuery) -> Seq<char> {
    ATOM_SELECT_SQL@ + " WHERE 1 = 1"@ + (if query.include_deleted {
        Seq::<char>::empty()
    } else {
        " AND is_deleted = 0"@
    }) + (if query.kind is Some {
        " AND type = ?"@
    } else {
        Seq::<char>::empty()
    }) + " ORDER BY updated_at DESC, uuid ASC"@ + (if query.limit is Some {
        if query.offset > 0 {
            " LIMIT ? OFFSET ?"@
        } else {
            " LIMIT ?"@
        }
    } else if query.offset > 0 {
        " LIMIT -1 OFFSET ?"@
    } else {
        Seq::<char>::empty()
    })
}

/// The values of that statement, in the order of its placeholders: the
/// kind as it is written in storage, the limit, the offset.
pub open spec fn atom_list_binds(query: AtomListQuery) -> Seq<BindView> {
    (if query.kind is Some {
        seq![BindView::Text(atom_type_text(query.kind->0))]
    } else {
        Seq::<BindView>::empty()
    }) + (if query.limit is Some {
        seq![BindView::Integer(query.limit->0 as i64)]
    } else {
        Seq::<BindView>::empty()
    }) + (if query.offset > 0 {
        seq![BindView::Integer(query.offset as i64)]
    } else {
        Seq::<BindView>::empty()
    })
}

/// Makes the statement that lists atoms for a query.
pub fn atom_list_statement(query: &AtomListQuery) -> (r: Statement)
    ensures
        r.sql@ == atom_list_sql(*query),
        bind_views(r.binds@) == atom_list_binds(*query),
{
    let mut sql = String::from_str(ATOM_SELECT_SQL);
    sql.append(" WHERE 1 = 1");
    let mut binds: Vec<BindValue> = Vec::new();
    if !query.include_deleted {
        sql.append(" AND is_deleted = 0");
    }
    match query.kind {
        Some(kind) => {
            sql.append(" AND type = ?");
            binds.push(BindValue::Text(atom_type_to_db(kind).to_owned()));
        },
        None => {},
    }
    sql.append(" ORDER BY updated_at DESC, uuid ASC");
    match query.limit {
        Some(limit) => {
            binds.push(BindValue::Integer(limit as i64));
            if query.offset > 0 {
                sql.append(" LIMIT ? OFFSET ?");
                binds.push(BindValue::Integer(query.offset as i64));
            } else {
                sql.append(" LIMIT ?");
            }
        },
        None => {
            if query.offset > 0 {
                sql.append(" LIMIT -1 OFFSET ?");
                binds.push(BindValue::Integer(query.offset as i64));
            }
        },
    }
    proof {
        assert(sql@ =~= atom_list_sql(*query));
        assert(bind_views(binds@) =~= atom_list_binds(*query));
    }
    Statement { sql, binds }
}

/// Repository interface for atom CRUD operations. The contracts of the
/// library state nothing of what an implementation answers; what it is
/// meant to do stands here in words.
pub trait AtomRepository {
    /// Inserts a new atom and returns its stable ID.
    fn create_atom(&self, atom: &Atom) -> RepoResult<AtomId>;

    /// Updates an existing atom by ID; `RepoError::NotFound` where the
    /// target ID does not exist.
    fn update_atom(&self, atom: &Atom) -> RepoResult<()>;

    /// Loads a single atom by ID; `None` where no row exists or the row
    /// is soft-deleted and `include_deleted` is `false`.
    fn get_atom(&self, id: AtomId, include_deleted: bool) -> RepoResult<Option<Atom>>;

    /// Lists atoms using filter/pagination options.
    fn list_atoms(&self, query: &AtomListQuery) -> RepoResult<Vec<Atom>>;

    /// Soft-deletes an atom by ID; idempotent for rows already marked
    /// deleted.
    fn soft_delete_atom(&self, id: AtomId) -> RepoResult<()>;
}

} // verus!
