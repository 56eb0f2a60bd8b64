//! Notes, entries and atom lists as callers outside the core see them:
//! the envelopes, the error codes, and how arguments are read.

use vstd::prelude::*;
use crate::text::optional_text;
use crate::text::text_of;
use crate::api::workspace::db_busy;
use crate::api::workspace::is_db_busy;
use crate::db::DbError;
use crate::db::db_error_text;
use crate::model::atom::AtomType;
use crate::model::atom::atom_error_text;
use crate::model::uuid::text_of_uuid;
use crate::model::uuid::write_uuid;
use crate::outside::same_text;
use crate::outside::to_ascii_lowercase;
use crate::repo::atom_repo::RepoError;
use crate::repo::atom_repo::atom_type_text;
use crate::repo::atom_repo::atom_type_to_db;
use crate::repo::note_repo::NoteRecord;
use crate::search::fts::SearchHit;
use crate::text::ascii_lowered;
use crate::text::decimal;
use crate::text::decimal_text;
use crate::text::join2;
use crate::text::join3;
use crate::text::trim;
use crate::text::trimmed;

verus! {

/// The number of entries found where none is asked for.
pub const ENTRY_DEFAULT_LIMIT: u32 = 10;

/// The largest number of entries found at once.
pub const ENTRY_SEARCH_MAX_LIMIT: u32 = 50;

/// The number of atoms of a section where none is asked for.
pub const SECTION_DEFAULT_LIMIT: u32 = 50;

/// The largest number of atoms of a section at once.
pub const SECTION_LIMIT_MAX: u32 = 50;

/// Search item returned by single-entry search.
#[derive(Debug, Clone, PartialEq, Eq)]
pub struct EntrySearchItem {
    /// Stable atom ID in string form.
    pub atom_id: String,
    /// Atom projection kind (`note|task|event`).
    pub kind: String,
    /// Short snippet summary for result display.
    pub snippet: String,
}

/// Search response envelope for single-entry search flow.
#[derive(Debug, Clone, PartialEq, Eq)]
pub struct EntrySearchResponse {
    /// Whether search execution succeeded.
    pub ok: bool,
    /// Optional stable error code for machine branching.
    pub error_code: Option<String>,
    /// Search results (empty when no hits).
    pub items: Vec<EntrySearchItem>,
    /// Human-readable response message for diagnostics.
    pub message: String,
    /// Effective applied search limit.
    pub applied_limit: u32,
}

/// Generic action response envelope for single-entry command flow.
#[derive(Debug, Clone, PartialEq, Eq)]
pub struct EntryActionResponse {
    /// Whether operation succeeded.
    pub ok: bool,
    /// Optional created atom ID.
    pub atom_id: Option<String>,
    /// Human-readable response message for diagnostics/UI.
    pub message: String,
}

impl EntryActionResponse {
    /// The envelope of an action that was done on atom `atom_id`.
    pub fn success(message: &str, atom_id: String) -> (r: Self)
        ensures
            r.ok,
            r.atom_id == Some(atom_id),
            r.message@ == message@,
    {
        EntryActionResponse { ok: true, atom_id: Some(atom_id), message: message.to_owned() }
    }

    /// The envelope of an action that failed.
    pub fn failure(message: &str) -> (r: Self)
        ensures
            !r.ok,
            r.atom_id is None,
            r.message@ == message@,
    {
        EntryActionResponse { ok: false, atom_id: None, message: message.to_owned() }
    }
}

/// Note as returned by notes/tags calls.
#[derive(Debug, Clone, PartialEq, Eq)]
pub struct NoteItem {
    /// Stable note atom id.
    pub atom_id: String,
    /// Raw markdown content.
    pub content: String,
    /// Derived plain-text preview.
    pub preview_text: Option<String>,
    /// Derived first markdown image path.
    pub preview_image: Option<String>,
    /// Update timestamp in epoch milliseconds.
    pub updated_at: i64,
    /// Normalized tags attached to the note.
    pub tags: Vec<String>,
}

/// Note create/update/get response envelope.
#[derive(Debug, Clone, PartialEq, Eq)]
pub struct NoteResponse {
    /// Whether operation succeeded.
    pub ok: bool,
    /// Stable machine-readable error code for failure paths.
    pub error_code: Option<String>,
    /// Human-readable message for diagnostics/UI.
    pub message: String,
    /// Returned note payload on success.
    pub note: Option<NoteItem>,
}

/// Note list response envelope.
#[derive(Debug, Clone, PartialEq, Eq)]
pub struct NotesListResponse {
    /// Whether operation succeeded.
    pub ok: bool,
    /// Stable machine-readable error code for failure paths.
    pub error_code: Option<String>,
    /// Human-readable message for diagnostics/UI.
    pub message: String,
    /// Note list items sorted by `updated_at DESC, uuid ASC`.
    pub items: Vec<NoteItem>,
    /// Effective limit after normalization.
    pub applied_limit: u32,
}

/// Tags list response envelope.
#[derive(Debug, Clone, PartialEq, Eq)]
pub struct TagsListResponse {
    /// Whether operation succeeded.
    pub ok: bool,
    /// Stable machine-readable error code for failure paths.
    pub error_code: Option<String>,
    /// Human-readable message for diagnostics/UI.
    pub message: String,
    /// Normalized tags known by storage.
    pub tags: Vec<String>,
}

/// Atom list item returned by section queries.
#[derive(Debug, Clone, PartialEq, Eq)]
pub struct AtomListItem {
    /// Stable atom ID in string form.
    pub atom_id: String,
    /// Atom projection kind (`note|task|event`).
    pub kind: String,
    /// Raw markdown content.
    pub content: String,
    /// Derived plain-text preview.
    pub preview_text: Option<String>,
    /// Derived first markdown image path.
    pub preview_image: Option<String>,
    /// Normalized lowercase tags for this atom.
    pub tags: Vec<String>,
    /// Epoch ms, start boundary.
    pub start_at: Option<i64>,
    /// Epoch ms, end boundary.
    pub end_at: Option<i64>,
    /// Current task status string, or none if statusless.
    pub task_status: Option<String>,
    /// Update timestamp in epoch milliseconds.
    pub updated_at: i64,
}

/// Section list response envelope.
#[derive(Debug, Clone, PartialEq, Eq)]
pub struct AtomListResponse {
    /// Whether operation succeeded.
    pub ok: bool,
    /// Stable machine-readable error code for failure paths.
    pub error_code: Option<String>,
    /// Human-readable message for diagnostics/UI.
    pub message: String,
    /// Section items.
    pub items: Vec<AtomListItem>,
    /// Effective limit after normalization.
    pub applied_limit: u32,
}

/// Why a notes call failed, as callers are told.
#[derive(Debug, Clone, PartialEq, Eq)]
pub enum NotesFfiError {
    InvalidNoteId(String),
    InvalidTag(String),
    NoteNotFound(String),
    DbBusy(String),
    DbError(String),
    InvalidArgument(String),
    Internal(String),
}

/// A notes failure with its detail as characters.
pub enum NotesIssue {
    InvalidNoteId(Seq<char>),
    InvalidTag(Seq<char>),
    NoteNotFound(Seq<char>),
    DbBusy(Seq<char>),
    DbError(Seq<char>),
    InvalidArgument(Seq<char>),
    Internal(Seq<char>),
}

impl View for NotesFfiError {
    type V = NotesIssue;

    open spec fn view(&self) -> NotesIssue {
        match self {
            NotesFfiError::InvalidNoteId(v) => NotesIssue::InvalidNoteId(v@),
            NotesFfiError::InvalidTag(v) => NotesIssue::InvalidTag(v@),
            NotesFfiError::NoteNotFound(v) => NotesIssue::NoteNotFound(v@),
            NotesFfiError::DbBusy(v) => NotesIssue::DbBusy(v@),
            NotesFfiError::DbError(v) => NotesIssue::DbError(v@),
            NotesFfiError::InvalidArgument(v) => NotesIssue::InvalidArgument(v@),
            NotesFfiError::Internal(v) => NotesIssue::Internal(v@),
        }
    }
}

/// The stable code of a notes failure.
pub open spec fn notes_code(e: NotesIssue) -> Seq<char> {
    match e {
        NotesIssue::InvalidNoteId(_) => "invalid_note_id"@,
        NotesIssue::InvalidTag(_) => "invalid_tag"@,
        NotesIssue::NoteNotFound(_) => "note_not_found"@,
        NotesIssue::DbBusy(_) => "db_busy"@,
        NotesIssue::DbError(_) => "db_error"@,
        NotesIssue::InvalidArgument(_) => "invalid_argument"@,
        NotesIssue::Internal(_) => "internal_error"@,
    }
}

/// The message of a notes failure.
pub open spec fn notes_message(e: NotesIssue) -> Seq<char> {
    match e {
        NotesIssue::InvalidNoteId(v) => "invalid note id: "@ + v,
        NotesIssue::InvalidTag(v) => "invalid tag: "@ + v,
        NotesIssue::NoteNotFound(v) => "note not found: "@ + v,
        NotesIssue::DbBusy(v) => "notes database busy: "@ + v,
        NotesIssue::DbError(v) => "notes database error: "@ + v,
        NotesIssue::InvalidArgument(v) => "invalid argument: "@ + v,
        NotesIssue::Internal(v) => "internal error: "@ + v,
    }
}

impl NotesFfiError {
    /// The stable code of this failure.
    pub fn code(&self) -> (r: &'static str)
        ensures
            r@ == notes_code(self@),
    {
        match self {
            NotesFfiError::InvalidNoteId(_) => "invalid_note_id",
            NotesFfiError::InvalidTag(_) => "invalid_tag",
            NotesFfiError::NoteNotFound(_) => "note_not_found",
            NotesFfiError::DbBusy(_) => "db_busy",
            NotesFfiError::DbError(_) => "db_error",
            NotesFfiError::InvalidArgument(_) => "invalid_argument",
            NotesFfiError::Internal(_) => "internal_error",
        }
    }

    /// The message of this failure.
    pub fn message(&self) -> (r: String)
        ensures
            r@ == notes_message(self@),
    {
        match self {
            NotesFfiError::InvalidNoteId(v) => join2("invalid note id: ", v.as_str()),
            NotesFfiError::InvalidTag(v) => join2("invalid tag: ", v.as_str()),
            NotesFfiError::NoteNotFound(v) => join2("note not found: ", v.as_str()),
            NotesFfiError::DbBusy(v) => join2("notes database busy: ", v.as_str()),
            NotesFfiError::DbError(v) => join2("notes database error: ", v.as_str()),
            NotesFfiError::InvalidArgument(v) => join2("invalid argument: ", v.as_str()),
            NotesFfiError::Internal(v) => join2("internal error: ", v.as_str()),
        }
    }
}

/// Why an atom call failed, as callers are told.
#[derive(Debug, Clone, PartialEq, Eq)]
pub enum AtomFfiError {
    InvalidAtomId(String),
    AtomNotFound(String),
    InvalidStatus(String),
    InvalidTimeRange(String),
    DbError(String),
    Internal(String),
}

/// An atom failure with its detail as characters.
pub enum AtomIssue {
    InvalidAtomId(Seq<char>),
    AtomNotFound(Seq<char>),
    InvalidStatus(Seq<char>),
    InvalidTimeRange(Seq<char>),
    DbError(Seq<char>),
    Internal(Seq<char>),
}

impl View for AtomFfiError {
    type V = AtomIssue;

    open spec fn view(&self) -> AtomIssue {
        match self {
            AtomFfiError::InvalidAtomId(v) => AtomIssue::InvalidAtomId(v@),
            AtomFfiError::AtomNotFound(v) => AtomIssue::AtomNotFound(v@),
            AtomFfiError::InvalidStatus(v) => AtomIssue::InvalidStatus(v@),
            AtomFfiError::InvalidTimeRange(v) => AtomIssue::InvalidTimeRange(v@),
            AtomFfiError::DbError(v) => AtomIssue::DbError(v@),
            AtomFfiError::Internal(v) => AtomIssue::Internal(v@),
        }
    }
}

/// The stable code of an atom failure.
pub open spec fn atom_code(e: AtomIssue) -> Seq<char> {
    match e {
        AtomIssue::InvalidAtomId(_) => "invalid_atom_id"@,
        AtomIssue::AtomNotFound(_) => "atom_not_found"@,
        AtomIssue::InvalidStatus(_) => "invalid_status"@,
        AtomIssue::InvalidTimeRange(_) => "invalid_time_range"@,
        AtomIssue::DbError(_) => "db_error"@,
        AtomIssue::Internal(_) => "internal_error"@,
    }
}

/// The message of an atom failure.
pub open spec fn atom_message(e: AtomIssue) -> Seq<char> {
    match e {
        AtomIssue::InvalidAtomId(v) => "invalid atom id: "@ + v,
        AtomIssue::AtomNotFound(v) => "atom not found: "@ + v,
        AtomIssue::InvalidStatus(v) => "invalid status: "@ + v,
        AtomIssue::InvalidTimeRange(v) => "invalid time range: "@ + v,
        AtomIssue::DbError(v) => "database error: "@ + v,
        AtomIssue::Internal(v) => "internal error: "@ + v,
    }
}

impl AtomFfiError {
    /// The stable code of this failure.
    pub fn code(&self) -> (r: &'static str)
        ensures
            r@ == atom_code(self@),
    {
        match self {
            AtomFfiError::InvalidAtomId(_) => "invalid_atom_id",
            AtomFfiError::AtomNotFound(_) => "atom_not_found",
            AtomFfiError::InvalidStatus(_) => "invalid_status",
            AtomFfiError::InvalidTimeRange(_) => "invalid_time_range",
            AtomFfiError::DbError(_) => "db_error",
            AtomFfiError::Internal(_) => "internal_error",
        }
    }

    /// The message of this failure.
    pub fn message(&self) -> (r: String)
        ensures
            r@ == atom_message(self@),
    {
        match self {
            AtomFfiError::InvalidAtomId(v) => join2("invalid atom id: ", v.as_str()),
            AtomFfiError::AtomNotFound(v) => join2("atom not found: ", v.as_str()),
            AtomFfiError::InvalidStatus(v) => join2("invalid status: ", v.as_str()),
            AtomFfiError::InvalidTimeRange(v) => join2("invalid time range: ", v.as_str()),
            AtomFfiError::DbError(v) => join2("database error: ", v.as_str()),
            AtomFfiError::Internal(v) => join2("internal error: ", v.as_str()),
        }
    }
}

/// The limit of a list: `default` where none or 0 is asked for, at most `max`.
pub open spec fn clamped_limit(limit: Option<u32>, default: u32, max: u32) -> u32 {
    match limit {
        None => default,
        Some(v) => if v == 0 {
            default
        } else if v > max {
            max
        } else {
            v
        },
    }
}

/// Normalizes the limit of an entry search: 10 by default, at most 50.
pub fn normalize_entry_limit(limit: Option<u32>) -> (r: u32)
    ensures
        r == clamped_limit(limit, 10, 50),
        1 <= r <= 50,
{
    match limit {
        Some(value) => {
            if value == 0 {
                ENTRY_DEFAULT_LIMIT
            } else if value > ENTRY_SEARCH_MAX_LIMIT {
                ENTRY_SEARCH_MAX_LIMIT
            } else {
                value
            }
        },
        None => ENTRY_DEFAULT_LIMIT,
    }
}

/// Normalizes the limit of a section list: 50 by default, at most 50.
pub fn normalize_section_limit(limit: Option<u32>) -> (r: u32)
    ensures
        r == clamped_limit(limit, 50, 50),
        1 <= r <= 50,
{
    match limit {
        Some(value) => {
            if value == 0 {
                SECTION_DEFAULT_LIMIT
            } else if value > SECTION_LIMIT_MAX {
                SECTION_LIMIT_MAX
            } else {
                value
            }
        },
        None => SECTION_DEFAULT_LIMIT,
    }
}

/// The label of an atom kind.
pub fn atom_type_label(kind: AtomType) -> (r: &'static str)
    ensures
        r@ == atom_type_text(kind),
{
    atom_type_to_db(kind)
}

/// The kind that a search is narrowed to: none where no kind is named or
/// the name, trimmed and in lower case, is empty or `all`; the kind that
/// is named; a message where the name names no kind.
pub open spec fn search_kind(raw: Option<Seq<char>>) -> Result<Option<AtomType>, Seq<char>> {
    match raw {
        None => Ok(None),
        Some(value) => {
            let name = ascii_lowered(trimmed(value));
            if name.len() == 0 || name == "all"@ {
                Ok(None)
            } else if name == "note"@ {
                Ok(Some(AtomType::Note))
            } else if name == "task"@ {
                Ok(Some(AtomType::Task))
            } else if name == "event"@ {
                Ok(Some(AtomType::Event))
            } else {
                Err("invalid kind `"@ + value + "`; expected one of all|note|task|event"@)
            }
        },
    }
}

/// Reads the kind that a search is narrowed to.
pub fn parse_entry_search_kind(raw: Option<&str>) -> (r: Result<Option<AtomType>, String>)
    ensures
        match r {
            Ok(kind) => search_kind(text_of(raw)) == Ok::<Option<AtomType>, Seq<char>>(kind),
            Err(message) => search_kind(text_of(raw)) == Err::<Option<AtomType>, Seq<char>>(message@),
        },
{
    let value = match raw {
        Some(value) => value,
        None => {
            return Ok(None);
        },
    };
    let normalized = to_ascii_lowercase(trim(value));
    if normalized.as_str().is_empty() || same_text(normalized.as_str(), "all") {
        return Ok(None);
    }
    if same_text(normalized.as_str(), "note") {
        Ok(Some(AtomType::Note))
    } else if same_text(normalized.as_str(), "task") {
        Ok(Some(AtomType::Task))
    } else if same_text(normalized.as_str(), "event") {
        Ok(Some(AtomType::Event))
    } else {
        Err(join3("invalid kind `", value, "`; expected one of all|note|task|event"))
    }
}

/// How a database error is told to callers of notes.
pub open spec fn notes_db_issue(e: DbError) -> NotesIssue {
    if db_busy(e) {
        NotesIssue::DbBusy(db_error_text(e))
    } else {
        NotesIssue::DbError(db_error_text(e))
    }
}

/// How a repository error is told to callers of notes.
pub open spec fn notes_repo_issue(e: RepoError) -> NotesIssue {
    match e {
        RepoError::NotFound(id) => NotesIssue::NoteNotFound(text_of_uuid(id)),
        RepoError::Validation(err) => NotesIssue::InvalidArgument(atom_error_text(err)),
        RepoError::Db(err) => notes_db_issue(err),
        RepoError::UninitializedConnection { expected_version, actual_version } => NotesIssue::DbError(
            "repository requires schema "@ + decimal_text(expected_version as int) + ", got "@
                + decimal_text(actual_version as int),
        ),
        RepoError::MissingRequiredTable(table) => NotesIssue::DbError(
            "missing required table `"@ + table@ + "`"@,
        ),
        RepoError::MissingRequiredColumn { table, column } => NotesIssue::DbError(
            "missing required column `"@ + column@ + "` in table `"@ + table@ + "`"@,
        ),
        RepoError::InvalidData(details) => NotesIssue::Internal(details@),
    }
}

/// Tells a database error to callers of notes.
pub fn map_db_error(err: DbError) -> (r: NotesFfiError)
    ensures
        r@ == notes_db_issue(err),
{
    if is_db_busy(&err) {
        NotesFfiError::DbBusy(err.message())
    } else {
        NotesFfiError::DbError(err.message())
    }
}

/// Tells a repository error to callers of notes.
pub fn map_repo_error(err: RepoError) -> (r: NotesFfiError)
    ensures
        r@ == notes_repo_issue(err),
{
    match err {
        RepoError::NotFound(atom_id) => NotesFfiError::NoteNotFound(write_uuid(atom_id)),
        RepoError::Validation(validation) => NotesFfiError::InvalidArgument(validation.message()),
        RepoError::Db(db_err) => map_db_error(db_err),
        RepoError::UninitializedConnection { expected_version, actual_version } => {
            let mut text = join3(
                "repository requires schema ",
                decimal(expected_version as i64).as_str(),
                ", got ",
            );
            text.append(decimal(actual_version as i64).as_str());
            NotesFfiError::DbError(text)
        },
        RepoError::MissingRequiredTable(table) => NotesFfiError::DbError(
            join3("missing required table `", table, "`"),
        ),
        RepoError::MissingRequiredColumn { table, column } => {
            let mut text = join3("missing required column `", column, "` in table `");
            text.append(table);
            text.append("`");
            NotesFfiError::DbError(text)
        },
        RepoError::InvalidData(details) => NotesFfiError::Internal(details),
    }
}

/// Shows a note as callers see it.
pub fn to_note_item(value: NoteRecord) -> (r: NoteItem)
    ensures
        r.atom_id@ == text_of_uuid(value.atom_id),
        r.content == value.content,
        r.preview_text == value.preview_text,
        r.preview_image == value.preview_image,
        r.updated_at == value.updated_at,
        r.tags == value.tags,
{
    NoteItem {
        atom_id: write_uuid(value.atom_id),
        content: value.content,
        preview_text: value.preview_text,
        preview_image: value.preview_image,
        updated_at: value.updated_at,
        tags: value.tags,
    }
}

/// Shows a search hit as callers see it.
pub fn to_entry_search_item(hit: SearchHit) -> (r: EntrySearchItem)
    ensures
        r.atom_id@ == text_of_uuid(hit.atom_id),
        r.kind@ == atom_type_text(hit.kind),
        r.snippet == hit.snippet,
{
    EntrySearchItem {
        atom_id: write_uuid(hit.atom_id),
        kind: atom_type_label(hit.kind).to_owned(),
        snippet: hit.snippet,
    }
}

/// Wraps a failure as a note response.
pub fn note_failure(error: NotesFfiError) -> (r: NoteResponse)
    ensures
        !r.ok,
        optional_text(r.error_code) == Some(notes_code(error@)),
        r.message@ == notes_message(error@),
        r.note is None,
{
    NoteResponse { ok: false, error_code: Some(error.code().to_owned()), message: error.message(), note: None }
}

/// Wraps a failure as an atom list response with the limit that applied.
pub fn atom_list_failure(err: AtomFfiError, limit: u32) -> (r: AtomListResponse)
    ensures
        !r.ok,
        optional_text(r.error_code) == Some(atom_code(err@)),
        r.message@ == atom_message(err@),
        r.items@.len() == 0,
        r.applied_limit == limit,
{
    AtomListResponse {
        ok: false,
        error_code: Some(err.code().to_owned()),
        message: err.message(),
        items: Vec::new(),
        applied_limit: limit,
    }
}

} // verus!
