//! The note, atom and search use-cases as callers outside the core see
//! them: how an id is read, how a result becomes an envelope, and the
//! calls that bring both together over a service.

use vstd::prelude::*;
use crate::api::notes::clamped_limit;
use crate::api::notes::normalize_entry_limit;
use crate::api::notes::note_failure;
use crate::api::notes::notes_code;
use crate::api::notes::notes_message;
use crate::api::notes::notes_repo_issue;
use crate::api::notes::map_repo_error;
use crate::api::notes::parse_entry_search_kind;
use crate::api::notes::search_kind;
use crate::api::notes::to_entry_search_item;
use crate::api::notes::to_note_item;
use crate::api::notes::atom_message;
use crate::api::notes::AtomFfiError;
use crate::api::notes::AtomIssue;
use crate::api::notes::EntryActionResponse;
use crate::api::notes::EntrySearchItem;
use crate::api::notes::EntrySearchResponse;
use crate::api::notes::NoteItem;
use crate::api::notes::NoteResponse;
use crate::api::notes::NotesFfiError;
use crate::api::notes::NotesIssue;
use crate::api::notes::NotesListResponse;
use crate::api::notes::TagsListResponse;
use crate::model::atom::AtomId;
use crate::model::atom::AtomType;
use crate::model::atom::AtomValidationError;
use crate::model::atom::TaskStatus;
use crate::repo::atom_repo::parse_task_status;
use crate::repo::atom_repo::task_status_of;
use crate::repo::atom_repo::RepoError;
use crate::text::decimal;
use crate::model::uuid::read_uuid;
use crate::model::uuid::text_of_uuid;
use crate::model::uuid::uuid_of_text;
use crate::model::uuid::write_uuid;
use crate::repo::atom_repo::atom_repo_error_text;
use crate::repo::atom_repo::atom_type_text;
use crate::repo::atom_repo::AtomRepository;
use crate::repo::atom_repo::RepoResult;
use crate::repo::note_repo::normalize_note_limit;
use crate::repo::note_repo::note_limit;
use crate::repo::note_repo::NoteRecord;
use crate::repo::note_repo::NoteRepository;
use crate::search::fts::SearchHit;
use crate::search::fts::SearchQuery;
use crate::service::atom_service::AtomService;
use crate::service::atom_service::ScheduleEventRequest;
use crate::service::note_service::note_error_of;
use crate::service::note_service::NoteService;
use crate::service::note_service::NoteServiceError;
use crate::service::note_service::NotesListResult;
use crate::outside::is_absolute_path;
use crate::text::blank;
use crate::text::decimal_count;
use crate::text::decimal_text;
use crate::text::join2;
use crate::text::join3;
use crate::text::optional_text;
use crate::text::text_of;
use crate::text::trim;
use crate::text::trimmed;

verus! {

/// How an error of the note service is told to callers.
pub open spec fn note_service_issue(e: NoteServiceError) -> NotesIssue {
    match e {
        NoteServiceError::InvalidTag(value) => NotesIssue::InvalidTag(value@),
        NoteServiceError::NoteNotFound(id) => NotesIssue::NoteNotFound(text_of_uuid(id)),
        NoteServiceError::Repo(err) => notes_repo_issue(err),
        NoteServiceError::InconsistentState(details) => NotesIssue::Internal(details@),
    }
}

/// Tells an error of the note service to callers.
pub fn map_note_service_error(err: NoteServiceError) -> (r: NotesFfiError)
    ensures
        r@ == note_service_issue(err),
{
    match err {
        NoteServiceError::InvalidTag(value) => NotesFfiError::InvalidTag(value),
        NoteServiceError::NoteNotFound(atom_id) => NotesFfiError::NoteNotFound(write_uuid(atom_id)),
        NoteServiceError::Repo(repo_err) => map_repo_error(repo_err),
        NoteServiceError::InconsistentState(details) => NotesFfiError::Internal(details.to_owned()),
    }
}

/// A note id as it is read: the id that the text, trimmed, writes, or
/// the text as it was given where it writes none.
pub open spec fn parsed_note_id(raw: Seq<char>) -> Result<u128, NotesIssue> {
    match uuid_of_text(trimmed(raw)) {
        Some(id) => Ok(id),
        None => Err(NotesIssue::InvalidNoteId(raw)),
    }
}

/// Reads a note id.
pub fn parse_note_id(raw: &str) -> (r: Result<AtomId, NotesFfiError>)
    ensures
        match r {
            Ok(id) => parsed_note_id(raw@) == Ok::<u128, NotesIssue>(id),
            Err(e) => parsed_note_id(raw@) == Err::<u128, NotesIssue>(e@),
        },
{
    match read_uuid(trim(raw)) {
        Some(id) => Ok(id),
        None => Err(NotesFfiError::InvalidNoteId(raw.to_owned())),
    }
}

/// `item` shows `note`: the id as text, the rest as it is.
pub open spec fn shows(item: NoteItem, note: NoteRecord) -> bool {
    &&& item.atom_id@ == text_of_uuid(note.atom_id)
    &&& item.content == note.content
    &&& item.preview_text == note.preview_text
    &&& item.preview_image == note.preview_image
    &&& item.updated_at == note.updated_at
    &&& item.tags == note.tags
}

/// `r` tells the failure `e`, with its code and its message.
pub open spec fn tells(ok: bool, error_code: Option<String>, message: String, e: NotesIssue) -> bool {
    !ok && optional_text(error_code) == Some(notes_code(e)) && message@ == notes_message(e)
}

/// The envelope of one note: the note with the message `done`, or the
/// failure with its code and message.
pub fn note_response(result: Result<NoteRecord, NotesFfiError>, done: &str) -> (r: NoteResponse)
    ensures
        match result {
            Ok(note) => r.ok && r.error_code is None && r.message@ == done@ && r.note is Some && shows(
                r.note->0,
                note,
            ),
            Err(e) => tells(r.ok, r.error_code, r.message, e@) && r.note is None,
        },
{
    match result {
        Ok(note) => NoteResponse {
            ok: true,
            error_code: None,
            message: done.to_owned(),
            note: Some(to_note_item(note)),
        },
        Err(err) => note_failure(err),
    }
}

/// The items of `v` from the last to the first.
fn turned<T>(v: Vec<T>) -> (r: Vec<T>)
    ensures
        r@.len() == v@.len(),
        forall|i: int| 0 <= i < v@.len() ==> #[trigger] r@[i] == v@[v@.len() - 1 - i],
{
    let ghost whole = v@;
    let mut rest = v;
    let mut out: Vec<T> = Vec::new();
    while rest.len() > 0
        invariant
            out@.len() + rest@.len() == whole.len(),
            rest@ == whole.take(rest@.len() as int),
            forall|i: int| 0 <= i < out@.len() ==> #[trigger] out@[i] == whole[whole.len() - 1 - i],
        decreases rest.len(),
    {
        match rest.pop() {
            Some(item) => {
                assert(item == whole[whole.len() - 1 - out@.len()]);
                out.push(item);
                assert(rest@ =~= whole.take(rest@.len() as int));
            },
            None => {},
        }
    }
    out
}

fn note_items(notes: Vec<NoteRecord>) -> (r: Vec<NoteItem>)
    ensures
        r@.len() == notes@.len(),
        forall|i: int| 0 <= i < notes@.len() ==> shows(#[trigger] r@[i], notes@[i]),
{
    let ghost whole = notes@;
    let mut rest = turned(notes);
    let mut items: Vec<NoteItem> = Vec::new();
    while rest.len() > 0
        invariant
            items@.len() + rest@.len() == whole.len(),
            forall|i: int| 0 <= i < rest@.len() ==> #[trigger] rest@[i] == whole[whole.len() - 1 - i],
            forall|j: int| 0 <= j < items@.len() ==> shows(#[trigger] items@[j], whole[j]),
        decreases rest.len(),
    {
        match rest.pop() {
            Some(note) => {
                assert(note == whole[items@.len() as int]);
                items.push(to_note_item(note));
            },
            None => {},
        }
    }
    items
}

/// The envelope of a list of notes: the notes in their order with their
/// number and the limit that applied, or the failure, with the limit as
/// the notes contract clamps what was asked for.
pub fn notes_list_response(result: Result<NotesListResult, NotesFfiError>, limit: Option<u32>) -> (r:
    NotesListResponse)
    ensures
        match result {
            Ok(list) => r.ok && r.error_code is None && r.message@ == "Loaded "@ + decimal_text(
                list.items@.len() as int,
            ) + " note(s)."@ && r.items@.len() == list.items@.len() && (forall|i: int|
                0 <= i < list.items@.len() ==> shows(#[trigger] r.items@[i], list.items@[i]))
                && r.applied_limit == list.applied_limit,
            Err(e) => tells(r.ok, r.error_code, r.message, e@) && r.items@.len() == 0 && r.applied_limit
                == note_limit(limit),
        },
{
    match result {
        Ok(list) => {
            let message = join3("Loaded ", decimal_count(list.items.len()).as_str(), " note(s).");
            NotesListResponse {
                ok: true,
                error_code: None,
                message,
                items: note_items(list.items),
                applied_limit: list.applied_limit,
            }
        },
        Err(err) => NotesListResponse {
            ok: false,
            error_code: Some(err.code().to_owned()),
            message: err.message(),
            items: Vec::new(),
            applied_limit: normalize_note_limit(limit),
        },
    }
}

/// The envelope of a list of tags: the tags with their number, or the
/// failure.
pub fn tags_list_response(result: Result<Vec<String>, NotesFfiError>) -> (r: TagsListResponse)
    ensures
        match result {
            Ok(tags) => r.ok && r.error_code is None && r.message@ == "Loaded "@ + decimal_text(
                tags@.len() as int,
            ) + " tag(s)."@ && r.tags == tags,
            Err(e) => tells(r.ok, r.error_code, r.message, e@) && r.tags@.len() == 0,
        },
{
    match result {
        Ok(tags) => {
            let message = join3("Loaded ", decimal_count(tags.len()).as_str(), " tag(s).");
            TagsListResponse { ok: true, error_code: None, message, tags }
        },
        Err(err) => TagsListResponse {
            ok: false,
            error_code: Some(err.code().to_owned()),
            message: err.message(),
            tags: Vec::new(),
        },
    }
}

/// What looking for the note `id` comes to: the note; a note that is not
/// found, where there is none; the repository's error as the service
/// reports it.
pub open spec fn found_note_of(found: RepoResult<Option<NoteRecord>>, id: u128) -> Result<
    NoteRecord,
    NoteServiceError,
> {
    match found {
        Ok(Some(note)) => Ok(note),
        Ok(None) => Err(NoteServiceError::NoteNotFound(id)),
        Err(e) => Err(note_error_of(e)),
    }
}

/// Judges what a look for the note `id` found.
pub fn found_note(found: RepoResult<Option<NoteRecord>>, id: AtomId) -> (r: Result<
    NoteRecord,
    NoteServiceError,
>)
    ensures
        r == found_note_of(found, id),
{
    match found {
        Ok(Some(note)) => Ok(note),
        Ok(None) => Err(NoteServiceError::NoteNotFound(id)),
        Err(e) => Err(NoteServiceError::from(e)),
    }
}

/// The envelope of an entry action: the id of what was made with the
/// message `done`, or `"<name> failed: "` and what went wrong.
pub fn entry_action_response(result: RepoResult<AtomId>, done: &str, name: &str) -> (r: EntryActionResponse)
    ensures
        match result {
            Ok(id) => r.ok && optional_text(r.atom_id) == Some(text_of_uuid(id)) && r.message@ == done@,
            Err(e) => !r.ok && r.atom_id is None && r.message@ == name@ + " failed: "@
                + atom_repo_error_text(e),
        },
{
    match result {
        Ok(id) => EntryActionResponse::success(done, write_uuid(id)),
        Err(err) => {
            let message = join3(name, " failed: ", err.message().as_str());
            EntryActionResponse::failure(message.as_str())
        },
    }
}

/// The failure of an entry search, with its code, what went wrong after
/// `"entry_search failed: "`, and the limit that applied.
pub fn entry_search_failure(code: &str, detail: &str, applied_limit: u32) -> (r: EntrySearchResponse)
    ensures
        !r.ok,
        optional_text(r.error_code) == Some(code@),
        r.items@.len() == 0,
        r.message@ == "entry_search failed: "@ + detail@,
        r.applied_limit == applied_limit,
{
    EntrySearchResponse {
        ok: false,
        error_code: Some(code.to_owned()),
        items: Vec::new(),
        message: join2("entry_search failed: ", detail),
        applied_limit,
    }
}

/// The query of an entry search: the text trimmed, the kind as it is
/// named, the limit 10 by default and at most 50, terms quoted. A kind
/// that names none is answered at once, with the code `invalid_kind`.
pub fn entry_search_query(text: &str, kind: Option<&str>, limit: Option<u32>) -> (r: Result<
    SearchQuery,
    EntrySearchResponse,
>)
    ensures
        match r {
            Ok(query) => search_kind(text_of(kind)) == Ok::<Option<AtomType>, Seq<char>>(query.kind)
                && query.text@ == trimmed(text@) && query.limit == clamped_limit(limit, 10, 50)
                && !query.raw_fts_syntax,
            Err(response) => search_kind(text_of(kind)) == Err::<Option<AtomType>, Seq<char>>(
                response.message@,
            ) && !response.ok && optional_text(response.error_code) == Some("invalid_kind"@)
                && response.items@.len() == 0 && response.applied_limit == clamped_limit(limit, 10, 50),
        },
{
    let normalized_limit = normalize_entry_limit(limit);
    match parse_entry_search_kind(kind) {
        Ok(parsed) => Ok(
            SearchQuery {
                text: trim(text).to_owned(),
                kind: parsed,
                limit: normalized_limit,
                raw_fts_syntax: false,
            },
        ),
        Err(message) => Err(
            EntrySearchResponse {
                ok: false,
                error_code: Some("invalid_kind".to_owned()),
                items: Vec::new(),
                message,
                applied_limit: normalized_limit,
            },
        ),
    }
}

/// `item` shows `hit`: the id as text, the kind by its name, the snippet
/// as it is.
pub open spec fn shows_hit(item: EntrySearchItem, hit: SearchHit) -> bool {
    item.atom_id@ == text_of_uuid(hit.atom_id) && item.kind@ == atom_type_text(hit.kind) && item.snippet
        == hit.snippet
}

/// The envelope of the hits of an entry search, in their order, with
/// their number, or `No results.` where there is none.
pub fn entry_search_found(hits: Vec<SearchHit>, applied_limit: u32) -> (r: EntrySearchResponse)
    ensures
        r.ok,
        r.error_code is None,
        r.applied_limit == applied_limit,
        r.items@.len() == hits@.len(),
        forall|i: int| 0 <= i < hits@.len() ==> shows_hit(#[trigger] r.items@[i], hits@[i]),
        r.message@ == (if hits@.len() == 0 {
            "No results."@
        } else {
            "Found "@ + decimal_text(hits@.len() as int) + " result(s)."@
        }),
{
    let ghost whole = hits@;
    let mut rest = turned(hits);
    let mut items: Vec<EntrySearchItem> = Vec::new();
    while rest.len() > 0
        invariant
            items@.len() + rest@.len() == whole.len(),
            forall|i: int| 0 <= i < rest@.len() ==> #[trigger] rest@[i] == whole[whole.len() - 1 - i],
            forall|j: int| 0 <= j < items@.len() ==> shows_hit(#[trigger] items@[j], whole[j]),
        decreases rest.len(),
    {
        match rest.pop() {
            Some(hit) => {
                assert(hit == whole[items@.len() as int]);
                items.push(to_entry_search_item(hit));
            },
            None => {},
        }
    }
    let message = if items.len() == 0 {
        "No results.".to_owned()
    } else {
        join3("Found ", decimal_count(items.len()).as_str(), " result(s).")
    };
    EntrySearchResponse { ok: true, error_code: None, items, message, applied_limit }
}

/// Creates one note from markdown content.
pub fn note_create_impl<R: NoteRepository>(service: &NoteService<R>, content: &str) -> (r: NoteResponse)
    ensures
        r.ok ==> r.error_code is None && r.message@ == "Note created."@ && r.note is Some,
        !r.ok ==> r.error_code is Some && r.note is None,
{
    match service.create_note(content) {
        Ok(note) => note_response(Ok(note), "Note created."),
        Err(err) => note_response(Err(map_note_service_error(err)), "Note created."),
    }
}

/// Fully replaces note content by stable id. An id that cannot be read
/// is answered before the service is asked.
pub fn note_update_impl<R: NoteRepository>(service: &NoteService<R>, atom_id: &str, content: &str) -> (r:
    NoteResponse)
    ensures
        parsed_note_id(atom_id@) is Err ==> tells(
            r.ok,
            r.error_code,
            r.message,
            parsed_note_id(atom_id@)->Err_0,
        ) && r.note is None,
        r.ok ==> r.error_code is None && r.message@ == "Note updated."@ && r.note is Some,
        !r.ok ==> r.error_code is Some && r.note is None,
{
    let parsed_id = match parse_note_id(atom_id) {
        Ok(value) => value,
        Err(err) => {
            return note_failure(err);
        },
    };
    match service.update_note(parsed_id, content) {
        Ok(note) => note_response(Ok(note), "Note updated."),
        Err(err) => note_response(Err(map_note_service_error(err)), "Note updated."),
    }
}

/// Gets one note by stable id.
pub fn note_get_impl<R: NoteRepository>(service: &NoteService<R>, atom_id: &str) -> (r: NoteResponse)
    ensures
        parsed_note_id(atom_id@) is Err ==> tells(
            r.ok,
            r.error_code,
            r.message,
            parsed_note_id(atom_id@)->Err_0,
        ) && r.note is None,
        r.ok ==> r.error_code is None && r.message@ == "Note loaded."@ && r.note is Some,
        !r.ok ==> r.error_code is Some && r.note is None,
{
    let parsed_id = match parse_note_id(atom_id) {
        Ok(value) => value,
        Err(err) => {
            return note_failure(err);
        },
    };
    match found_note(service.get_note(parsed_id), parsed_id) {
        Ok(note) => note_response(Ok(note), "Note loaded."),
        Err(err) => note_response(Err(map_note_service_error(err)), "Note loaded."),
    }
}

/// Lists notes with optional single-tag filter and pagination. A blank
/// tag is answered before the repository is asked, with the code
/// `invalid_tag`.
pub fn notes_list_impl<R: NoteRepository>(
    service: &NoteService<R>,
    tag: Option<String>,
    limit: Option<u32>,
    offset: Option<u32>,
) -> (r: NotesListResponse)
    ensures
        r.applied_limit == note_limit(limit),
        tag is Some && blank(tag->0@) ==> tells(
            r.ok,
            r.error_code,
            r.message,
            NotesIssue::InvalidTag(tag->0@),
        ) && r.items@.len() == 0,
        r.ok ==> r.error_code is None && r.message@ == "Loaded "@ + decimal_text(r.items@.len() as int)
            + " note(s)."@,
        !r.ok ==> r.error_code is Some && r.items@.len() == 0,
{
    let resolved_offset = match offset {
        Some(value) => value,
        None => 0,
    };
    match service.list_notes(tag, limit, resolved_offset) {
        Ok(result) => notes_list_response(Ok(result), limit),
        Err(err) => notes_list_response(Err(map_note_service_error(err)), limit),
    }
}

/// Replaces the full tag set of one note. An id that cannot be read is
/// answered before the service is asked.
pub fn note_set_tags_impl<R: NoteRepository>(service: &mut NoteService<R>, atom_id: &str, tags: Vec<String>) -> (r:
    NoteResponse)
    ensures
        parsed_note_id(atom_id@) is Err ==> tells(
            r.ok,
            r.error_code,
            r.message,
            parsed_note_id(atom_id@)->Err_0,
        ) && r.note is None && final(service).repository() == old(service).repository(),
        r.ok ==> r.error_code is None && r.message@ == "Note tags replaced."@ && r.note is Some,
        !r.ok ==> r.error_code is Some && r.note is None,
{
    let parsed_id = match parse_note_id(atom_id) {
        Ok(value) => value,
        Err(err) => {
            return note_failure(err);
        },
    };
    match service.set_note_tags(parsed_id, tags) {
        Ok(note) => note_response(Ok(note), "Note tags replaced."),
        Err(err) => note_response(Err(map_note_service_error(err)), "Note tags replaced."),
    }
}

/// Lists the tags known by storage.
pub fn tags_list_impl<R: NoteRepository>(service: &NoteService<R>) -> (r: TagsListResponse)
    ensures
        r.ok ==> r.error_code is None && r.message@ == "Loaded "@ + decimal_text(r.tags@.len() as int)
            + " tag(s)."@,
        !r.ok ==> r.error_code is Some && r.tags@.len() == 0,
{
    match service.list_tags() {
        Ok(tags) => tags_list_response(Ok(tags)),
        Err(err) => tags_list_response(Err(map_note_service_error(NoteServiceError::from(err)))),
    }
}

/// Creates a note from single-entry command flow, its content trimmed.
pub fn entry_create_note_impl<R: AtomRepository>(service: &AtomService<R>, content: &str) -> (r:
    EntryActionResponse)
    ensures
        r.ok ==> r.atom_id is Some && r.message@ == "Note created."@,
        !r.ok ==> r.atom_id is None,
{
    entry_action_response(service.create_note(trim(content)), "Note created.", "entry_create_note")
}

/// Creates a task from single-entry command flow, its content trimmed.
pub fn entry_create_task_impl<R: AtomRepository>(service: &AtomService<R>, content: &str) -> (r:
    EntryActionResponse)
    ensures
        r.ok ==> r.atom_id is Some && r.message@ == "Task created."@,
        !r.ok ==> r.atom_id is None,
{
    entry_action_response(service.create_task(trim(content)), "Task created.", "entry_create_task")
}

/// Schedules an event from single-entry command flow, its title trimmed.
pub fn entry_schedule_impl<R: AtomRepository>(
    service: &AtomService<R>,
    title: &str,
    start_epoch_ms: i64,
    end_epoch_ms: Option<i64>,
) -> (r: EntryActionResponse)
    ensures
        r.ok ==> r.atom_id is Some && r.message@ == "Event scheduled."@,
        !r.ok ==> r.atom_id is None,
{
    let request = ScheduleEventRequest { title: trim(title).to_owned(), start_epoch_ms, end_epoch_ms };
    entry_action_response(service.schedule_event(&request), "Event scheduled.", "entry_schedule")
}

/// The file name of the entry database where no path is configured.
pub const ENTRY_DB_FILE_NAME: &'static str = "lazynote_entry.sqlite3";

/// What checking the database path `db_path` gives, `absolute` saying
/// whether the platform takes the trimmed path as absolute: the trimmed
/// path, or a message.
pub open spec fn checked_db_path(db_path: Seq<char>, absolute: bool) -> Result<Seq<char>, Seq<char>> {
    if blank(db_path) {
        Err("db_path must not be empty"@)
    } else if !absolute {
        Err("db_path must be an absolute path"@)
    } else {
        Ok(trimmed(db_path))
    }
}

/// Checks a database path that the platform takes as absolute or not.
pub fn check_entry_db_path(db_path: &str, absolute: bool) -> (r: Result<String, String>)
    ensures
        match r {
            Ok(path) => checked_db_path(db_path@, absolute) == Ok::<Seq<char>, Seq<char>>(path@),
            Err(message) => checked_db_path(db_path@, absolute) == Err::<Seq<char>, Seq<char>>(message@),
        },
{
    let kept = trim(db_path);
    if kept.is_empty() {
        return Err("db_path must not be empty".to_owned());
    }
    if !absolute {
        return Err("db_path must be an absolute path".to_owned());
    }
    Ok(kept.to_owned())
}

/// Checks a database path before it is configured: trimmed, not empty,
/// and absolute as the platform sees it.
pub fn normalize_entry_db_path(db_path: &str) -> (r: Result<String, String>)
    ensures
        blank(db_path@) ==> r is Err && r->Err_0@ == "db_path must not be empty"@,
        match r {
            Ok(path) => checked_db_path(db_path@, true) == Ok::<Seq<char>, Seq<char>>(path@),
            Err(message) => checked_db_path(db_path@, false) == Err::<Seq<char>, Seq<char>>(message@),
        },
{
    let absolute = is_absolute_path(trim(db_path));
    check_entry_db_path(db_path, absolute)
}

/// Where the entry database lies, and which of the three said so.
#[derive(Debug, Clone, PartialEq, Eq)]
pub enum EntryDbPath {
    /// The path that the environment names, trimmed.
    Environment(String),
    /// The path that was configured.
    Configured(String),
    /// The default file, in the directory for temporary files.
    TemporaryDefault,
}

/// Picks the path of the entry database: what the environment names, if
/// that is not blank; else what was configured; else the default.
pub fn resolve_entry_db_path(from_environment: Option<&str>, configured: Option<&str>) -> (r: EntryDbPath)
    ensures
        from_environment is Some && !blank(from_environment->0@) ==> r is Environment
            && r->Environment_0@ == trimmed(from_environment->0@),
        !(from_environment is Some && !blank(from_environment->0@)) && configured is Some ==> r is Configured
            && r->Configured_0@ == configured->0@,
        !(from_environment is Some && !blank(from_environment->0@)) && configured is None
            ==> r is TemporaryDefault,
{
    match from_environment {
        Some(raw) => {
            let kept = trim(raw);
            if !kept.is_empty() {
                return EntryDbPath::Environment(kept.to_owned());
            }
        },
        None => {},
    }
    match configured {
        Some(path) => EntryDbPath::Configured(path.to_owned()),
        None => EntryDbPath::TemporaryDefault,
    }
}

/// An atom id as it is read: the id that the text, trimmed, writes, or
/// the text as it was given where it writes none.
pub open spec fn parsed_atom_argument(raw: Seq<char>) -> Result<u128, AtomIssue> {
    match uuid_of_text(trimmed(raw)) {
        Some(id) => Ok(id),
        None => Err(AtomIssue::InvalidAtomId(raw)),
    }
}

/// Reads an atom id.
pub fn parse_atom_id(raw: &str) -> (r: Result<AtomId, AtomFfiError>)
    ensures
        match r {
            Ok(id) => parsed_atom_argument(raw@) == Ok::<u128, AtomIssue>(id),
            Err(e) => parsed_atom_argument(raw@) == Err::<u128, AtomIssue>(e@),
        },
{
    match read_uuid(trim(raw)) {
        Some(id) => Ok(id),
        None => Err(AtomFfiError::InvalidAtomId(raw.to_owned())),
    }
}

/// The task state that a caller names: none where none is named, the
/// state that the name writes in storage, or the name where it writes
/// none. The name is taken as it is given.
pub open spec fn parsed_status(status: Option<Seq<char>>) -> Result<Option<TaskStatus>, AtomIssue> {
    match status {
        None => Ok(None),
        Some(name) => match task_status_of(name) {
            Some(state) => Ok(Some(state)),
            None => Err(AtomIssue::InvalidStatus(name)),
        },
    }
}

/// Reads the task state that a caller names.
pub fn parse_status_argument(status: Option<&str>) -> (r: Result<Option<TaskStatus>, AtomFfiError>)
    ensures
        match r {
            Ok(state) => parsed_status(text_of(status)) == Ok::<Option<TaskStatus>, AtomIssue>(state),
            Err(e) => parsed_status(text_of(status)) == Err::<Option<TaskStatus>, AtomIssue>(e@),
        },
{
    match status {
        None => Ok(None),
        Some(name) => match parse_task_status(name) {
            Some(state) => Ok(Some(state)),
            None => Err(AtomFfiError::InvalidStatus(name.to_owned())),
        },
    }
}

/// How a repository error is told to callers of atoms: a reversed event
/// window as an invalid time range, any other as a database error with
/// the repository's message.
pub open spec fn atom_repo_issue(e: RepoError) -> AtomIssue {
    match e {
        RepoError::Validation(AtomValidationError::InvalidEventWindow { start, end }) => AtomIssue::InvalidTimeRange(
            "end_at ("@ + decimal_text(end as int) + ") must be >= start_at ("@ + decimal_text(
                start as int,
            ) + ")"@,
        ),
        other => AtomIssue::DbError(atom_repo_error_text(other)),
    }
}

/// Tells a repository error to callers of atoms.
pub fn map_atom_repo_error(err: RepoError) -> (r: AtomFfiError)
    ensures
        r@ == atom_repo_issue(err),
{
    match err {
        RepoError::Validation(AtomValidationError::InvalidEventWindow { start, end }) => {
            let mut text = join3("end_at (", decimal(end).as_str(), ") must be >= start_at (");
            text.append(decimal(start).as_str());
            text.append(")");
            AtomFfiError::InvalidTimeRange(text)
        },
        other => AtomFfiError::DbError(other.message()),
    }
}

/// The envelope of an action on one atom: its id with the message
/// `done`, or the message of the failure.
pub fn atom_action_response(result: Result<AtomId, AtomFfiError>, done: &str) -> (r: EntryActionResponse)
    ensures
        match result {
            Ok(id) => r.ok && optional_text(r.atom_id) == Some(text_of_uuid(id)) && r.message@ == done@,
            Err(e) => !r.ok && r.atom_id is None && r.message@ == atom_message(e@),
        },
{
    match result {
        Ok(id) => EntryActionResponse::success(done, write_uuid(id)),
        Err(err) => EntryActionResponse::failure(err.message().as_str()),
    }
}

} // verus!
