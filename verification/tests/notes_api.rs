use lazynote_core::api::notes::{
    atom_list_failure, atom_type_label, map_db_error, map_repo_error, normalize_entry_limit,
    normalize_section_limit, note_failure, parse_entry_search_kind, to_entry_search_item,
    to_note_item, AtomFfiError, EntryActionResponse, NotesFfiError,
};
use lazynote_core::db::{DbError, SqliteFailure};
use lazynote_core::model::atom::{Atom, AtomValidationError};
use lazynote_core::repo::atom_repo::{parse_atom_row, RawAtomRow, RepoError};
use lazynote_core::repo::note_repo::NoteRecord;
use lazynote_core::search::fts::{
    build_match_expression, parse_search_hit, SearchError, SearchHit, SearchQuery,
};
use lazynote_core::{AtomType, TaskStatus};

const ID_TEXT: &str = "11111111-2222-4333-8444-555555555555";
const ID: u128 = 0x11111111_2222_4333_8444_555555555555;

#[test]
fn invalid_persisted_data_maps_to_internal_error() {
    let mapped = map_repo_error(RepoError::InvalidData("broken row".to_string()));
    assert!(matches!(mapped, NotesFfiError::Internal(details) if details == "broken row"));
}

#[test]
fn sqlite_busy_maps_to_db_busy_error_code() {
    let mapped = map_db_error(DbError::Sqlite(SqliteFailure::Reported {
        code: 5,
        message: "database is busy".to_string(),
    }));
    assert!(matches!(mapped, NotesFfiError::DbBusy(_)));
}

#[test]
fn sqlite_locked_maps_to_db_busy_error_code() {
    let mapped = map_db_error(DbError::Sqlite(SqliteFailure::Reported {
        code: 6,
        message: "database is locked".to_string(),
    }));
    assert!(matches!(mapped, NotesFfiError::DbBusy(_)));
    let mapped = map_repo_error(RepoError::Db(DbError::Sqlite(SqliteFailure::Reported {
        code: 6,
        message: "database is locked".to_string(),
    })));
    assert_eq!(mapped, NotesFfiError::DbBusy("database is locked".to_string()));
    assert_eq!(mapped.code(), "db_busy");
    assert_eq!(mapped.message(), "notes database busy: database is locked");
}

#[test]
fn repository_errors_as_notes_callers_are_told() {
    assert_eq!(
        map_repo_error(RepoError::NotFound(ID)),
        NotesFfiError::NoteNotFound(ID_TEXT.to_string())
    );
    assert_eq!(
        map_repo_error(RepoError::Validation(AtomValidationError::InvalidEventWindow {
            start: 200,
            end: 100
        })),
        NotesFfiError::InvalidArgument("event_end (100) must be >= event_start (200)".to_string())
    );
    assert_eq!(
        map_repo_error(RepoError::Validation(AtomValidationError::NilUuid)).message(),
        "invalid argument: uuid must not be nil"
    );
    assert_eq!(
        map_repo_error(RepoError::Db(DbError::Sqlite(SqliteFailure::Other(
            "disk I/O error".to_string()
        )))),
        NotesFfiError::DbError("disk I/O error".to_string())
    );
    assert_eq!(
        map_repo_error(RepoError::UninitializedConnection {
            expected_version: 8,
            actual_version: 2
        }),
        NotesFfiError::DbError("repository requires schema 8, got 2".to_string())
    );
    assert_eq!(
        map_repo_error(RepoError::MissingRequiredTable("atoms")),
        NotesFfiError::DbError("missing required table `atoms`".to_string())
    );
    assert_eq!(
        map_repo_error(RepoError::MissingRequiredColumn {
            table: "atoms",
            column: "type"
        }),
        NotesFfiError::DbError("missing required column `type` in table `atoms`".to_string())
    );
    assert_eq!(
        RepoError::MissingRequiredColumn {
            table: "atoms",
            column: "type"
        }
        .message(),
        "repository requires column `type` in table `atoms`, but it was not found"
    );
    assert_eq!(
        RepoError::NotFound(ID).message(),
        format!("atom not found: {ID_TEXT}")
    );
    assert_eq!(
        RepoError::InvalidData("x".to_string()).message(),
        "invalid persisted atom data: x"
    );
}

#[test]
fn codes_and_messages_of_failures() {
    let notes = [
        (NotesFfiError::InvalidNoteId("a".into()), "invalid_note_id", "invalid note id: a"),
        (NotesFfiError::InvalidTag("a".into()), "invalid_tag", "invalid tag: a"),
        (NotesFfiError::NoteNotFound("a".into()), "note_not_found", "note not found: a"),
        (NotesFfiError::DbBusy("a".into()), "db_busy", "notes database busy: a"),
        (NotesFfiError::DbError("a".into()), "db_error", "notes database error: a"),
        (NotesFfiError::InvalidArgument("a".into()), "invalid_argument", "invalid argument: a"),
        (NotesFfiError::Internal("a".into()), "internal_error", "internal error: a"),
    ];
    for (error, code, message) in notes {
        assert_eq!(error.code(), code);
        assert_eq!(error.message(), message);
    }
    let atoms = [
        (AtomFfiError::InvalidAtomId("a".into()), "invalid_atom_id", "invalid atom id: a"),
        (AtomFfiError::AtomNotFound("a".into()), "atom_not_found", "atom not found: a"),
        (AtomFfiError::InvalidStatus("a".into()), "invalid_status", "invalid status: a"),
        (
            AtomFfiError::InvalidTimeRange("a".into()),
            "invalid_time_range",
            "invalid time range: a",
        ),
        (AtomFfiError::DbError("a".into()), "db_error", "database error: a"),
        (AtomFfiError::Internal("a".into()), "internal_error", "internal error: a"),
    ];
    for (error, code, message) in atoms {
        assert_eq!(error.code(), code);
        assert_eq!(error.message(), message);
    }
    let failed = note_failure(NotesFfiError::InvalidTag(" ".into()));
    assert!(!failed.ok);
    assert_eq!(failed.error_code.as_deref(), Some("invalid_tag"));
    assert_eq!(failed.message, "invalid tag:  ");
    assert_eq!(failed.note, None);
    let list = atom_list_failure(AtomFfiError::DbError("x".into()), 7);
    assert!(!list.ok);
    assert_eq!(list.error_code.as_deref(), Some("db_error"));
    assert!(list.items.is_empty());
    assert_eq!(list.applied_limit, 7);
}

#[test]
fn limits_are_normalized() {
    assert_eq!(normalize_entry_limit(None), 10);
    assert_eq!(normalize_entry_limit(Some(0)), 10);
    assert_eq!(normalize_entry_limit(Some(7)), 7);
    assert_eq!(normalize_entry_limit(Some(50)), 50);
    assert_eq!(normalize_entry_limit(Some(51)), 50);
    assert_eq!(normalize_section_limit(None), 50);
    assert_eq!(normalize_section_limit(Some(0)), 50);
    assert_eq!(normalize_section_limit(Some(3)), 3);
    assert_eq!(normalize_section_limit(Some(1000)), 50);
}

#[test]
fn search_kinds_are_read_whatever_their_case() {
    assert_eq!(parse_entry_search_kind(None), Ok(None));
    assert_eq!(parse_entry_search_kind(Some("")), Ok(None));
    assert_eq!(parse_entry_search_kind(Some("  ")), Ok(None));
    assert_eq!(parse_entry_search_kind(Some(" ALL ")), Ok(None));
    assert_eq!(parse_entry_search_kind(Some("Note")), Ok(Some(AtomType::Note)));
    assert_eq!(parse_entry_search_kind(Some(" task")), Ok(Some(AtomType::Task)));
    assert_eq!(parse_entry_search_kind(Some("EVENT")), Ok(Some(AtomType::Event)));
    assert_eq!(
        parse_entry_search_kind(Some(" Memo ")),
        Err("invalid kind ` Memo `; expected one of all|note|task|event".to_string())
    );
    assert_eq!(atom_type_label(AtomType::Task), "task");
}

#[test]
fn envelopes_and_items() {
    let done = EntryActionResponse::success("Note created.", ID_TEXT.to_string());
    assert!(done.ok);
    assert_eq!(done.atom_id.as_deref(), Some(ID_TEXT));
    assert_eq!(done.message, "Note created.");
    let failed = EntryActionResponse::failure("nope");
    assert!(!failed.ok);
    assert_eq!(failed.atom_id, None);
    assert_eq!(failed.message, "nope");

    let note = to_note_item(NoteRecord {
        atom_id: ID,
        content: "# body".to_string(),
        preview_text: Some("body".to_string()),
        preview_image: None,
        updated_at: 42,
        tags: vec!["work".to_string()],
    });
    assert_eq!(note.atom_id, ID_TEXT);
    assert_eq!(note.content, "# body");
    assert_eq!(note.preview_text.as_deref(), Some("body"));
    assert_eq!(note.preview_image, None);
    assert_eq!(note.updated_at, 42);
    assert_eq!(note.tags, vec!["work".to_string()]);

    let item = to_entry_search_item(SearchHit {
        atom_id: ID,
        kind: AtomType::Event,
        snippet: "[hit]".to_string(),
    });
    assert_eq!(item.atom_id, ID_TEXT);
    assert_eq!(item.kind, "event");
    assert_eq!(item.snippet, "[hit]");
}

fn raw_atom() -> RawAtomRow {
    RawAtomRow {
        uuid: ID_TEXT.to_string(),
        kind: "task".to_string(),
        content: "- [ ] ship".to_string(),
        preview_text: Some("ship".to_string()),
        preview_image: None,
        task_status: Some("in_progress".to_string()),
        event_start: Some(10),
        event_end: Some(20),
        hlc_timestamp: Some("t#1".to_string()),
        is_deleted: 0,
    }
}

#[test]
fn an_atom_row_is_read_and_validated() {
    assert_eq!(
        parse_atom_row(&raw_atom()),
        Ok(Atom {
            uuid: ID,
            kind: AtomType::Task,
            content: "- [ ] ship".to_string(),
            preview_text: Some("ship".to_string()),
            preview_image: None,
            task_status: Some(TaskStatus::InProgress),
            event_start: Some(10),
            event_end: Some(20),
            hlc_timestamp: Some("t#1".to_string()),
            is_deleted: false,
        })
    );
    let mut row = raw_atom();
    row.uuid = "x".to_string();
    row.kind = "y".to_string();
    assert_eq!(
        parse_atom_row(&row),
        Err(RepoError::InvalidData("invalid uuid value `x` in atoms.uuid".to_string()))
    );
    let mut row = raw_atom();
    row.kind = "memo".to_string();
    row.task_status = Some("later".to_string());
    assert_eq!(
        parse_atom_row(&row),
        Err(RepoError::InvalidData("invalid atom type `memo` in atoms.type".to_string()))
    );
    let mut row = raw_atom();
    row.task_status = Some("later".to_string());
    row.is_deleted = 5;
    assert_eq!(
        parse_atom_row(&row),
        Err(RepoError::InvalidData(
            "invalid task status `later` in atoms.task_status".to_string()
        ))
    );
    let mut row = raw_atom();
    row.is_deleted = 5;
    row.event_end = Some(1);
    assert_eq!(
        parse_atom_row(&row),
        Err(RepoError::InvalidData(
            "invalid is_deleted value `5` in atoms.is_deleted".to_string()
        ))
    );
    let mut row = raw_atom();
    row.is_deleted = 1;
    row.event_end = Some(1);
    assert_eq!(
        parse_atom_row(&row),
        Err(RepoError::Validation(AtomValidationError::InvalidEventWindow {
            start: 10,
            end: 1
        }))
    );
    let mut row = raw_atom();
    row.uuid = "00000000-0000-0000-0000-000000000000".to_string();
    assert_eq!(
        parse_atom_row(&row),
        Err(RepoError::Validation(AtomValidationError::NilUuid))
    );
    let mut row = raw_atom();
    row.task_status = None;
    row.is_deleted = 1;
    let atom = parse_atom_row(&row).unwrap();
    assert_eq!(atom.task_status, None);
    assert!(atom.is_deleted);
}

fn expression(text: &str, raw: bool) -> Option<String> {
    let mut query = SearchQuery::new(text);
    query.raw_fts_syntax = raw;
    build_match_expression(&query).unwrap()
}

#[test]
fn match_expressions() {
    assert_eq!(expression("", false), None);
    assert_eq!(expression("  \t ", false), None);
    assert_eq!(expression("hello", false).as_deref(), Some("\"hello\""));
    assert_eq!(
        expression("  hello   world\n", false).as_deref(),
        Some("\"hello\" AND \"world\"")
    );
    assert_eq!(
        expression("a \"b\" c", false).as_deref(),
        Some("\"a\" AND \"\"\"b\"\"\" AND \"c\"")
    );
    assert_eq!(
        expression("AND OR NOT", false).as_deref(),
        Some("\"AND\" AND \"OR\" AND \"NOT\"")
    );
    assert_eq!(expression("  a OR b ", true).as_deref(), Some("a OR b"));
    assert_eq!(expression("   ", true), None);
}

#[test]
fn search_hits_and_errors() {
    assert_eq!(
        parse_search_hit(ID_TEXT, "note", "s".to_string()),
        Ok(SearchHit {
            atom_id: ID,
            kind: AtomType::Note,
            snippet: "s".to_string()
        })
    );
    assert_eq!(
        parse_search_hit("nope", "??", String::new()),
        Err(SearchError::InvalidData("invalid uuid `nope`".to_string()))
    );
    assert_eq!(
        parse_search_hit(ID_TEXT, "??", String::new()),
        Err(SearchError::InvalidData("invalid type `??`".to_string()))
    );
    assert_eq!(
        SearchError::InvalidQuery {
            query: "a\"".to_string(),
            message: "unterminated string".to_string()
        }
        .message(),
        "invalid full-text query `a\"`: unterminated string"
    );
    assert_eq!(
        SearchError::InvalidData("invalid type `??`".to_string()).message(),
        "invalid search row: invalid type `??`"
    );
    assert_eq!(
        SearchError::Db(DbError::Sqlite(SqliteFailure::Full)).message(),
        "database or disk is full"
    );
}
