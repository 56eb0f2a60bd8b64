use lazynote_core::repo::atom_repo::{
    atom_type_to_db, bool_to_int, parse_atom_type, parse_task_status, task_status_to_db,
};
use lazynote_core::repo::note_repo::{normalize_note_limit, normalize_tag, normalize_tags};
use lazynote_core::search::fts::{escape_fts_term, SearchQuery};
use lazynote_core::{AtomType, TaskStatus};

#[test]
fn note_limit_defaults_to_10_and_caps_at_50() {
    assert_eq!(normalize_note_limit(None), 10);
    assert_eq!(normalize_note_limit(Some(0)), 10);
    assert_eq!(normalize_note_limit(Some(1)), 1);
    assert_eq!(normalize_note_limit(Some(50)), 50);
    assert_eq!(normalize_note_limit(Some(51)), 50);
    assert_eq!(normalize_note_limit(Some(u32::MAX)), 50);
}

#[test]
fn tag_is_trimmed_and_lowercased() {
    assert_eq!(normalize_tag("  Work "), Some("work".to_string()));
    assert_eq!(normalize_tag("ÄB"), Some("äb".to_string()));
    assert_eq!(normalize_tag("   "), None);
    assert_eq!(normalize_tag(""), None);
}

#[test]
fn tags_are_deduplicated_and_sorted() {
    let tags = vec![
        "work".to_string(),
        " Home".to_string(),
        "WORK ".to_string(),
        "  ".to_string(),
        "alpha".to_string(),
    ];
    assert_eq!(
        normalize_tags(&tags),
        vec!["alpha".to_string(), "home".to_string(), "work".to_string()]
    );
    let none: Vec<String> = Vec::new();
    assert_eq!(normalize_tags(&none), none);
}

#[test]
fn atom_kinds_round_trip_through_storage_text() {
    for kind in [AtomType::Note, AtomType::Task, AtomType::Event] {
        assert_eq!(parse_atom_type(atom_type_to_db(kind)), Some(kind));
    }
    assert_eq!(atom_type_to_db(AtomType::Event), "event");
    assert_eq!(parse_atom_type("Note"), None);
}

#[test]
fn task_states_round_trip_through_storage_text() {
    for status in [
        TaskStatus::Todo,
        TaskStatus::InProgress,
        TaskStatus::Done,
        TaskStatus::Cancelled,
    ] {
        assert_eq!(parse_task_status(task_status_to_db(status)), Some(status));
    }
    assert_eq!(task_status_to_db(TaskStatus::InProgress), "in_progress");
    assert_eq!(parse_task_status("started"), None);
    assert_eq!(bool_to_int(true), 1);
    assert_eq!(bool_to_int(false), 0);
}

#[test]
fn search_query_defaults() {
    let query = SearchQuery::new("hello");
    assert_eq!(query.text, "hello");
    assert_eq!(query.kind, None);
    assert_eq!(query.limit, 20);
    assert!(!query.raw_fts_syntax);
}

#[test]
fn search_terms_are_quoted() {
    assert_eq!(escape_fts_term("abc"), "\"abc\"");
    assert_eq!(escape_fts_term("a\"b"), "\"a\"\"b\"");
    assert_eq!(escape_fts_term(""), "\"\"");
}
