use lazynote_core::api::entry::{
    entry_action_response, entry_create_note_impl, entry_create_task_impl, entry_schedule_impl,
    found_note, map_note_service_error, note_create_impl, note_get_impl, note_response,
    note_set_tags_impl, note_update_impl, notes_list_impl, notes_list_response, parse_note_id,
    tags_list_impl, tags_list_response,
};
use lazynote_core::api::entry::{
    atom_action_response, map_atom_repo_error, parse_atom_id, parse_status_argument,
};
use lazynote_core::api::notes::{AtomFfiError, NoteItem, NotesFfiError};
use lazynote_core::model::atom::{Atom, AtomValidationError};
use lazynote_core::service::note_service::NotesListResult;
use lazynote_core::repo::atom_repo::{AtomListQuery, AtomRepository, RepoError, RepoResult};
use lazynote_core::repo::note_repo::{
    normalize_note_limit, NoteListQuery, NoteRecord, NoteRepository,
};
use lazynote_core::service::atom_service::{
    event_atom, note_atom, task_atom, AtomService, ScheduleEventRequest,
};
use lazynote_core::service::note_service::{
    checked_tags, note_query, read_back, NoteService, NoteServiceError,
};
use lazynote_core::{AtomId, AtomType, TaskStatus};
use std::cell::RefCell;
use std::collections::HashSet;
use std::rc::Rc;

struct Stored {
    atom: Atom,
    updated_at: i64,
    tags: Vec<String>,
}

#[derive(Default)]
struct Store {
    rows: Vec<Stored>,
    clock: i64,
    hide_on_read: bool,
    queries: Vec<NoteListQuery>,
}

/// Atom and note tables held in memory, shared by handles.
#[derive(Clone, Default)]
struct MemoryRepo(Rc<RefCell<Store>>);

impl MemoryRepo {
    fn set_updated_at(&self, id: AtomId, at: i64) {
        let mut store = self.0.borrow_mut();
        let row = store.rows.iter_mut().find(|r| r.atom.uuid == id).unwrap();
        row.updated_at = at;
    }

    fn record(row: &Stored) -> NoteRecord {
        NoteRecord {
            atom_id: row.atom.uuid,
            content: row.atom.content.clone(),
            preview_text: row.atom.preview_text.clone(),
            preview_image: row.atom.preview_image.clone(),
            updated_at: row.updated_at,
            tags: row.tags.clone(),
        }
    }
}

impl AtomRepository for MemoryRepo {
    fn create_atom(&self, atom: &Atom) -> RepoResult<AtomId> {
        atom.validate().map_err(RepoError::Validation)?;
        let mut store = self.0.borrow_mut();
        store.clock += 1;
        let updated_at = store.clock;
        store.rows.push(Stored {
            atom: atom.clone(),
            updated_at,
            tags: vec![],
        });
        Ok(atom.uuid)
    }

    fn update_atom(&self, atom: &Atom) -> RepoResult<()> {
        atom.validate().map_err(RepoError::Validation)?;
        let mut store = self.0.borrow_mut();
        store.clock += 1;
        let updated_at = store.clock;
        match store.rows.iter_mut().find(|r| r.atom.uuid == atom.uuid) {
            Some(row) => {
                row.atom = atom.clone();
                row.updated_at = updated_at;
                Ok(())
            }
            None => Err(RepoError::NotFound(atom.uuid)),
        }
    }

    fn get_atom(&self, id: AtomId, include_deleted: bool) -> RepoResult<Option<Atom>> {
        let store = self.0.borrow();
        Ok(store
            .rows
            .iter()
            .find(|r| r.atom.uuid == id && (include_deleted || !r.atom.is_deleted))
            .map(|r| r.atom.clone()))
    }

    fn list_atoms(&self, query: &AtomListQuery) -> RepoResult<Vec<Atom>> {
        let store = self.0.borrow();
        Ok(store
            .rows
            .iter()
            .filter(|r| query.include_deleted || !r.atom.is_deleted)
            .filter(|r| query.kind.map_or(true, |kind| r.atom.kind == kind))
            .skip(query.offset as usize)
            .take(query.limit.map_or(usize::MAX, |limit| limit as usize))
            .map(|r| r.atom.clone())
            .collect())
    }

    fn soft_delete_atom(&self, id: AtomId) -> RepoResult<()> {
        let mut store = self.0.borrow_mut();
        match store.rows.iter_mut().find(|r| r.atom.uuid == id) {
            Some(row) => {
                row.atom.is_deleted = true;
                Ok(())
            }
            None => Err(RepoError::NotFound(id)),
        }
    }
}

impl NoteRepository for MemoryRepo {
    fn create_note(&self, atom: &Atom) -> RepoResult<AtomId> {
        if atom.kind != AtomType::Note {
            return Err(RepoError::InvalidData(
                "note repository only accepts AtomType::Note".to_string(),
            ));
        }
        self.create_atom(atom)
    }

    fn update_note_full(
        &self,
        atom_id: AtomId,
        content: &str,
        preview_text: Option<&str>,
        preview_image: Option<&str>,
    ) -> RepoResult<()> {
        let mut store = self.0.borrow_mut();
        store.clock += 1;
        let updated_at = store.clock;
        match store
            .rows
            .iter_mut()
            .find(|r| r.atom.uuid == atom_id && r.atom.kind == AtomType::Note && !r.atom.is_deleted)
        {
            Some(row) => {
                row.atom.content = content.to_string();
                row.atom.preview_text = preview_text.map(str::to_string);
                row.atom.preview_image = preview_image.map(str::to_string);
                row.updated_at = updated_at;
                Ok(())
            }
            None => Err(RepoError::NotFound(atom_id)),
        }
    }

    fn get_note(&self, atom_id: AtomId) -> RepoResult<Option<NoteRecord>> {
        let store = self.0.borrow();
        if store.hide_on_read {
            return Ok(None);
        }
        Ok(store
            .rows
            .iter()
            .find(|r| r.atom.uuid == atom_id && r.atom.kind == AtomType::Note && !r.atom.is_deleted)
            .map(Self::record))
    }

    fn list_notes(&self, query: &NoteListQuery) -> RepoResult<Vec<NoteRecord>> {
        let mut store = self.0.borrow_mut();
        store.queries.push(query.clone());
        let mut notes: Vec<NoteRecord> = store
            .rows
            .iter()
            .filter(|r| r.atom.kind == AtomType::Note && !r.atom.is_deleted)
            .filter(|r| query.tag.as_ref().map_or(true, |tag| r.tags.contains(tag)))
            .map(Self::record)
            .collect();
        notes.sort_by(|a, b| {
            b.updated_at
                .cmp(&a.updated_at)
                .then(a.atom_id.cmp(&b.atom_id))
        });
        Ok(notes
            .into_iter()
            .skip(query.offset as usize)
            .take(normalize_note_limit(query.limit) as usize)
            .collect())
    }

    fn set_note_tags(&mut self, atom_id: AtomId, tags: &[String]) -> RepoResult<()> {
        let mut store = self.0.borrow_mut();
        store.clock += 1;
        let updated_at = store.clock;
        match store
            .rows
            .iter_mut()
            .find(|r| r.atom.uuid == atom_id && r.atom.kind == AtomType::Note && !r.atom.is_deleted)
        {
            Some(row) => {
                row.tags = tags.to_vec();
                row.updated_at = updated_at;
                Ok(())
            }
            None => Err(RepoError::NotFound(atom_id)),
        }
    }

    fn list_tags(&self) -> RepoResult<Vec<String>> {
        let store = self.0.borrow();
        let mut tags: Vec<String> = store.rows.iter().flat_map(|r| r.tags.clone()).collect();
        tags.sort();
        tags.dedup();
        Ok(tags)
    }
}

#[test]
fn create_and_update_note_derives_markdown_preview_fields() {
    let service = NoteService::new(MemoryRepo::default());

    let created = service
        .create_note("# Title\n\n![cover](images/first.png)\nBody with **markdown**")
        .unwrap();
    assert_eq!(created.preview_image.as_deref(), Some("images/first.png"));
    assert!(created
        .preview_text
        .as_deref()
        .unwrap_or("")
        .contains("Title"));

    let updated = service
        .update_note(
            created.atom_id,
            "Updated body with [link](https://example.com) and ![](second.png)",
        )
        .unwrap();
    assert_eq!(updated.preview_image.as_deref(), Some("second.png"));
    assert!(updated
        .preview_text
        .as_deref()
        .unwrap_or("")
        .contains("Updated"));
}

#[test]
fn notes_list_returns_note_only_and_stable_order() {
    let repo = MemoryRepo::default();
    {
        let atom_service = AtomService::new(repo.clone());
        atom_service.create_task("task row").unwrap();
    }

    let (first_id, second_id) = {
        let service = NoteService::new(repo.clone());
        let first = service.create_note("first note").unwrap();
        let second = service.create_note("second note").unwrap();
        (first.atom_id, second.atom_id)
    };

    repo.set_updated_at(first_id, 2000);
    repo.set_updated_at(second_id, 1000);

    let service = NoteService::new(repo.clone());
    let listed = service.list_notes(None, Some(10), 0).unwrap();
    assert_eq!(listed.items.len(), 2);
    assert_eq!(listed.items[0].atom_id, first_id);
    assert_eq!(listed.items[1].atom_id, second_id);
}

#[test]
fn note_set_tags_replaces_full_set_with_lowercase_normalization() {
    let mut service = NoteService::new(MemoryRepo::default());
    let created = service.create_note("tag target").unwrap();

    let after_first = service
        .set_note_tags(
            created.atom_id,
            vec![
                "Work".to_string(),
                "IMPORTANT".to_string(),
                "work".to_string(),
            ],
        )
        .unwrap();
    assert_eq!(
        after_first.tags,
        vec!["important".to_string(), "work".to_string()]
    );

    let after_replace = service
        .set_note_tags(created.atom_id, vec!["Personal".to_string()])
        .unwrap();
    assert_eq!(after_replace.tags, vec!["personal".to_string()]);
}

#[test]
fn notes_list_supports_single_tag_filter() {
    let mut service = NoteService::new(MemoryRepo::default());
    let note_work = service.create_note("work note").unwrap();
    let note_other = service.create_note("other note").unwrap();
    service
        .set_note_tags(note_work.atom_id, vec!["Work".to_string()])
        .unwrap();
    service
        .set_note_tags(note_other.atom_id, vec!["Personal".to_string()])
        .unwrap();

    let filtered = service
        .list_notes(Some("WORK".to_string()), Some(10), 0)
        .unwrap();
    assert_eq!(filtered.items.len(), 1);
    assert_eq!(filtered.items[0].atom_id, note_work.atom_id);
}

#[test]
fn notes_list_limit_defaults_to_10_and_caps_at_50() {
    let service = NoteService::new(MemoryRepo::default());
    for idx in 0..60 {
        service.create_note(&format!("note {idx}")).unwrap();
    }

    let defaulted = service.list_notes(None, None, 0).unwrap();
    assert_eq!(defaulted.applied_limit, 10);
    assert_eq!(defaulted.items.len(), 10);

    let capped = service.list_notes(None, Some(500), 0).unwrap();
    assert_eq!(capped.applied_limit, 50);
    assert_eq!(capped.items.len(), 50);
}

#[test]
fn set_note_tags_rejects_blank_tag_values() {
    let mut service = NoteService::new(MemoryRepo::default());
    let created = service.create_note("tag target").unwrap();

    let err = service
        .set_note_tags(created.atom_id, vec!["   ".to_string()])
        .unwrap_err();
    assert!(matches!(err, NoteServiceError::InvalidTag(_)));
}

#[test]
fn service_wraps_repository_calls() {
    let service = AtomService::new(MemoryRepo::default());

    let atom = Atom::new(AtomType::Note, "from service");
    let id = service.create_atom(&atom).unwrap();

    let fetched = service.get_atom(id, false).unwrap().unwrap();
    assert_eq!(fetched.content, "from service");

    let ids: HashSet<_> = service
        .list_atoms(&AtomListQuery::default())
        .unwrap()
        .into_iter()
        .map(|item| item.uuid)
        .collect();
    assert!(ids.contains(&id));
}

#[test]
fn a_created_task_is_still_to_do() {
    let repo = MemoryRepo::default();
    let service = AtomService::new(repo.clone());
    let id = service.create_task("ship it").unwrap();
    let atom = service.get_atom(id, false).unwrap().unwrap();
    assert_eq!(atom.kind, AtomType::Task);
    assert_eq!(atom.content, "ship it");
    assert_eq!(atom.task_status, Some(TaskStatus::Todo));
    assert_eq!(atom.event_start, None);
    assert_eq!(atom.event_end, None);
    assert_eq!(atom.preview_text, None);
    assert!(!atom.is_deleted);

    let made = task_atom("x");
    assert_ne!(made.uuid, 0);
    assert_eq!(made.task_status, Some(TaskStatus::Todo));
    assert_eq!(made.hlc_timestamp, None);
}

#[test]
fn a_scheduled_event_is_a_point_or_a_range() {
    let service = AtomService::new(MemoryRepo::default());
    let point = service
        .schedule_event(&ScheduleEventRequest {
            title: "standup".to_string(),
            start_epoch_ms: 1_700_000_000_000,
            end_epoch_ms: None,
        })
        .unwrap();
    let atom = service.get_atom(point, false).unwrap().unwrap();
    assert_eq!(atom.kind, AtomType::Event);
    assert_eq!(atom.content, "standup");
    assert_eq!(atom.event_start, Some(1_700_000_000_000));
    assert_eq!(atom.event_end, None);
    assert_eq!(atom.task_status, None);

    let range = event_atom(&ScheduleEventRequest {
        title: "offsite".to_string(),
        start_epoch_ms: 10,
        end_epoch_ms: Some(20),
    });
    assert_eq!(range.event_start, Some(10));
    assert_eq!(range.event_end, Some(20));

    let reversed = service.schedule_event(&ScheduleEventRequest {
        title: "backwards".to_string(),
        start_epoch_ms: 20,
        end_epoch_ms: Some(10),
    });
    assert_eq!(
        reversed,
        Err(RepoError::Validation(
            AtomValidationError::InvalidEventWindow { start: 20, end: 10 }
        ))
    );
}

#[test]
fn a_note_atom_carries_its_preview() {
    let atom = note_atom("# Hello\n\n![pic]( a.png ) world");
    assert_eq!(atom.kind, AtomType::Note);
    assert_eq!(atom.content, "# Hello\n\n![pic]( a.png ) world");
    assert_eq!(atom.preview_image.as_deref(), Some("a.png"));
    assert_eq!(atom.preview_text.as_deref(), Some("Hello world"));
    assert_eq!(atom.task_status, None);
    assert_ne!(atom.uuid, 0);

    let service = AtomService::new(MemoryRepo::default());
    let id = service.create_note("plain **bold**").unwrap();
    let stored = service.get_atom(id, false).unwrap().unwrap();
    assert_eq!(stored.preview_text.as_deref(), Some("plain bold"));
    assert_eq!(stored.preview_image, None);
}

#[test]
fn atoms_are_updated_listed_and_tombstoned_through_the_service() {
    let service = AtomService::new(MemoryRepo::default());
    let note = service.create_note("one").unwrap();
    let task = service.create_task("two").unwrap();

    let mut atom = service.get_atom(task, false).unwrap().unwrap();
    atom.task_status = Some(TaskStatus::Done);
    service.update_atom(&atom).unwrap();
    assert_eq!(
        service.get_atom(task, false).unwrap().unwrap().task_status,
        Some(TaskStatus::Done)
    );

    let tasks = service
        .list_atoms(&AtomListQuery {
            kind: Some(AtomType::Task),
            include_deleted: false,
            limit: None,
            offset: 0,
        })
        .unwrap();
    assert_eq!(tasks.len(), 1);
    assert_eq!(tasks[0].uuid, task);

    service.soft_delete_atom(note).unwrap();
    assert_eq!(service.get_atom(note, false).unwrap(), None);
    assert!(service.get_atom(note, true).unwrap().unwrap().is_deleted);
    assert_eq!(
        service.soft_delete_atom(0xdead),
        Err(RepoError::NotFound(0xdead))
    );
}

#[test]
fn a_blank_tag_filter_is_refused_before_the_repository_is_asked() {
    let repo = MemoryRepo::default();
    let service = NoteService::new(repo.clone());
    let err = service
        .list_notes(Some("  \t".to_string()), None, 0)
        .unwrap_err();
    assert_eq!(err, NoteServiceError::InvalidTag("  \t".to_string()));
    assert_eq!(err.message(), "invalid tag: `  \t`");
    assert!(repo.0.borrow().queries.is_empty());

    service
        .list_notes(Some("  Work ".to_string()), Some(0), 7)
        .unwrap();
    assert_eq!(
        repo.0.borrow().queries,
        vec![NoteListQuery {
            tag: Some("work".to_string()),
            limit: Some(10),
            offset: 7,
        }]
    );
}

#[test]
fn the_query_of_a_list_is_normalized() {
    assert_eq!(
        note_query(None, None, 0),
        Ok(NoteListQuery {
            tag: None,
            limit: Some(10),
            offset: 0,
        })
    );
    assert_eq!(
        note_query(Some(" Home ".to_string()), Some(51), 3),
        Ok(NoteListQuery {
            tag: Some("home".to_string()),
            limit: Some(50),
            offset: 3,
        })
    );
    assert_eq!(
        note_query(Some("a".to_string()), Some(50), 0)
            .unwrap()
            .limit,
        Some(50)
    );
    assert_eq!(
        note_query(Some("".to_string()), Some(5), 0),
        Err(NoteServiceError::InvalidTag("".to_string()))
    );
}

#[test]
fn the_first_blank_tag_refuses_the_whole_set() {
    assert_eq!(
        checked_tags(&[
            "b".to_string(),
            " ".to_string(),
            "A".to_string(),
            "".to_string()
        ]),
        Err(NoteServiceError::InvalidTag(" ".to_string()))
    );
    assert_eq!(
        checked_tags(&["b".to_string(), " A ".to_string(), "B".to_string()]),
        Ok(vec!["a".to_string(), "b".to_string()])
    );
    assert_eq!(checked_tags(&[]), Ok(vec![]));

    let repo = MemoryRepo::default();
    let mut service = NoteService::new(repo.clone());
    let created = service.create_note("n").unwrap();
    service
        .set_note_tags(created.atom_id, vec!["keep".to_string()])
        .unwrap();
    let err = service
        .set_note_tags(created.atom_id, vec!["new".to_string(), "\n".to_string()])
        .unwrap_err();
    assert_eq!(err, NoteServiceError::InvalidTag("\n".to_string()));
    assert_eq!(
        service.get_note(created.atom_id).unwrap().unwrap().tags,
        vec!["keep"]
    );
    assert_eq!(service.list_tags().unwrap(), vec!["keep"]);
}

#[test]
fn a_read_back_is_judged_by_what_was_found() {
    let note = NoteRecord {
        atom_id: 7,
        content: "c".to_string(),
        preview_text: None,
        preview_image: None,
        updated_at: 1,
        tags: vec![],
    };
    assert_eq!(read_back(Ok(Some(note.clone())), "d"), Ok(note));
    let missing = read_back(Ok(None), "created note not found in read-back").unwrap_err();
    assert_eq!(
        missing,
        NoteServiceError::InconsistentState("created note not found in read-back")
    );
    assert_eq!(
        missing.message(),
        "inconsistent note state: created note not found in read-back"
    );
    let not_found = read_back(Err(RepoError::NotFound(0x1234)), "d").unwrap_err();
    assert_eq!(not_found, NoteServiceError::NoteNotFound(0x1234));
    assert_eq!(
        not_found.message(),
        "note not found: 00000000-0000-0000-0000-000000001234"
    );
    let other = read_back(Err(RepoError::InvalidData("x".to_string())), "d").unwrap_err();
    assert_eq!(
        other,
        NoteServiceError::Repo(RepoError::InvalidData("x".to_string()))
    );
    assert_eq!(other.message(), "invalid persisted atom data: x");
    assert_eq!(
        NoteServiceError::from(RepoError::NotFound(5)),
        NoteServiceError::NoteNotFound(5)
    );
}

#[test]
fn a_write_whose_note_cannot_be_read_back_is_an_inconsistent_state() {
    let repo = MemoryRepo::default();
    let mut service = NoteService::new(repo.clone());
    let created = service.create_note("n").unwrap();
    repo.0.borrow_mut().hide_on_read = true;
    assert_eq!(
        service.create_note("m"),
        Err(NoteServiceError::InconsistentState(
            "created note not found in read-back"
        ))
    );
    assert_eq!(
        service.update_note(created.atom_id, "o"),
        Err(NoteServiceError::InconsistentState(
            "updated note not found in read-back"
        ))
    );
    assert_eq!(
        service.set_note_tags(created.atom_id, vec!["t".to_string()]),
        Err(NoteServiceError::InconsistentState(
            "note missing after tag replacement"
        ))
    );
    repo.0.borrow_mut().hide_on_read = false;
    assert_eq!(
        service.update_note(0xabc, "o"),
        Err(NoteServiceError::NoteNotFound(0xabc))
    );
    assert_eq!(
        service.set_note_tags(0xabc, vec!["t".to_string()]),
        Err(NoteServiceError::NoteNotFound(0xabc))
    );
}

#[test]
fn note_create_and_get_returns_typed_payload() {
    let service = NoteService::new(MemoryRepo::default());
    let created = note_create_impl(&service, "# heading ![](first.png)");
    assert!(created.ok, "{}", created.message);
    assert!(created.error_code.is_none());
    let atom_id = created
        .note
        .as_ref()
        .expect("note payload should exist")
        .atom_id
        .clone();

    let loaded = note_get_impl(&service, &atom_id);
    assert!(loaded.ok, "{}", loaded.message);
    assert!(loaded.error_code.is_none());
    assert_eq!(
        loaded
            .note
            .as_ref()
            .and_then(|note| note.preview_image.as_deref()),
        Some("first.png")
    );
}

#[test]
fn note_update_uses_full_replace_and_updates_preview() {
    let service = NoteService::new(MemoryRepo::default());
    let created = note_create_impl(&service, "first body");
    assert!(created.ok, "{}", created.message);
    let atom_id = created
        .note
        .as_ref()
        .expect("created note payload")
        .atom_id
        .clone();

    let updated = note_update_impl(&service, &atom_id, "second body ![](two.png)");
    assert!(updated.ok, "{}", updated.message);
    assert_eq!(
        updated
            .note
            .as_ref()
            .and_then(|note| note.preview_image.as_deref()),
        Some("two.png")
    );
}

#[test]
fn notes_list_caps_limit_and_filters_single_tag() {
    let mut service = NoteService::new(MemoryRepo::default());
    let first = note_create_impl(&service, "work note");
    assert!(first.ok, "{}", first.message);
    let first_id = first.note.as_ref().expect("first note").atom_id.clone();
    let second = note_create_impl(&service, "other note");
    assert!(second.ok, "{}", second.message);
    let second_id = second.note.as_ref().expect("second note").atom_id.clone();

    let tag_set = note_set_tags_impl(
        &mut service,
        &first_id,
        vec![
            "Work".to_string(),
            "work".to_string(),
            "Important".to_string(),
        ],
    );
    assert!(tag_set.ok, "{}", tag_set.message);

    let filtered = notes_list_impl(&service, Some("work".to_string()), Some(200), Some(0));
    assert!(filtered.ok, "{}", filtered.message);
    assert_eq!(filtered.applied_limit, 50);
    assert!(filtered.items.iter().any(|item| item.atom_id == first_id));
    assert!(!filtered.items.iter().any(|item| item.atom_id == second_id));
}

#[test]
fn notes_list_rejects_blank_tag_with_invalid_tag_error_code() {
    let service = NoteService::new(MemoryRepo::default());
    let created = note_create_impl(&service, "blank tag filter source");
    assert!(created.ok, "{}", created.message);

    let response = notes_list_impl(&service, Some("   ".to_string()), Some(20), Some(0));
    assert!(!response.ok);
    assert_eq!(response.error_code.as_deref(), Some("invalid_tag"));
}

#[test]
fn note_get_invalid_id_returns_error_code() {
    let service = NoteService::new(MemoryRepo::default());
    let response = note_get_impl(&service, "not-a-uuid");
    assert!(!response.ok);
    assert_eq!(response.error_code.as_deref(), Some("invalid_note_id"));
}

#[test]
fn tags_list_returns_normalized_values() {
    let mut service = NoteService::new(MemoryRepo::default());
    let created = note_create_impl(&service, "tag source");
    assert!(created.ok, "{}", created.message);
    let atom_id = created
        .note
        .as_ref()
        .expect("created note payload")
        .atom_id
        .clone();
    let tagged = note_set_tags_impl(
        &mut service,
        &atom_id,
        vec!["Work".to_string(), "HOME".to_string()],
    );
    assert!(tagged.ok, "{}", tagged.message);

    let tags = tags_list_impl(&service);
    assert!(tags.ok, "{}", tags.message);
    assert!(tags.tags.contains(&"work".to_string()));
    assert!(tags.tags.contains(&"home".to_string()));
    assert_eq!(tags.message, "Loaded 2 tag(s).");
}

#[test]
fn note_envelopes_say_what_happened() {
    let note = NoteRecord {
        atom_id: 0x11111111_2222_4333_8444_555555555555,
        content: "c".to_string(),
        preview_text: Some("c".to_string()),
        preview_image: None,
        updated_at: 9,
        tags: vec!["t".to_string()],
    };
    let item = NoteItem {
        atom_id: "11111111-2222-4333-8444-555555555555".to_string(),
        content: "c".to_string(),
        preview_text: Some("c".to_string()),
        preview_image: None,
        updated_at: 9,
        tags: vec!["t".to_string()],
    };
    let done = note_response(Ok(note.clone()), "Note loaded.");
    assert!(done.ok);
    assert_eq!(done.error_code, None);
    assert_eq!(done.message, "Note loaded.");
    assert_eq!(done.note, Some(item.clone()));

    let failed = note_response(Err(NotesFfiError::DbBusy("locked".to_string())), "Note loaded.");
    assert!(!failed.ok);
    assert_eq!(failed.error_code.as_deref(), Some("db_busy"));
    assert_eq!(failed.message, "notes database busy: locked");
    assert_eq!(failed.note, None);

    let mut second = note.clone();
    second.atom_id = 2;
    let listed = notes_list_response(
        Ok(NotesListResult {
            items: vec![note.clone(), second],
            applied_limit: 7,
        }),
        Some(500),
    );
    assert!(listed.ok);
    assert_eq!(listed.message, "Loaded 2 note(s).");
    assert_eq!(listed.applied_limit, 7);
    assert_eq!(listed.items.len(), 2);
    assert_eq!(listed.items[0], item);
    assert_eq!(listed.items[1].atom_id, "00000000-0000-0000-0000-000000000002");

    let refused = notes_list_response(Err(NotesFfiError::InvalidTag(" ".to_string())), Some(500));
    assert!(!refused.ok);
    assert_eq!(refused.error_code.as_deref(), Some("invalid_tag"));
    assert_eq!(refused.message, "invalid tag:  ");
    assert!(refused.items.is_empty());
    assert_eq!(refused.applied_limit, 50);

    let none = tags_list_response(Ok(vec![]));
    assert_eq!(none.message, "Loaded 0 tag(s).");
    let broken = tags_list_response(Err(NotesFfiError::Internal("x".to_string())));
    assert_eq!(broken.error_code.as_deref(), Some("internal_error"));
    assert!(broken.tags.is_empty());
}

#[test]
fn a_note_id_is_read_trimmed_and_refused_as_it_was_given() {
    assert_eq!(
        parse_note_id("  11111111-2222-4333-8444-555555555555\n"),
        Ok(0x11111111_2222_4333_8444_555555555555)
    );
    assert_eq!(
        parse_note_id(" nope "),
        Err(NotesFfiError::InvalidNoteId(" nope ".to_string()))
    );
    let service = NoteService::new(MemoryRepo::default());
    let response = note_update_impl(&service, " nope ", "x");
    assert_eq!(response.error_code.as_deref(), Some("invalid_note_id"));
    assert_eq!(response.message, "invalid note id:  nope ");
    let mut service = service;
    let response = note_set_tags_impl(&mut service, "", vec![]);
    assert_eq!(response.error_code.as_deref(), Some("invalid_note_id"));
}

#[test]
fn a_note_that_is_looked_for_and_not_there_is_not_found() {
    assert_eq!(found_note(Ok(None), 7), Err(NoteServiceError::NoteNotFound(7)));
    assert_eq!(
        found_note(Err(RepoError::NotFound(8)), 7),
        Err(NoteServiceError::NoteNotFound(8))
    );
    let service = NoteService::new(MemoryRepo::default());
    let response = note_get_impl(&service, "00000000-0000-0000-0000-000000000007");
    assert!(!response.ok);
    assert_eq!(response.error_code.as_deref(), Some("note_not_found"));
    assert_eq!(
        response.message,
        "note not found: 00000000-0000-0000-0000-000000000007"
    );
    let response = note_update_impl(&service, "00000000-0000-0000-0000-000000000007", "x");
    assert_eq!(response.error_code.as_deref(), Some("note_not_found"));
}

#[test]
fn errors_of_the_note_service_keep_their_codes() {
    assert_eq!(
        map_note_service_error(NoteServiceError::InvalidTag("  ".to_string())),
        NotesFfiError::InvalidTag("  ".to_string())
    );
    assert_eq!(
        map_note_service_error(NoteServiceError::NoteNotFound(1)),
        NotesFfiError::NoteNotFound("00000000-0000-0000-0000-000000000001".to_string())
    );
    assert_eq!(
        map_note_service_error(NoteServiceError::InconsistentState("gone")),
        NotesFfiError::Internal("gone".to_string())
    );
    assert_eq!(
        map_note_service_error(NoteServiceError::Repo(RepoError::InvalidData("bad".to_string()))),
        NotesFfiError::Internal("bad".to_string())
    );
    assert_eq!(
        map_note_service_error(NoteServiceError::Repo(RepoError::Validation(
            AtomValidationError::NilUuid
        ))),
        NotesFfiError::InvalidArgument("uuid must not be nil".to_string())
    );
}

#[test]
fn entry_actions_trim_their_text_and_report_the_id() {
    let repo = MemoryRepo::default();
    let service = AtomService::new(repo.clone());
    let note = entry_create_note_impl(&service, "  hello  ");
    assert!(note.ok, "{}", note.message);
    assert_eq!(note.message, "Note created.");
    let task = entry_create_task_impl(&service, "\ttodo\n");
    assert_eq!(task.message, "Task created.");
    let event = entry_schedule_impl(&service, " sync ", 1_000, None);
    assert_eq!(event.message, "Event scheduled.");

    let contents: Vec<(String, AtomType)> = repo
        .0
        .borrow()
        .rows
        .iter()
        .map(|r| (r.atom.content.clone(), r.atom.kind))
        .collect();
    assert_eq!(
        contents,
        vec![
            ("hello".to_string(), AtomType::Note),
            ("todo".to_string(), AtomType::Task),
            ("sync".to_string(), AtomType::Event)
        ]
    );
    let stored_id = repo.0.borrow().rows[1].atom.uuid;
    assert_eq!(task.atom_id, Some(lazynote_core::model::uuid::write_uuid(stored_id)));

    let reversed = entry_schedule_impl(&service, "bad range", 2_000, Some(1_000));
    assert!(!reversed.ok);
    assert_eq!(reversed.atom_id, None);
    assert_eq!(
        reversed.message,
        "entry_schedule failed: event_end (1000) must be >= event_start (2000)"
    );
    assert_eq!(
        entry_action_response(Err(RepoError::NotFound(3)), "done", "entry_x").message,
        "entry_x failed: atom not found: 00000000-0000-0000-0000-000000000003"
    );
    assert_eq!(
        entry_action_response(Ok(3), "done", "entry_x"),
        lazynote_core::api::notes::EntryActionResponse {
            ok: true,
            atom_id: Some("00000000-0000-0000-0000-000000000003".to_string()),
            message: "done".to_string(),
        }
    );
}

#[test]
fn the_arguments_of_an_atom_call_are_read_as_they_are_given() {
    assert_eq!(
        parse_atom_id(" 11111111-2222-4333-8444-555555555555 "),
        Ok(0x11111111_2222_4333_8444_555555555555)
    );
    assert_eq!(
        parse_atom_id(" x "),
        Err(AtomFfiError::InvalidAtomId(" x ".to_string()))
    );
    assert_eq!(parse_status_argument(None), Ok(None));
    assert_eq!(parse_status_argument(Some("todo")), Ok(Some(TaskStatus::Todo)));
    assert_eq!(
        parse_status_argument(Some("in_progress")),
        Ok(Some(TaskStatus::InProgress))
    );
    assert_eq!(parse_status_argument(Some("done")), Ok(Some(TaskStatus::Done)));
    assert_eq!(
        parse_status_argument(Some("cancelled")),
        Ok(Some(TaskStatus::Cancelled))
    );
    assert_eq!(
        parse_status_argument(Some(" done")),
        Err(AtomFfiError::InvalidStatus(" done".to_string()))
    );
    assert_eq!(
        parse_status_argument(Some("Done")),
        Err(AtomFfiError::InvalidStatus("Done".to_string()))
    );
}

#[test]
fn a_reversed_window_is_told_as_an_invalid_time_range() {
    let told = map_atom_repo_error(RepoError::Validation(
        AtomValidationError::InvalidEventWindow { start: 200, end: -1 },
    ));
    assert_eq!(
        told,
        AtomFfiError::InvalidTimeRange("end_at (-1) must be >= start_at (200)".to_string())
    );
    assert_eq!(told.code(), "invalid_time_range");
    assert_eq!(
        told.message(),
        "invalid time range: end_at (-1) must be >= start_at (200)"
    );
    assert_eq!(
        map_atom_repo_error(RepoError::Validation(AtomValidationError::NilUuid)),
        AtomFfiError::DbError("uuid must not be nil".to_string())
    );
    assert_eq!(
        map_atom_repo_error(RepoError::NotFound(5)),
        AtomFfiError::DbError("atom not found: 00000000-0000-0000-0000-000000000005".to_string())
    );

    let done = atom_action_response(Ok(5), "Status updated.");
    assert!(done.ok);
    assert_eq!(
        done.atom_id.as_deref(),
        Some("00000000-0000-0000-0000-000000000005")
    );
    assert_eq!(done.message, "Status updated.");
    let failed = atom_action_response(
        Err(AtomFfiError::AtomNotFound("x".to_string())),
        "Status updated.",
    );
    assert!(!failed.ok);
    assert_eq!(failed.atom_id, None);
    assert_eq!(failed.message, "atom not found: x");
}
