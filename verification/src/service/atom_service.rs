//! Atom use-case service: the atoms that the use-cases make, and the calls
//! that hand them to a repository.

use vstd::prelude::*;
use crate::model::atom::Atom;
use crate::model::atom::AtomId;
use crate::model::atom::AtomType;
use crate::model::atom::TaskStatus;
use crate::repo::atom_repo::AtomListQuery;
use crate::repo::atom_repo::AtomRepository;
use crate::repo::atom_repo::RepoResult;
use crate::service::note_service::derive_markdown_preview;
use crate::service::note_service::plain_text;
use crate::service::note_service::preview_of;
use crate::service::note_service::regex_group;
use crate::service::note_service::MARKDOWN_IMAGE;
use crate::text::optional_text;

verus! {

/// Request model for scheduling an event atom.
#[derive(Debug, Clone, PartialEq, Eq)]
pub struct ScheduleEventRequest {
    /// Event title/content stored in atom `content`.
    pub title: String,
    /// Event start in epoch milliseconds.
    pub start_epoch_ms: i64,
    /// Optional event end in epoch milliseconds.
    pub end_epoch_ms: Option<i64>,
}

/// A new atom of a use-case: a fresh id, no tombstone, no merge stamp.
pub open spec fn fresh(atom: Atom, kind: AtomType, content: Seq<char>) -> bool {
    &&& atom.uuid != 0
    &&& atom.kind == kind
    &&& atom.content@ == content
    &&& atom.hlc_timestamp is None
    &&& !atom.is_deleted
}

/// The note atom made of `content`: the content as it is, with the
/// preview derived from it.
pub fn note_atom(content: &str) -> (r: Atom)
    ensures
        fresh(r, AtomType::Note, content@),
        r.task_status is None,
        r.event_start is None,
        r.event_end is None,
        optional_text(r.preview_text) == preview_of(
            regex_group(MARKDOWN_IMAGE@, content@, 1),
            plain_text(content@),
        ).preview_text,
        optional_text(r.preview_image) == preview_of(
            regex_group(MARKDOWN_IMAGE@, content@, 1),
            plain_text(content@),
        ).preview_image,
{
    let preview = derive_markdown_preview(content);
    let mut atom = Atom::new(AtomType::Note, content);
    atom.preview_text = preview.preview_text;
    atom.preview_image = preview.preview_image;
    atom
}

/// The task atom made of `content`: a task that is still to do.
pub fn task_atom(content: &str) -> (r: Atom)
    ensures
        fresh(r, AtomType::Task, content@),
        r.task_status == Some(TaskStatus::Todo),
        r.event_start is None,
        r.event_end is None,
        r.preview_text is None,
        r.preview_image is None,
{
    let mut atom = Atom::new(AtomType::Task, content);
    atom.task_status = Some(TaskStatus::Todo);
    atom
}

/// The event atom of a request: the title as content, the start, and the
/// end where the request has one. The window is not judged here.
pub fn event_atom(request: &ScheduleEventRequest) -> (r: Atom)
    ensures
        fresh(r, AtomType::Event, request.title@),
        r.task_status is None,
        r.event_start == Some(request.start_epoch_ms),
        r.event_end == request.end_epoch_ms,
        r.preview_text is None,
        r.preview_image is None,
{
    let mut atom = Atom::new(AtomType::Event, request.title.as_str());
    atom.event_start = Some(request.start_epoch_ms);
    atom.event_end = request.end_epoch_ms;
    atom
}

/// Use-case service wrapper for atom CRUD operations. Every call goes to
/// the repository, and what the repository answers is handed back as it is.
pub struct AtomService<R: AtomRepository> {
    repo: R,
}

impl<R: AtomRepository> AtomService<R> {
    /// Creates a service using the provided repository implementation.
    pub fn new(repo: R) -> (r: Self)
        ensures
            r.repository() == repo,
    {
        AtomService { repo }
    }

    /// The repository that the service works on.
    pub closed spec fn repository(&self) -> R {
        self.repo
    }

    /// Creates a new atom through repository persistence.
    pub fn create_atom(&self, atom: &Atom) -> (r: RepoResult<AtomId>) {
        self.repo.create_atom(atom)
    }

    /// Creates the note atom of `content`.
    pub fn create_note(&self, content: &str) -> (r: RepoResult<AtomId>) {
        let atom = note_atom(content);
        self.repo.create_atom(&atom)
    }

    /// Creates the task atom of `content`.
    pub fn create_task(&self, content: &str) -> (r: RepoResult<AtomId>) {
        let atom = task_atom(content);
        self.repo.create_atom(&atom)
    }

    /// Schedules the event atom of a request.
    pub fn schedule_event(&self, request: &ScheduleEventRequest) -> (r: RepoResult<AtomId>) {
        let atom = event_atom(request);
        self.repo.create_atom(&atom)
    }

    /// Updates an existing atom by stable ID.
    pub fn update_atom(&self, atom: &Atom) -> (r: RepoResult<()>) {
        self.repo.update_atom(atom)
    }

    /// Gets one atom by ID with optional deleted-row visibility.
    pub fn get_atom(&self, id: AtomId, include_deleted: bool) -> (r: RepoResult<Option<Atom>>) {
        self.repo.get_atom(id, include_deleted)
    }

    /// Lists atoms using filter and pagination options.
    pub fn list_atoms(&self, query: &AtomListQuery) -> (r: RepoResult<Vec<Atom>>) {
        self.repo.list_atoms(query)
    }

    /// Soft-deletes an atom by ID.
    pub fn soft_delete_atom(&self, id: AtomId) -> (r: RepoResult<()>) {
        self.repo.soft_delete_atom(id)
    }
}

} // verus!
