//! Atom kinds as the rest of the core sees them.

use vstd::prelude::*;
use crate::text::decimal;
use crate::text::decimal_text;
use crate::text::join3;
use crate::outside::random_uuid;

verus! {

/// Stable identifier of an atom, the 128 bits of its UUID.
pub type AtomId = u128;

/// Unified category for all atom projections.
#[derive(Debug, Clone, Copy, PartialEq, Eq, Structural)]
pub enum AtomType {
    /// Free-form markdown note.
    Note,
    /// Actionable task with status metadata.
    Task,
    /// Calendar event with optional start/end time.
    Event,
}

/// Task lifecycle state for `AtomType::Task`.
#[derive(Debug, Clone, Copy, PartialEq, Eq, Structural)]
pub enum TaskStatus {
    /// Created but not started.
    Todo,
    /// Work is in progress.
    InProgress,
    /// Completed successfully.
    Done,
    /// No longer actionable.
    Cancelled,
}

/// Why an atom is not valid.
#[derive(Debug, Clone, PartialEq, Eq, Structural)]
pub enum AtomValidationError {
    NilUuid,
    InvalidEventWindow { start: i64, end: i64 },
}

/// Canonical domain record for note/task/event data.
#[derive(Debug, Clone, PartialEq, Eq)]
pub struct Atom {
    /// Stable global ID used for linking, sync mapping and auditing.
    pub uuid: AtomId,
    /// The projection this atom is rendered by.
    pub kind: AtomType,
    /// Markdown body (or plain text fallback for simple inputs).
    pub content: String,
    /// Plain-text summary derived from a note's markdown, where there is one.
    pub preview_text: Option<String>,
    /// First image path of a note's markdown, where there is one.
    pub preview_image: Option<String>,
    /// Meaningful only when `kind == AtomType::Task`.
    pub task_status: Option<TaskStatus>,
    /// Unix epoch milliseconds. Meaningful for event-like atoms.
    pub event_start: Option<i64>,
    /// Unix epoch milliseconds. Should be >= `event_start` when set.
    pub event_end: Option<i64>,
    /// Reserved for a later merge strategy.
    pub hlc_timestamp: Option<String>,
    /// Soft delete tombstone to preserve sync/recovery history.
    pub is_deleted: bool,
}

/// What is wrong with an atom of id `uuid` and the given event window, if
/// anything: a nil id, or an end before the start.
pub open spec fn atom_issue(uuid: u128, event_start: Option<i64>, event_end: Option<i64>) -> Option<
    AtomValidationError,
> {
    if uuid == 0 {
        Some(AtomValidationError::NilUuid)
    } else if event_start is Some && event_end is Some && event_end->0 < event_start->0 {
        Some(AtomValidationError::InvalidEventWindow { start: event_start->0, end: event_end->0 })
    } else {
        None
    }
}

impl Atom {
    /// A plain atom: no task state, no event window, no tombstone.
    pub open spec fn plain(&self, kind: AtomType, content: Seq<char>) -> bool {
        &&& self.kind == kind
        &&& self.content@ == content
        &&& self.preview_text is None
        &&& self.preview_image is None
        &&& self.task_status is None
        &&& self.event_start is None
        &&& self.event_end is None
        &&& self.hlc_timestamp is None
        &&& !self.is_deleted
    }

    /// What is wrong with this atom, if anything.
    pub open spec fn issue(&self) -> Option<AtomValidationError> {
        atom_issue(self.uuid, self.event_start, self.event_end)
    }

    /// Creates a new atom with a generated stable ID.
    pub fn new(kind: AtomType, content: &str) -> (r: Self)
        ensures
            r.plain(kind, content@),
            r.uuid != 0,
            r.issue() is None,
    {
        let uuid = random_uuid();
        assert(uuid != 0) by (bit_vector)
            requires
                uuid & 0x0000_0000_0000_f000_c000_0000_0000_0000u128
                    == 0x0000_0000_0000_4000_8000_0000_0000_0000u128,
        ;
        Atom {
            uuid,
            kind,
            content: content.to_owned(),
            preview_text: None,
            preview_image: None,
            task_status: None,
            event_start: None,
            event_end: None,
            hlc_timestamp: None,
            is_deleted: false,
        }
    }

    /// Creates a new atom with generated stable ID and validates invariants.
    pub fn try_new(kind: AtomType, content: &str) -> (r: Result<Self, AtomValidationError>)
        ensures
            r is Ok,
            r->Ok_0.plain(kind, content@),
            r->Ok_0.uuid != 0,
    {
        let atom = Atom::new(kind, content);
        match atom.validate() {
            Ok(()) => Ok(atom),
            Err(e) => Err(e),
        }
    }

    /// Creates a new atom with a caller-provided stable ID, which must not be nil.
    pub fn with_id(uuid: AtomId, kind: AtomType, content: &str) -> (r: Result<Self, AtomValidationError>)
        ensures
            match r {
                Ok(atom) => uuid != 0 && atom.uuid == uuid && atom.plain(kind, content@),
                Err(e) => uuid == 0 && e == AtomValidationError::NilUuid,
            },
    {
        let atom = Atom {
            uuid,
            kind,
            content: content.to_owned(),
            preview_text: None,
            preview_image: None,
            task_status: None,
            event_start: None,
            event_end: None,
            hlc_timestamp: None,
            is_deleted: false,
        };
        match atom.validate() {
            Ok(()) => Ok(atom),
            Err(e) => Err(e),
        }
    }

    /// Marks this Atom as softly deleted (tombstoned).
    pub fn soft_delete(&mut self)
        ensures
            final(self).is_deleted,
            final(self).uuid == old(self).uuid,
            final(self).kind == old(self).kind,
            final(self).content == old(self).content,
            final(self).preview_text == old(self).preview_text,
            final(self).preview_image == old(self).preview_image,
            final(self).task_status == old(self).task_status,
            final(self).event_start == old(self).event_start,
            final(self).event_end == old(self).event_end,
            final(self).hlc_timestamp == old(self).hlc_timestamp,
    {
        self.is_deleted = true;
    }

    /// Clears soft delete flag.
    pub fn restore(&mut self)
        ensures
            !final(self).is_deleted,
            final(self).uuid == old(self).uuid,
            final(self).kind == old(self).kind,
            final(self).content == old(self).content,
            final(self).preview_text == old(self).preview_text,
            final(self).preview_image == old(self).preview_image,
            final(self).task_status == old(self).task_status,
            final(self).event_start == old(self).event_start,
            final(self).event_end == old(self).event_end,
            final(self).hlc_timestamp == old(self).hlc_timestamp,
    {
        self.is_deleted = false;
    }

    /// Returns whether this Atom should be considered visible/active.
    pub fn is_active(&self) -> (r: bool)
        ensures
            r == !self.is_deleted,
    {
        !self.is_deleted
    }

    /// Validates core invariants before persistence/FFI boundary hand-off.
    pub fn validate(&self) -> (r: Result<(), AtomValidationError>)
        ensures
            match r {
                Ok(()) => self.issue() is None,
                Err(e) => self.issue() == Some(e),
            },
    {
        if self.uuid == 0 {
            return Err(AtomValidationError::NilUuid);
        }
        match (self.event_start, self.event_end) {
            (Some(start), Some(end)) => {
                if end < start {
                    return Err(AtomValidationError::InvalidEventWindow { start, end });
                }
            },
            _ => {},
        }
        Ok(())
    }
}

/// What a validation error says.
pub open spec fn atom_error_text(e: AtomValidationError) -> Seq<char> {
    match e {
        AtomValidationError::NilUuid => "uuid must not be nil"@,
        AtomValidationError::InvalidEventWindow { start, end } => "event_end ("@ + decimal_text(
            end as int,
        ) + ") must be >= event_start ("@ + decimal_text(start as int) + ")"@,
    }
}

impl AtomValidationError {
    /// The message of this error.
    pub fn message(&self) -> (r: String)
        ensures
            r@ == atom_error_text(*self),
    {
        match self {
            AtomValidationError::NilUuid => "uuid must not be nil".to_owned(),
            AtomValidationError::InvalidEventWindow { start, end } => {
                let mut r = join3("event_end (", decimal(*end).as_str(), ") must be >= event_start (");
                r.append(decimal(*start).as_str());
                r.append(")");
                r
            },
        }
    }
}

} // verus!
