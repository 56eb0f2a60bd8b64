//! Note use-case service: previews derived from markdown, the rules of a
//! list and of a tag set, and the calls that hand them to a repository.

use vstd::prelude::*;
use crate::text::optional_text;
use crate::text::text_of;
use crate::outside::regex_capture;
use crate::outside::regex_replace_all;
use crate::outside::text_from;
use crate::text::trim;
use crate::text::blank;
use crate::text::chars_of;
use crate::text::trimmed;
use crate::text::join2;
use crate::text::join3;
use crate::model::atom::AtomId;
use crate::model::uuid::text_of_uuid;
use crate::model::uuid::write_uuid;
use crate::repo::atom_repo::atom_repo_error_text;
use crate::repo::atom_repo::RepoError;
use crate::repo::atom_repo::RepoResult;
use crate::text::ascending;
use crate::repo::note_repo::normalize_note_limit;
use crate::repo::note_repo::normalize_tag;
use crate::repo::note_repo::normalize_tags;
use crate::repo::note_repo::note_limit;
use crate::repo::note_repo::tag_among;
use crate::repo::note_repo::tag_of;
use crate::text::texts;
use crate::repo::note_repo::NoteListQuery;
use crate::repo::note_repo::NoteRecord;
use crate::repo::note_repo::NoteRepository;
use crate::service::atom_service::note_atom;

verus! {

/// What `regex::Regex::replace_all` makes of `haystack` for the expression
/// `pattern` and the replacement `replacement`; `None` where the pattern
/// is no regular expression.
pub uninterp spec fn regex_replaced(pattern: Seq<char>, haystack: Seq<char>, replacement: Seq<char>) -> Option<
    Seq<char>,
>;

/// The text of group `group` of the leftmost match of the expression
/// `pattern` in `haystack`, as `regex::Regex::captures` finds it; `None`
/// where there is no such text.
pub uninterp spec fn regex_group(pattern: Seq<char>, haystack: Seq<char>, group: int) -> Option<Seq<char>>;

/// A markdown image, its path as the first group.
pub const MARKDOWN_IMAGE: &'static str = "!\\[[^\\]]*]\\(([^)]+)\\)";

/// A markdown link, its label as the first group.
pub const MARKDOWN_LINK: &'static str = "\\[([^\\]]+)\\]\\(([^)]+)\\)";

/// A run of markdown symbols.
pub const MARKDOWN_SYMBOLS: &'static str = "[\\*_`#>~\\-\\[\\]\\(\\)!]+";

/// A run of whitespace.
pub const WHITESPACE_RUN: &'static str = "\\s+";

/// The most characters of a preview text.
pub const PREVIEW_TEXT_CHARS: usize = 100;

/// Markdown-derived preview projection for notes.
#[derive(Debug, Clone, PartialEq, Eq)]
pub struct MarkdownPreview {
    /// Sanitized summary text.
    pub preview_text: Option<String>,
    /// First markdown image path.
    pub preview_image: Option<String>,
}

/// A preview as characters.
pub struct PreviewView {
    pub preview_text: Option<Seq<char>>,
    pub preview_image: Option<Seq<char>>,
}

impl View for MarkdownPreview {
    type V = PreviewView;

    open spec fn view(&self) -> PreviewView {
        PreviewView {
            preview_text: optional_text(self.preview_text),
            preview_image: optional_text(self.preview_image),
        }
    }
}

/// `text` with the matches of `pattern` replaced, or as it is where the
/// pattern is no regular expression.
pub open spec fn replaced(pattern: Seq<char>, text: Seq<char>, replacement: Seq<char>) -> Seq<char> {
    match regex_replaced(pattern, text, replacement) {
        Some(t) => t,
        None => text,
    }
}

/// The markdown `content` as plain text: images gone, links as their
/// labels, symbols gone, runs of whitespace as one blank.
pub open spec fn plain_text(content: Seq<char>) -> Seq<char> {
    let without_images = replaced(MARKDOWN_IMAGE@, content, " "@);
    let without_links = replaced(MARKDOWN_LINK@, without_images, "$1"@);
    let without_symbols = replaced(MARKDOWN_SYMBOLS@, without_links, " "@);
    replaced(WHITESPACE_RUN@, without_symbols, " "@)
}

/// The preview made of the path of the first image, if there is one, and
/// of the plain text of a note: the path trimmed, none where that is
/// empty; the first 100 characters of the trimmed text, none where that
/// is empty.
pub open spec fn preview_of(image: Option<Seq<char>>, plain: Seq<char>) -> PreviewView {
    PreviewView {
        preview_text: if blank(plain) {
            None
        } else if trimmed(plain).len() > 100 {
            Some(trimmed(plain).take(100))
        } else {
            Some(trimmed(plain))
        },
        preview_image: if image is Some && !blank(image->0) {
            Some(trimmed(image->0))
        } else {
            None
        },
    }
}

/// Makes the preview of a note from the path of its first image, if there
/// is one, and from its plain text.
pub fn preview_from(image: Option<&str>, plain: &str) -> (r: MarkdownPreview)
    ensures
        r@ == preview_of(text_of(image), plain@),
{
    let preview_image = match image {
        Some(path) => {
            let kept = trim(path);
            if kept.is_empty() {
                None
            } else {
                Some(kept.to_owned())
            }
        },
        None => None,
    };
    let kept = trim(plain);
    let preview_text = if kept.is_empty() {
        None
    } else {
        let chars = chars_of(kept);
        if chars.len() > PREVIEW_TEXT_CHARS {
            let mut head: Vec<char> = Vec::new();
            let mut i: usize = 0;
            while i < PREVIEW_TEXT_CHARS
                invariant
                    i <= PREVIEW_TEXT_CHARS,
                    PREVIEW_TEXT_CHARS < chars.len(),
                    head@ == chars@.take(i as int),
                decreases PREVIEW_TEXT_CHARS - i,
            {
                head.push(chars[i]);
                assert(head@ =~= chars@.take(i as int + 1));
                i += 1;
            }
            Some(text_from(&head))
        } else {
            Some(kept.to_owned())
        }
    };
    MarkdownPreview { preview_text, preview_image }
}

fn replace_or_keep(pattern: &str, text: String, replacement: &str) -> (r: String)
    ensures
        r@ == replaced(pattern@, text@, replacement@),
{
    match regex_replace_all(pattern, text.as_str(), replacement) {
        Some(t) => t,
        None => text,
    }
}

/// Derives note preview fields from markdown content.
///
/// Rules:
/// - `preview_image`: the path of the first markdown image.
/// - `preview_text`: markdown symbols removed, whitespace normalized, first
///   100 chars retained.
pub fn derive_markdown_preview(content: &str) -> (r: MarkdownPreview)
    ensures
        r@ == preview_of(regex_group(MARKDOWN_IMAGE@, content@, 1), plain_text(content@)),
{
    let image = regex_capture(MARKDOWN_IMAGE, content, 1);
    let without_images = replace_or_keep(MARKDOWN_IMAGE, content.to_owned(), " ");
    let without_links = replace_or_keep(MARKDOWN_LINK, without_images, "$1");
    let without_symbols = replace_or_keep(MARKDOWN_SYMBOLS, without_links, " ");
    let normalized = replace_or_keep(WHITESPACE_RUN, without_symbols, " ");
    match image {
        Some(path) => preview_from(Some(path.as_str()), normalized.as_str()),
        None => preview_from(None, normalized.as_str()),
    }
}

/// Service error for note use-cases.
#[derive(Debug, Clone, PartialEq, Eq)]
pub enum NoteServiceError {
    /// Tag input contains empty values.
    InvalidTag(String),
    /// Target note does not exist.
    NoteNotFound(AtomId),
    /// Persistence-layer failure.
    Repo(RepoError),
    /// Internal consistency mismatch between write and read-back.
    InconsistentState(&'static str),
}

/// What a note service error says.
pub open spec fn note_error_text(e: NoteServiceError) -> Seq<char> {
    match e {
        NoteServiceError::InvalidTag(value) => "invalid tag: `"@ + value@ + "`"@,
        NoteServiceError::NoteNotFound(id) => "note not found: "@ + text_of_uuid(id),
        NoteServiceError::Repo(err) => atom_repo_error_text(err),
        NoteServiceError::InconsistentState(details) => "inconsistent note state: "@ + details@,
    }
}

impl NoteServiceError {
    /// The message of this error.
    pub fn message(&self) -> (r: String)
        ensures
            r@ == note_error_text(*self),
    {
        match self {
            NoteServiceError::InvalidTag(value) => join3("invalid tag: `", value.as_str(), "`"),
            NoteServiceError::NoteNotFound(id) => join2("note not found: ", write_uuid(*id).as_str()),
            NoteServiceError::Repo(err) => err.message(),
            NoteServiceError::InconsistentState(details) => join2("inconsistent note state: ", details),
        }
    }
}

/// A repository error as the service reports it: a note that is not
/// found as such, any other as the repository's own.
pub open spec fn note_error_of(e: RepoError) -> NoteServiceError {
    match e {
        RepoError::NotFound(id) => NoteServiceError::NoteNotFound(id),
        other => NoteServiceError::Repo(other),
    }
}

impl From<RepoError> for NoteServiceError {
    fn from(value: RepoError) -> (r: Self) {
        match value {
            RepoError::NotFound(atom_id) => NoteServiceError::NoteNotFound(atom_id),
            other => NoteServiceError::Repo(other),
        }
    }
}

impl vstd::std_specs::convert::FromSpecImpl<RepoError> for NoteServiceError {
    open spec fn obeys_from_spec() -> bool {
        true
    }

    open spec fn from_spec(value: RepoError) -> Self {
        note_error_of(value)
    }
}

/// List result envelope used by service callers.
#[derive(Debug, Clone, PartialEq, Eq)]
pub struct NotesListResult {
    /// List items sorted by `updated_at DESC, uuid ASC`.
    pub items: Vec<NoteRecord>,
    /// Effective normalized limit used by the query.
    pub applied_limit: u32,
}

/// What a read-back after a write comes to: the note that was found; an
/// inconsistent state, with `details`, where none was; the repository's
/// error as the service reports it.
pub open spec fn read_back_of(found: RepoResult<Option<NoteRecord>>, details: &'static str) -> Result<
    NoteRecord,
    NoteServiceError,
> {
    match found {
        Ok(Some(note)) => Ok(note),
        Ok(None) => Err(NoteServiceError::InconsistentState(details)),
        Err(e) => Err(note_error_of(e)),
    }
}

/// Judges the read-back that follows a write.
pub fn read_back(found: RepoResult<Option<NoteRecord>>, details: &'static str) -> (r: Result<
    NoteRecord,
    NoteServiceError,
>)
    ensures
        r == read_back_of(found, details),
{
    match found {
        Ok(Some(note)) => Ok(note),
        Ok(None) => Err(NoteServiceError::InconsistentState(details)),
        Err(e) => Err(NoteServiceError::from(e)),
    }
}

/// The query of a list: the tag normalized, the limit as the notes
/// contract clamps it, the offset as it is. A tag that is blank is
/// refused, with the value as it was given.
pub fn note_query(tag: Option<String>, limit: Option<u32>, offset: u32) -> (r: Result<
    NoteListQuery,
    NoteServiceError,
>)
    ensures
        match r {
            Ok(query) => (tag is Some ==> !blank(tag->0@)) && optional_text(query.tag) == (match tag {
                Some(value) => tag_of(value@),
                None => None,
            }) && query.limit == Some(note_limit(limit)) && query.offset == offset,
            Err(e) => tag is Some && blank(tag->0@) && e == NoteServiceError::InvalidTag(tag->0),
        },
{
    let normalized_tag = match tag {
        Some(value) => match normalize_tag(value.as_str()) {
            Some(normalized) => Some(normalized),
            None => {
                return Err(NoteServiceError::InvalidTag(value));
            },
        },
        None => None,
    };
    let applied_limit = normalize_note_limit(limit);
    Ok(NoteListQuery { tag: normalized_tag, limit: Some(applied_limit), offset })
}

/// The value at `i` is the first of `tags` that is blank.
pub open spec fn first_blank_at(tags: Seq<String>, i: int) -> bool {
    &&& 0 <= i < tags.len()
    &&& blank(tags[i]@)
    &&& forall|j: int| 0 <= j < i ==> !blank(#[trigger] tags[j]@)
}

/// None of `tags` is blank.
pub open spec fn none_blank(tags: Seq<String>) -> bool {
    forall|i: int| 0 <= i < tags.len() ==> !blank(#[trigger] tags[i]@)
}

/// The tag set that replaces a note's tags: the tags that the values
/// stand for, each once, in the order of strings. One blank value refuses
/// the whole set, and the first such value is named.
pub fn checked_tags(tags: &[String]) -> (r: Result<Vec<String>, NoteServiceError>)
    ensures
        match r {
            Ok(set) => none_blank(tags@) && ascending(texts(set@)) && (forall|t: Seq<char>| #[trigger]
                texts(set@).contains(t) <==> tag_among(texts(tags@), tags@.len() as int, t)),
            Err(e) => exists|i: int| #[trigger]
                first_blank_at(tags@, i) && e == NoteServiceError::InvalidTag(tags@[i]),
        },
{
    let mut i: usize = 0;
    while i < tags.len()
        invariant
            i <= tags.len(),
            forall|j: int| 0 <= j < i ==> !blank(#[trigger] tags@[j]@),
        decreases tags.len() - i,
    {
        if trim(tags[i].as_str()).is_empty() {
            assert(first_blank_at(tags@, i as int));
            return Err(NoteServiceError::InvalidTag(tags[i].clone()));
        }
        i += 1;
    }
    Ok(normalize_tags(tags))
}

/// Note service facade over repository implementations.
pub struct NoteService<R: NoteRepository> {
    repo: R,
}

impl<R: NoteRepository> NoteService<R> {
    /// Creates a service using the provided repository implementation.
    pub fn new(repo: R) -> (r: Self)
        ensures
            r.repository() == repo,
    {
        NoteService { repo }
    }

    /// The repository that the service works on.
    pub closed spec fn repository(&self) -> R {
        self.repo
    }

    /// Creates one note from markdown content, and reads it back. A
    /// failure is the repository's, or the read-back found no note.
    pub fn create_note(&self, content: &str) -> (r: Result<NoteRecord, NoteServiceError>)
        ensures
            r is Err ==> !(r->Err_0 is InvalidTag),
            r is Err && r->Err_0 is InconsistentState ==> r->Err_0->InconsistentState_0
                == "created note not found in read-back",
    {
        let atom = note_atom(content);
        let atom_id = match self.repo.create_note(&atom) {
            Ok(atom_id) => atom_id,
            Err(err) => {
                return Err(NoteServiceError::from(err));
            },
        };
        read_back(self.repo.get_note(atom_id), "created note not found in read-back")
    }

    /// Replaces note content fully, recomputes the preview, and reads the
    /// note back.
    pub fn update_note(&self, atom_id: AtomId, content: &str) -> (r: Result<NoteRecord, NoteServiceError>)
        ensures
            r is Err ==> !(r->Err_0 is InvalidTag),
            r is Err && r->Err_0 is InconsistentState ==> r->Err_0->InconsistentState_0
                == "updated note not found in read-back",
    {
        let preview = derive_markdown_preview(content);
        let preview_text = match &preview.preview_text {
            Some(text) => Some(text.as_str()),
            None => None,
        };
        let preview_image = match &preview.preview_image {
            Some(text) => Some(text.as_str()),
            None => None,
        };
        match self.repo.update_note_full(atom_id, content, preview_text, preview_image) {
            Ok(()) => {},
            Err(err) => {
                return Err(NoteServiceError::from(err));
            },
        }
        read_back(self.repo.get_note(atom_id), "updated note not found in read-back")
    }

    /// Gets one note by stable ID.
    pub fn get_note(&self, atom_id: AtomId) -> (r: RepoResult<Option<NoteRecord>>) {
        self.repo.get_note(atom_id)
    }

    /// Lists notes using optional single-tag filter and pagination. A
    /// blank tag is refused before the repository is asked; a list that
    /// is given names the limit that was applied.
    pub fn list_notes(&self, tag: Option<String>, limit: Option<u32>, offset: u32) -> (r: Result<
        NotesListResult,
        NoteServiceError,
    >)
        ensures
            tag is Some && blank(tag->0@) ==> r == Err::<NotesListResult, NoteServiceError>(
                NoteServiceError::InvalidTag(tag->0),
            ),
            !(tag is Some && blank(tag->0@)) ==> match r {
                Ok(list) => list.applied_limit == note_limit(limit),
                Err(e) => e is NoteNotFound || e is Repo,
            },
    {
        let query = match note_query(tag, limit, offset) {
            Ok(query) => query,
            Err(e) => {
                return Err(e);
            },
        };
        let applied_limit = normalize_note_limit(limit);
        match self.repo.list_notes(&query) {
            Ok(items) => Ok(NotesListResult { items, applied_limit }),
            Err(err) => Err(NoteServiceError::from(err)),
        }
    }

    /// Replaces the full tag set for one note, and reads the note back. A
    /// set with a blank value is refused before the repository is asked,
    /// with the first such value.
    pub fn set_note_tags(&mut self, atom_id: AtomId, tags: Vec<String>) -> (r: Result<
        NoteRecord,
        NoteServiceError,
    >)
        ensures
            !none_blank(tags@) ==> final(self).repository() == old(self).repository() && r is Err
                && exists|i: int| #[trigger]
                first_blank_at(tags@, i) && r->Err_0 == NoteServiceError::InvalidTag(tags@[i]),
            none_blank(tags@) && r is Err ==> !(r->Err_0 is InvalidTag),
            none_blank(tags@) && r is Err && r->Err_0 is InconsistentState
                ==> r->Err_0->InconsistentState_0 == "note missing after tag replacement",
    {
        let normalized = match checked_tags(tags.as_slice()) {
            Ok(set) => set,
            Err(e) => {
                return Err(e);
            },
        };
        match self.repo.set_note_tags(atom_id, normalized.as_slice()) {
            Ok(()) => {},
            Err(err) => {
                return Err(NoteServiceError::from(err));
            },
        }
        read_back(self.repo.get_note(atom_id), "note missing after tag replacement")
    }

    /// Lists normalized tags known by storage.
    pub fn list_tags(&self) -> (r: RepoResult<Vec<String>>) {
        self.repo.list_tags()
    }
}

} // verus!
