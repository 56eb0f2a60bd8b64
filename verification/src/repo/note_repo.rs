//! Notes and tags: the rules that shape a query and a tag.

use vstd::prelude::*;
use crate::text::ascending;
use crate::text::texts;
use crate::text::optional_text;
use crate::model::atom::Atom;
use crate::model::atom::AtomId;
use crate::repo::atom_repo::RepoResult;
use crate::outside::same_text;
use crate::outside::to_lowercase;
use crate::text::trim;
use crate::text::blank;
use crate::text::lemma_lex_irreflexive;
use crate::text::lemma_lex_total;
use crate::text::lemma_lex_transitive;
use crate::text::lex_lt;
use crate::text::lowercase_of;
use crate::text::text_less;
use crate::text::trimmed;
use crate::text::join3;
use crate::model::uuid::read_uuid;
use crate::model::uuid::uuid_of_text;
use crate::repo::atom_repo::RepoError;
use crate::repo::schema::bind_views;
use crate::repo::schema::first_missing;
use crate::repo::schema::name_texts;
use crate::repo::schema::present;
use crate::repo::schema::BindValue;
use crate::repo::schema::BindView;
use crate::repo::schema::Statement;

verus! {

/// The number of notes listed where none is asked for.
pub const NOTES_DEFAULT_LIMIT: u32 = 10;

/// The largest number of notes listed at once.
pub const NOTES_LIMIT_MAX: u32 = 50;

/// Query options for note list use-cases.
#[derive(Debug, Clone, Default, PartialEq, Eq)]
pub struct NoteListQuery {
    /// Optional single-tag exact match filter.
    pub tag: Option<String>,
    /// Maximum rows to return. Defaults to 10 and clamps to 50.
    pub limit: Option<u32>,
    /// Number of rows to skip.
    pub offset: u32,
}

/// The limit of a list: 10 where none or 0 is asked for, at most 50.
pub open spec fn note_limit(limit: Option<u32>) -> u32 {
    match limit {
        None => 10,
        Some(v) => if v == 0 {
            10
        } else if v > 50 {
            50
        } else {
            v
        },
    }
}

/// Normalizes list limit according to notes contract.
pub fn normalize_note_limit(limit: Option<u32>) -> (r: u32)
    ensures
        r == note_limit(limit),
        1 <= r <= 50,
{
    match limit {
        Some(value) => {
            if value == 0 {
                NOTES_DEFAULT_LIMIT
            } else if value > NOTES_LIMIT_MAX {
                NOTES_LIMIT_MAX
            } else {
                value
            }
        },
        None => NOTES_DEFAULT_LIMIT,
    }
}

/// The tag that `tag` stands for: trimmed and in lower case; none where
/// `tag` is blank.
pub open spec fn tag_of(tag: Seq<char>) -> Option<Seq<char>> {
    if blank(tag) {
        None
    } else {
        Some(lowercase_of(trimmed(tag)))
    }
}

/// Normalizes one tag value according to notes contract.
pub fn normalize_tag(tag: &str) -> (r: Option<String>)
    ensures
        optional_text(r) == tag_of(tag@),
{
    let kept = trim(tag);
    if kept.is_empty() {
        None
    } else {
        Some(to_lowercase(kept))
    }
}

/// `t` is the tag that one of the first `n` of `raw` stands for.
pub open spec fn tag_among(raw: Seq<Seq<char>>, n: int, t: Seq<char>) -> bool {
    exists|i: int| 0 <= i < n && #[trigger] tag_of(raw[i]) == Some(t)
}

/// Normalizes and deduplicates tag values: the tags that the values stand
/// for, each once, in the order of strings.
pub fn normalize_tags(tags: &[String]) -> (r: Vec<String>)
    ensures
        ascending(texts(r@)),
        forall|t: Seq<char>|
            #[trigger] texts(r@).contains(t) <==> tag_among(texts(tags@), tags@.len() as int, t),
{
    let ghost raw = texts(tags@);
    let mut unique: Vec<String> = Vec::new();
    let mut i: usize = 0;
    while i < tags.len()
        invariant
            i <= tags.len(),
            raw == texts(tags@),
            ascending(texts(unique@)),
            forall|t: Seq<char>| #[trigger] texts(unique@).contains(t) <==> tag_among(raw, i as int, t),
        decreases tags.len() - i,
    {
        let ghost before = texts(unique@);
        match normalize_tag(tags[i].as_str()) {
            Some(value) => {
                let mut at: usize = 0;
                while at < unique.len() && text_less(unique[at].as_str(), value.as_str())
                    invariant
                        at <= unique.len(),
                        before == texts(unique@),
                        forall|k: int| 0 <= k < at ==> lex_lt(#[trigger] before[k], value@),
                    decreases unique.len() - at,
                {
                    at += 1;
                }
                let present = at < unique.len() && same_text(unique[at].as_str(), value.as_str());
                proof {
                    assert(tag_of(raw[i as int]) == Some(value@));
                    if present {
                        assert(before[at as int] == value@);
                        assert(before.contains(value@));
                    } else {
                        if at < before.len() {
                            lemma_lex_total(before[at as int], value@);
                            assert forall|k: int| at <= k < before.len() implies lex_lt(
                                value@,
                                #[trigger] before[k],
                            ) by {
                                if k > at {
                                    lemma_lex_transitive(value@, before[at as int], before[k]);
                                }
                            }
                        }
                        assert forall|k: int| 0 <= k < before.len() implies #[trigger] before[k]
                            != value@ by {
                            lemma_lex_irreflexive(value@);
                        }
                    }
                }
                if !present {
                    let ghost v = value@;
                    unique.insert(at, value);
                    proof {
                        let after = texts(unique@);
                        assert(after =~= before.insert(at as int, v));
                        assert forall|a: int, b: int| 0 <= a < b < after.len() implies lex_lt(
                            #[trigger] after[a],
                            #[trigger] after[b],
                        ) by {
                            let x = if a < at { a } else { a - 1 };
                            let y = if b < at { b } else { b - 1 };
                            if a != at {
                                assert(after[a] == before[x]);
                            }
                            if b != at {
                                assert(after[b] == before[y]);
                            }
                            if a != at && b != at {
                                assert(lex_lt(before[x], before[y]));
                            }
                        }
                        assert forall|t: Seq<char>| #[trigger] after.contains(t) <==> tag_among(
                            raw,
                            i as int + 1,
                            t,
                        ) by {
                            if after.contains(t) {
                                let k = choose|k: int| 0 <= k < after.len() && after[k] == t;
                                if k < at {
                                    assert(before[k] == t);
                                    assert(before.contains(t));
                                } else if k > at {
                                    assert(before[k - 1] == t);
                                    assert(before.contains(t));
                                }
                                if before.contains(t) {
                                    assert(tag_among(raw, i as int, t));
                                    let w = choose|w: int| 0 <= w < i && #[trigger] tag_of(raw[w]) == Some(t);
                                    assert(0 <= w < i + 1 && tag_of(raw[w]) == Some(t));
                                } else {
                                    assert(t == v);
                                }
                            }
                            if tag_among(raw, i as int + 1, t) {
                                let w = choose|w: int|
                                    0 <= w < i + 1 && #[trigger] tag_of(raw[w]) == Some(t);
                                if w < i {
                                    assert(tag_among(raw, i as int, t));
                                    assert(before.contains(t));
                                    let k = choose|k: int| 0 <= k < before.len() && before[k] == t;
                                    if k < at {
                                        assert(after[k] == t);
                                    } else {
                                        assert(after[k + 1] == t);
                                    }
                                } else {
                                    assert(after[at as int] == t);
                                }
                            }
                        }
                    }
                } else {
                    proof {
                        assert forall|t: Seq<char>| #[trigger] before.contains(t) <==> tag_among(
                            raw,
                            i as int + 1,
                            t,
                        ) by {
                            if before.contains(t) {
                                let w = choose|w: int| 0 <= w < i && #[trigger] tag_of(raw[w]) == Some(t);
                                assert(0 <= w < i + 1 && tag_of(raw[w]) == Some(t));
                            }
                            if tag_among(raw, i as int + 1, t) {
                                let w = choose|w: int|
                                    0 <= w < i + 1 && #[trigger] tag_of(raw[w]) == Some(t);
                                if w < i {
                                    assert(tag_among(raw, i as int, t));
                                }
                            }
                        }
                    }
                }
            },
            None => {
                proof {
                    assert forall|t: Seq<char>| #[trigger] before.contains(t) <==> tag_among(
                        raw,
                        i as int + 1,
                        t,
                    ) by {
                        if before.contains(t) {
                            let w = choose|w: int| 0 <= w < i && #[trigger] tag_of(raw[w]) == Some(t);
                            assert(0 <= w < i + 1 && tag_of(raw[w]) == Some(t));
                        }
                        if tag_among(raw, i as int + 1, t) {
                            let w = choose|w: int| 0 <= w < i + 1 && #[trigger] tag_of(raw[w]) == Some(t);
                            if w < i {
                                assert(tag_among(raw, i as int, t));
                            }
                        }
                    }
                }
            },
        }
        i += 1;
    }
    unique
}

/// Read model for note list/detail use-cases.
#[derive(Debug, Clone, PartialEq, Eq)]
pub struct NoteRecord {
    /// Stable atom id.
    pub atom_id: AtomId,
    /// Raw markdown source text.
    pub content: String,
    /// Derived plain-text preview (nullable).
    pub preview_text: Option<String>,
    /// Derived first markdown image path (nullable).
    pub preview_image: Option<String>,
    /// Update timestamp in epoch milliseconds.
    pub updated_at: i64,
    /// Note tags, normalized to lowercase.
    pub tags: Vec<String>,
}

/// The lower-case forms of `names`, one for one.
pub fn lowercased(names: &Vec<String>) -> (r: Vec<String>)
    ensures
        r@.len() == names@.len(),
        forall|i: int| 0 <= i < names@.len() ==> (#[trigger] r@[i])@ == lowercase_of(names@[i]@),
{
    let mut out: Vec<String> = Vec::new();
    let mut i: usize = 0;
    while i < names.len()
        invariant
            i <= names.len(),
            out@.len() == i,
            forall|j: int| 0 <= j < i ==> (#[trigger] out@[j])@ == lowercase_of(names@[j]@),
        decreases names.len() - i,
    {
        out.push(to_lowercase(names[i].as_str()));
        i += 1;
    }
    out
}

/// Reads one note from what storage holds of it: the id as text, the
/// content and the preview as they are, and the names of its tags, which
/// are lower-cased. An id that is no UUID is invalid data.
pub fn note_record(
    uuid_text: &str,
    content: String,
    preview_text: Option<String>,
    preview_image: Option<String>,
    updated_at: i64,
    tag_names: &Vec<String>,
) -> (r: Result<NoteRecord, RepoError>)
    ensures
        match r {
            Ok(note) => uuid_of_text(uuid_text@) == Some(note.atom_id) && note.content == content
                && note.preview_text == preview_text && note.preview_image == preview_image
                && note.updated_at == updated_at && note.tags@.len() == tag_names@.len() && forall|i: int|
                0 <= i < tag_names@.len() ==> (#[trigger] note.tags@[i])@ == lowercase_of(tag_names@[i]@),
            Err(e) => uuid_of_text(uuid_text@) is None && e is InvalidData && e->InvalidData_0@
                == "invalid uuid value `"@ + uuid_text@ + "` in atoms.uuid"@,
        },
{
    match read_uuid(uuid_text) {
        Some(atom_id) => Ok(
            NoteRecord {
                atom_id,
                content,
                preview_text,
                preview_image,
                updated_at,
                tags: lowercased(tag_names),
            },
        ),
        None => Err(RepoError::InvalidData(join3("invalid uuid value `", uuid_text, "` in atoms.uuid"))),
    }
}

/// The columns of the tag table that the repository cannot do without.
pub open spec fn required_tag_columns() -> Seq<Seq<char>> {
    seq!["id"@, "name"@]
}

/// The columns of the table that links atoms and tags.
pub open spec fn required_link_columns() -> Seq<Seq<char>> {
    seq!["atom_uuid"@, "tag_id"@]
}

/// A connection is ready for the note repository: both tag tables are
/// there, each with its columns.
pub open spec fn note_connection_ready(
    tags_exists: bool,
    links_exists: bool,
    tag_columns: Seq<Seq<char>>,
    link_columns: Seq<Seq<char>>,
) -> bool {
    tags_exists && links_exists && present(tag_columns, required_tag_columns(), 2) && present(
        link_columns,
        required_link_columns(),
        2,
    )
}

fn tag_column_names() -> (r: Vec<&'static str>)
    ensures
        r@.len() == 2,
        name_texts(r@) == required_tag_columns(),
{
    let mut r: Vec<&'static str> = Vec::new();
    r.push("id");
    r.push("name");
    assert(name_texts(r@) =~= required_tag_columns());
    r
}

fn link_column_names() -> (r: Vec<&'static str>)
    ensures
        r@.len() == 2,
        name_texts(r@) == required_link_columns(),
{
    let mut r: Vec<&'static str> = Vec::new();
    r.push("atom_uuid");
    r.push("tag_id");
    assert(name_texts(r@) =~= required_link_columns());
    r
}

/// Checks what was read of a connection before a note repository is
/// built on it: whether the tables `tags` and `atom_tags` exist, and the
/// names of their columns. The first thing that is missing is the error:
/// the tag table, the link table, a column of the first, a column of the
/// second.
pub fn ensure_note_connection_ready(
    tags_exists: bool,
    links_exists: bool,
    tag_columns: &Vec<String>,
    link_columns: &Vec<String>,
) -> (r: Result<(), RepoError>)
    ensures
        r is Ok <==> note_connection_ready(
            tags_exists,
            links_exists,
            texts(tag_columns@),
            texts(link_columns@),
        ),
        match r {
            Ok(()) => true,
            Err(e) => if !tags_exists {
                e is MissingRequiredTable && e->MissingRequiredTable_0@ == "tags"@
            } else if !links_exists {
                e is MissingRequiredTable && e->MissingRequiredTable_0@ == "atom_tags"@
            } else if !present(texts(tag_columns@), required_tag_columns(), 2) {
                e is MissingRequiredColumn && e->table@ == "tags"@ && exists|i: int|
                    0 <= i < 2 && e->column@ == #[trigger] required_tag_columns()[i] && present(
                        texts(tag_columns@),
                        required_tag_columns(),
                        i,
                    ) && !texts(tag_columns@).contains(required_tag_columns()[i])
            } else {
                e is MissingRequiredColumn && e->table@ == "atom_tags"@ && exists|i: int|
                    0 <= i < 2 && e->column@ == #[trigger] required_link_columns()[i] && present(
                        texts(link_columns@),
                        required_link_columns(),
                        i,
                    ) && !texts(link_columns@).contains(required_link_columns()[i])
            },
        },
{
    if !tags_exists {
        return Err(RepoError::MissingRequiredTable("tags"));
    }
    if !links_exists {
        return Err(RepoError::MissingRequiredTable("atom_tags"));
    }
    let names = tag_column_names();
    match first_missing(tag_columns, &names) {
        Some(i) => {
            let e = RepoError::MissingRequiredColumn { table: "tags", column: names[i] };
            proof {
                let at = i as int;
                assert(name_texts(names@)[at] == names@[at]@);
                assert(0 <= at < 2 && e->column@ == required_tag_columns()[at] && present(
                    texts(tag_columns@),
                    required_tag_columns(),
                    at,
                ) && !texts(tag_columns@).contains(required_tag_columns()[at]));
            }
            return Err(e);
        },
        None => {},
    }
    let names = link_column_names();
    match first_missing(link_columns, &names) {
        Some(i) => {
            let e = RepoError::MissingRequiredColumn { table: "atom_tags", column: names[i] };
            proof {
                let at = i as int;
                assert(name_texts(names@)[at] == names@[at]@);
                assert(0 <= at < 2 && e->column@ == required_link_columns()[at] && present(
                    texts(link_columns@),
                    required_link_columns(),
                    at,
                ) && !texts(link_columns@).contains(required_link_columns()[at]));
            }
            Err(e)
        },
        None => Ok(()),
    }
}

/// The statement that reads notes, up to its further conditions.
pub const NOTE_SELECT_SQL: &'static str =
    "SELECT uuid, content, preview_text, preview_image, updated_at FROM atoms WHERE type = 'note' AND is_deleted = 0";

/// The condition that keeps the notes with one tag.
pub const NOTE_TAG_FILTER_SQL: &'static str =
    " AND EXISTS (SELECT 1 FROM atom_tags at INNER JOIN tags t ON t.id = at.tag_id WHERE at.atom_uuid = atoms.uuid AND t.name = ? COLLATE NOCASE)";

/// The text of the statement that lists notes for a query: the notes
/// with the tag where one is asked for, the newest first and equal times
/// by id, then the limit, and the offset where there is one.
pub open spec fn note_list_sql(query: NoteListQuery) -> Seq<char> {
    NOTE_SELECT_SQL@ + (if query.tag is Some {
        NOTE_TAG_FILTER_SQL@
    } else {
        Seq::<char>::empty()
    }) + " ORDER BY updated_at DESC, uuid ASC"@ + " LIMIT ?"@ + (if query.offset > 0 {
        " OFFSET ?"@
    } else {
        Seq::<char>::empty()
    })
}

/// The values of that statement, in the order of its placeholders: the
/// tag, the limit as the notes contract clamps it, the offset.
pub open spec fn note_list_binds(query: NoteListQuery) -> Seq<BindView> {
    (if query.tag is Some {
        seq![BindView::Text(query.tag->0@)]
    } else {
        Seq::<BindView>::empty()
    }) + seq![BindView::Integer(note_limit(query.limit) as i64)] + (if query.offset > 0 {
        seq![BindView::Integer(query.offset as i64)]
    } else {
        Seq::<BindView>::empty()
    })
}

/// Makes the statement that lists notes for a query.
pub fn note_list_statement(query: &NoteListQuery) -> (r: Statement)
    ensures
        r.sql@ == note_list_sql(*query),
        bind_views(r.binds@) == note_list_binds(*query),
{
    let mut sql = String::from_str(NOTE_SELECT_SQL);
    let mut binds: Vec<BindValue> = Vec::new();
    match &query.tag {
        Some(tag) => {
            sql.append(NOTE_TAG_FILTER_SQL);
            binds.push(BindValue::Text(tag.clone()));
        },
        None => {},
    }
    sql.append(" ORDER BY updated_at DESC, uuid ASC");
    let limit = normalize_note_limit(query.limit);
    sql.append(" LIMIT ?");
    binds.push(BindValue::Integer(limit as i64));
    if query.offset > 0 {
        sql.append(" OFFSET ?");
        binds.push(BindValue::Integer(query.offset as i64));
    }
    proof {
        assert(sql@ =~= note_list_sql(*query));
        assert(bind_views(binds@) =~= note_list_binds(*query));
    }
    Statement { sql, binds }
}

/// Repository interface for notes/tags operations. The contracts of the
/// library state nothing of what an implementation answers; what it is
/// meant to do stands here in words.
pub trait NoteRepository {
    /// Creates one note atom and returns its stable id.
    fn create_note(&self, atom: &Atom) -> RepoResult<AtomId>;

    /// Replaces full note content and preview fields.
    fn update_note_full(
        &self,
        atom_id: AtomId,
        content: &str,
        preview_text: Option<&str>,
        preview_image: Option<&str>,
    ) -> RepoResult<()>;

    /// Gets one note by id.
    fn get_note(&self, atom_id: AtomId) -> RepoResult<Option<NoteRecord>>;

    /// Lists notes using single-tag filter + pagination, newest first.
    fn list_notes(&self, query: &NoteListQuery) -> RepoResult<Vec<NoteRecord>>;

    /// Replaces all tags for the given note atom in one transaction.
    fn set_note_tags(&mut self, atom_id: AtomId, tags: &[String]) -> RepoResult<()>;

    /// Returns all known tags sorted by name.
    fn list_tags(&self) -> RepoResult<Vec<String>>;
}

} // verus!
