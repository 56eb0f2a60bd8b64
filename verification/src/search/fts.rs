//! Search queries and the quoting of their terms.

use vstd::prelude::*;
use crate::text::optional_text;
use crate::db::DbError;
use crate::db::db_error_text;
use crate::model::atom::AtomId;
use crate::model::atom::AtomType;
use crate::model::uuid::read_uuid;
use crate::model::uuid::uuid_of_text;
use crate::outside::is_whitespace_char;
use crate::repo::atom_repo::atom_type_of;
use crate::repo::atom_repo::parse_atom_type;
use crate::text::blank;
use crate::text::is_whitespace;
use crate::text::join2;
use crate::text::join3;
use crate::text::trim;
use crate::text::trimmed;
use crate::outside::text_from;
use crate::text::chars_of;
use crate::text::contains_text;
use crate::text::holds_text;
use crate::text::lowercase_of;
use crate::outside::to_lowercase;
use crate::db::SqliteFailure;
use crate::repo::atom_repo::atom_type_text;
use crate::repo::atom_repo::atom_type_to_db;
use crate::repo::schema::bind_views;
use crate::repo::schema::BindValue;
use crate::repo::schema::BindView;
use crate::repo::schema::Statement;

verus! {

/// Search options for full-text query behavior.
#[derive(Debug, Clone)]
pub struct SearchQuery {
    /// User query text.
    pub text: String,
    /// Optional type filter.
    pub kind: Option<AtomType>,
    /// Maximum number of hits to return.
    pub limit: u32,
    /// Whether to pass text directly as a raw match expression.
    pub raw_fts_syntax: bool,
}

impl SearchQuery {
    /// Creates a query with default pagination and no type filter.
    pub fn new(text: &str) -> (r: Self)
        ensures
            r.text@ == text@,
            r.kind is None,
            r.limit == 20,
            !r.raw_fts_syntax,
    {
        SearchQuery { text: text.to_owned(), kind: None, limit: 20, raw_fts_syntax: false }
    }
}

/// `s` with every double quote written twice.
pub open spec fn quotes_doubled(s: Seq<char>) -> Seq<char>
    decreases s.len(),
{
    if s.len() == 0 {
        Seq::empty()
    } else if s.last() == '"' {
        quotes_doubled(s.drop_last()).push('"').push('"')
    } else {
        quotes_doubled(s.drop_last()).push(s.last())
    }
}

/// A term as a quoted string of a match expression.
pub open spec fn escaped_term(raw: Seq<char>) -> Seq<char> {
    seq!['"'] + quotes_doubled(raw) + seq!['"']
}

/// A term in double quotes, with the double quotes in it written twice.
fn escape_chars(chars: &Vec<char>) -> (out: Vec<char>)
    ensures
        out@ == escaped_term(chars@),
{
    let mut out: Vec<char> = Vec::new();
    out.push('"');
    let mut i: usize = 0;
    assert(chars@.take(0) =~= Seq::empty());
    assert(out@ =~= seq!['"'] + quotes_doubled(chars@.take(0)));
    while i < chars.len()
        invariant
            i <= chars.len(),
            out@ == seq!['"'] + quotes_doubled(chars@.take(i as int)),
        decreases chars.len() - i,
    {
        let ghost done = quotes_doubled(chars@.take(i as int));
        assert(chars@.take(i as int + 1).drop_last() =~= chars@.take(i as int));
        assert(chars@.take(i as int + 1).last() == chars@[i as int]);
        let c = chars[i];
        if c == '"' {
            out.push('"');
            out.push('"');
            assert(out@ =~= seq!['"'] + done.push('"').push('"'));
        } else {
            out.push(c);
            assert(out@ =~= seq!['"'] + done.push(c));
        }
        i += 1;
    }
    assert(chars@.take(chars.len() as int) =~= chars@);
    out.push('"');
    assert(out@ =~= escaped_term(chars@));
    out
}

/// Quotes one search term: in double quotes, with the double quotes in it
/// written twice.
pub fn escape_fts_term(raw: &str) -> (r: String)
    ensures
        r@ == escaped_term(raw@),
{
    let chars = chars_of(raw);
    text_from(&escape_chars(&chars))
}

/// The words read so far and the word being read, after `s` was read
/// character by character: whitespace ends a word.
pub open spec fn split_state(s: Seq<char>) -> (Seq<Seq<char>>, Seq<char>)
    decreases s.len(),
{
    if s.len() == 0 {
        (Seq::empty(), Seq::empty())
    } else {
        let (done, current) = split_state(s.drop_last());
        if is_whitespace(s.last()) {
            if current.len() > 0 {
                (done.push(current), Seq::empty())
            } else {
                (done, current)
            }
        } else {
            (done, current.push(s.last()))
        }
    }
}

/// The words of `s`: its runs of characters that are no whitespace.
pub open spec fn words(s: Seq<char>) -> Seq<Seq<char>> {
    let (done, current) = split_state(s);
    if current.len() > 0 {
        done.push(current)
    } else {
        done
    }
}

/// The terms, each quoted, with ` AND ` between them.
pub open spec fn all_of(terms: Seq<Seq<char>>) -> Seq<char>
    decreases terms.len(),
{
    if terms.len() == 0 {
        Seq::empty()
    } else if terms.len() == 1 {
        escaped_term(terms[0])
    } else {
        all_of(terms.drop_last()) + " AND "@ + escaped_term(terms.last())
    }
}

/// The match expression of a query: none for a blank text; the trimmed
/// text where the query is raw; else all the words of the text, quoted.
pub open spec fn match_expression(text: Seq<char>, raw: bool) -> Option<Seq<char>> {
    if blank(text) {
        None
    } else if raw {
        Some(trimmed(text))
    } else if words(trimmed(text)).len() == 0 {
        None
    } else {
        Some(all_of(words(trimmed(text))))
    }
}

/// Appends the word `word`, quoted, to the expression `out` of the words
/// before it; `started` says whether there are any.
fn push_term(out: &mut Vec<char>, started: bool, word: &Vec<char>, Ghost(before): Ghost<Seq<Seq<char>>>)
    requires
        old(out)@ == all_of(before),
        started == (before.len() > 0),
    ensures
        final(out)@ == all_of(before.push(word@)),
{
    proof {
        reveal_strlit(" AND ");
        assert(before.push(word@).drop_last() =~= before);
    }
    if started {
        out.push(' ');
        out.push('A');
        out.push('N');
        out.push('D');
        out.push(' ');
    }
    let ghost head = out@;
    assert(started ==> head =~= all_of(before) + " AND "@);
    let quoted = escape_chars(word);
    let mut i: usize = 0;
    while i < quoted.len()
        invariant
            i <= quoted.len(),
            out@ == head + quoted@.take(i as int),
        decreases quoted.len() - i,
    {
        out.push(quoted[i]);
        assert(out@ =~= head + quoted@.take(i as int + 1));
        i += 1;
    }
    assert(quoted@.take(quoted.len() as int) =~= quoted@);
    assert(!started ==> out@ =~= escaped_term(word@));
}

/// Builds the match expression of a query.
pub fn build_match_expression(query: &SearchQuery) -> (r: Result<Option<String>, SearchError>)
    ensures
        r is Ok,
        optional_text(r->Ok_0) == match_expression(query.text@, query.raw_fts_syntax),
{
    let text = trim(query.text.as_str());
    if text.is_empty() {
        return Ok(None);
    }
    if query.raw_fts_syntax {
        return Ok(Some(text.to_owned()));
    }
    let chars = chars_of(text);
    let mut out: Vec<char> = Vec::new();
    let mut started = false;
    let mut current: Vec<char> = Vec::new();
    let ghost mut done: Seq<Seq<char>> = Seq::empty();
    let mut i: usize = 0;
    assert(chars@.take(0) =~= Seq::empty());
    while i < chars.len()
        invariant
            i <= chars.len(),
            split_state(chars@.take(i as int)) == (done, current@),
            out@ == all_of(done),
            started == (done.len() > 0),
        decreases chars.len() - i,
    {
        assert(chars@.take(i as int + 1).drop_last() =~= chars@.take(i as int));
        assert(chars@.take(i as int + 1).last() == chars@[i as int]);
        let c = chars[i];
        if is_whitespace_char(c) {
            if current.len() > 0 {
                push_term(&mut out, started, &current, Ghost(done));
                proof {
                    done = done.push(current@);
                }
                started = true;
                current = Vec::new();
            }
        } else {
            current.push(c);
        }
        i += 1;
    }
    assert(chars@.take(chars.len() as int) =~= chars@);
    if current.len() > 0 {
        push_term(&mut out, started, &current, Ghost(done));
        started = true;
    }
    if started {
        Ok(Some(text_from(&out)))
    } else {
        Ok(None)
    }
}

/// Search-layer error for query parsing, DB interaction and result decoding.
#[derive(Debug, Clone, PartialEq, Eq)]
pub enum SearchError {
    /// User-provided query cannot be parsed as a match expression.
    InvalidQuery { query: String, message: String },
    Db(DbError),
    InvalidData(String),
}

/// Result type of the search layer.
pub type SearchResult<T> = Result<T, SearchError>;

/// What a search error says.
pub open spec fn search_error_text(e: SearchError) -> Seq<char> {
    match e {
        SearchError::InvalidQuery { query, message } => "invalid full-text query `"@ + query@ + "`: "@
            + message@,
        SearchError::Db(err) => db_error_text(err),
        SearchError::InvalidData(message) => "invalid search row: "@ + message@,
    }
}

impl SearchError {
    /// The message of this error.
    pub fn message(&self) -> (r: String)
        ensures
            r@ == search_error_text(*self),
    {
        match self {
            SearchError::InvalidQuery { query, message } => {
                let mut r = join3("invalid full-text query `", query.as_str(), "`: ");
                r.append(message.as_str());
                r
            },
            SearchError::Db(err) => err.message(),
            SearchError::InvalidData(message) => join2("invalid search row: ", message.as_str()),
        }
    }
}

/// Single search hit.
#[derive(Debug, Clone, PartialEq, Eq)]
pub struct SearchHit {
    pub atom_id: AtomId,
    pub kind: AtomType,
    pub snippet: String,
}

/// What reading a hit gives: the hit, or what is wrong with the first
/// column that cannot be read, the id before the kind.
pub open spec fn parsed_hit(uuid: Seq<char>, kind: Seq<char>) -> Result<(u128, AtomType), Seq<char>> {
    if uuid_of_text(uuid) is None {
        Err("invalid uuid `"@ + uuid + "`"@)
    } else if atom_type_of(kind) is None {
        Err("invalid type `"@ + kind + "`"@)
    } else {
        Ok((uuid_of_text(uuid)->0, atom_type_of(kind)->0))
    }
}

/// The message of an error that tells of a row that cannot be read.
pub open spec fn invalid_row_text(e: SearchError) -> Option<Seq<char>> {
    match e {
        SearchError::InvalidData(message) => Some(message@),
        _ => None,
    }
}

/// Reads one hit from the id, the kind and the snippet of its row.
pub fn parse_search_hit(uuid_text: &str, type_text: &str, snippet: String) -> (r: Result<
    SearchHit,
    SearchError,
>)
    ensures
        match r {
            Ok(hit) => parsed_hit(uuid_text@, type_text@) == Ok::<(u128, AtomType), Seq<char>>(
                (hit.atom_id, hit.kind),
            ) && hit.snippet == snippet,
            Err(e) => invalid_row_text(e) is Some && parsed_hit(uuid_text@, type_text@) == Err::<
                (u128, AtomType),
                Seq<char>,
            >(invalid_row_text(e)->0),
        },
{
    let atom_id = match read_uuid(uuid_text) {
        Some(id) => id,
        None => {
            return Err(SearchError::InvalidData(join3("invalid uuid `", uuid_text, "`")));
        },
    };
    let kind = match parse_atom_type(type_text) {
        Some(kind) => kind,
        None => {
            return Err(SearchError::InvalidData(join3("invalid type `", type_text, "`")));
        },
    };
    Ok(SearchHit { atom_id, kind, snippet })
}

/// The statement that searches, up to its further conditions.
pub const SEARCH_SELECT_SQL: &'static str =
    "SELECT atoms.uuid AS uuid, atoms.type AS type, snippet(atoms_fts, 0, '[', ']', ' ... ', 10) AS snippet FROM atoms_fts JOIN atoms ON atoms.rowid = atoms_fts.rowid WHERE atoms_fts MATCH ? AND atoms.is_deleted = 0";

/// The order and the limit of a search.
pub const SEARCH_ORDER_SQL: &'static str =
    " ORDER BY bm25(atoms_fts), atoms.updated_at DESC, atoms.uuid ASC LIMIT ?";

/// The text of the statement of a search: one kind where one is asked
/// for, the best match first.
pub open spec fn search_sql(kind: Option<AtomType>) -> Seq<char> {
    SEARCH_SELECT_SQL@ + (if kind is Some {
        " AND atoms.type = ?"@
    } else {
        Seq::<char>::empty()
    }) + SEARCH_ORDER_SQL@
}

/// The values of that statement, in the order of its placeholders: the
/// match expression, the kind as it is written in storage, the limit.
pub open spec fn search_binds(expression: Seq<char>, kind: Option<AtomType>, limit: u32) -> Seq<BindView> {
    seq![BindView::Text(expression)] + (if kind is Some {
        seq![BindView::Text(atom_type_text(kind->0))]
    } else {
        Seq::<BindView>::empty()
    }) + seq![BindView::Integer(limit as i64)]
}

/// The statement that a query is answered by, if one is needed: none for
/// a query without a match expression, and none for a limit of zero;
/// both are answered by the empty list.
pub fn search_statement(query: &SearchQuery) -> (r: Option<Statement>)
    ensures
        r is Some <==> match_expression(query.text@, query.raw_fts_syntax) is Some && query.limit != 0,
        r is Some ==> r->0.sql@ == search_sql(query.kind) && bind_views(r->0.binds@) == search_binds(
            match_expression(query.text@, query.raw_fts_syntax)->0,
            query.kind,
            query.limit,
        ),
{
    let expression = match build_match_expression(query) {
        Ok(Some(expression)) => expression,
        _ => {
            return None;
        },
    };
    if query.limit == 0 {
        return None;
    }
    let mut sql = String::from_str(SEARCH_SELECT_SQL);
    let mut binds: Vec<BindValue> = Vec::new();
    binds.push(BindValue::Text(expression));
    match query.kind {
        Some(kind) => {
            sql.append(" AND atoms.type = ?");
            binds.push(BindValue::Text(atom_type_to_db(kind).to_owned()));
        },
        None => {},
    }
    sql.append(SEARCH_ORDER_SQL);
    binds.push(BindValue::Integer(query.limit as i64));
    proof {
        assert(sql@ =~= search_sql(query.kind));
        assert(bind_views(binds@) =~= search_binds(
            match_expression(query.text@, query.raw_fts_syntax)->0,
            query.kind,
            query.limit,
        ));
    }
    Some(Statement { sql, binds })
}

/// A message of the engine speaks of a match expression that it could
/// not read: in lower case it names both `fts5` and `syntax`, or a
/// malformed match expression, or something unterminated.
pub open spec fn syntax_complaint(message: Seq<char>) -> bool {
    let text = lowercase_of(message);
    (holds_text(text, "fts5"@) && holds_text(text, "syntax"@)) || holds_text(
        text,
        "malformed match expression"@,
    ) || holds_text(text, "unterminated"@)
}

/// Whether a message of the engine speaks of a match expression that it
/// could not read.
pub fn is_match_syntax_message(message: &str) -> (r: bool)
    ensures
        r == syntax_complaint(message@),
{
    let text = to_lowercase(message);
    (contains_text(text.as_str(), "fts5") && contains_text(text.as_str(), "syntax")) || contains_text(
        text.as_str(),
        "malformed match expression",
    ) || contains_text(text.as_str(), "unterminated")
}

/// The error of a search whose statement the engine refused. Where the
/// engine gave a message that speaks of the match expression, the query
/// is invalid, and the error carries the expression and what the engine
/// said as it is shown; else the failure is the engine's.
pub fn map_query_error(failure: SqliteFailure, engine_message: Option<&str>, shown: &str, expression: &str) -> (r:
    SearchError)
    ensures
        engine_message is Some && syntax_complaint(engine_message->0@) ==> r is InvalidQuery && r->query@
            == expression@ && r->message@ == shown@,
        !(engine_message is Some && syntax_complaint(engine_message->0@)) ==> r == SearchError::Db(
            DbError::Sqlite(failure),
        ),
{
    let complaint = match engine_message {
        Some(message) => is_match_syntax_message(message),
        None => false,
    };
    if complaint {
        SearchError::InvalidQuery { query: expression.to_owned(), message: shown.to_owned() }
    } else {
        SearchError::Db(DbError::Sqlite(failure))
    }
}

} // verus!
