//! What the repositories ask of a schema, and the statements they send:
//! the columns a table must have, and a statement with its values.

use vstd::prelude::*;
use crate::text::has_text;
use crate::text::texts;

verus! {

/// The characters of each name of a sequence.
pub open spec fn name_texts(names: Seq<&'static str>) -> Seq<Seq<char>> {
    names.map_values(|s: &'static str| s@)
}

/// The first `n` of `required` are among `columns`.
pub open spec fn present(columns: Seq<Seq<char>>, required: Seq<Seq<char>>, n: int) -> bool {
    forall|i: int| 0 <= i < n ==> columns.contains(#[trigger] required[i])
}

/// The first of `required` that is not among `columns`, if one is not.
pub fn first_missing(columns: &Vec<String>, required: &Vec<&'static str>) -> (r: Option<usize>)
    ensures
        match r {
            Some(i) => i < required@.len() && present(
                texts(columns@),
                name_texts(required@),
                i as int,
            ) && !texts(columns@).contains(required@[i as int]@),
            None => present(texts(columns@), name_texts(required@), required@.len() as int),
        },
{
    let mut i: usize = 0;
    while i < required.len()
        invariant
            i <= required.len(),
            present(texts(columns@), name_texts(required@), i as int),
        decreases required.len() - i,
    {
        if !has_text(columns, required[i]) {
            return Some(i);
        }
        assert(name_texts(required@)[i as int] == required@[i as int]@);
        i += 1;
    }
    None
}

/// A value that a statement is sent with.
#[derive(Debug, Clone, PartialEq, Eq)]
pub enum BindValue {
    Text(String),
    Integer(i64),
}

/// A value of a statement, its text as characters.
pub enum BindView {
    Text(Seq<char>),
    Integer(i64),
}

impl View for BindValue {
    type V = BindView;

    open spec fn view(&self) -> BindView {
        match self {
            BindValue::Text(text) => BindView::Text(text@),
            BindValue::Integer(value) => BindView::Integer(*value),
        }
    }
}

/// A statement and the values for its placeholders, in their order.
#[derive(Debug, Clone, PartialEq, Eq)]
pub struct Statement {
    pub sql: String,
    pub binds: Vec<BindValue>,
}

/// The values of a statement as characters and numbers.
pub open spec fn bind_views(binds: Seq<BindValue>) -> Seq<BindView> {
    binds.map_values(|b: BindValue| b@)
}

} // verus!
