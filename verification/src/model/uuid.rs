//! Identifiers as text.

use vstd::prelude::*;
use crate::outside::uuid_from_text;
use crate::outside::uuid_to_text;

verus! {

/// The 128 bits of the identifier that `text` writes, as
/// `uuid::Uuid::parse_str` reads it; `None` where `text` writes none.
pub uninterp spec fn uuid_of_text(text: Seq<char>) -> Option<u128>;

/// The hyphenated lower-case writing of the identifier with the bits `id`,
/// as `to_string` of `uuid::Uuid` gives it.
pub uninterp spec fn text_of_uuid(id: u128) -> Seq<char>;

/// Reads an identifier from text.
pub fn read_uuid(text: &str) -> (r: Option<u128>)
    ensures
        r == uuid_of_text(text@),
{
    uuid_from_text(text)
}

/// Writes an identifier as text.
pub fn write_uuid(id: u128) -> (r: String)
    ensures
        r@ == text_of_uuid(id),
{
    uuid_to_text(id)
}

} // verus!
