//! The calls this library makes into code it does not verify.
//!
//! Each function here is believed, not proved: its contract states what the
//! called function is documented to do, and nothing more.

use vstd::prelude::*;
use crate::model::uuid::text_of_uuid;
use crate::model::uuid::uuid_of_text;
use crate::text::optional_text;
use crate::service::note_service::regex_group;
use crate::service::note_service::regex_replaced;
use crate::text::ascii_lowered;
use crate::text::is_whitespace;
use crate::text::lowercase_of;

verus! {

/// `char::is_whitespace`: whether the character has the Unicode property
/// `White_Space`, which the Unicode Character Database lists; the contract
/// writes that list out.
#[verifier::external_body]
pub(crate) fn is_whitespace_char(c: char) -> (r: bool)
    ensures
        r == is_whitespace(c),
{
    c.is_whitespace()
}

/// `==` on string slices: whether the two hold the same characters.
#[verifier::external_body]
pub(crate) fn same_text(a: &str, b: &str) -> (r: bool)
    ensures
        r == (a@ == b@),
{
    a == b
}

/// `uuid::Uuid::new_v4`, as the 128 bits of the identifier. The identifier
/// is random but for the version and variant fields, which say "version 4,
/// RFC 4122"; nothing else is claimed of it. The call panics where the
/// operating system hands out no random bytes.
#[verifier::external_body]
pub(crate) fn random_uuid() -> (r: u128)
    ensures
        r & 0x0000_0000_0000_f000_c000_0000_0000_0000u128 == 0x0000_0000_0000_4000_8000_0000_0000_0000u128,
{
    uuid::Uuid::new_v4().as_u128()
}

/// `str::to_lowercase`: the lowercase equivalent of the text, by the
/// Unicode rules.
#[verifier::external_body]
pub(crate) fn to_lowercase(s: &str) -> (r: String)
    ensures
        r@ == lowercase_of(s@),
{
    s.to_lowercase()
}

/// `str::to_ascii_lowercase`: the text with `A` to `Z` replaced by `a` to
/// `z`, everything else as it is.
#[verifier::external_body]
pub(crate) fn to_ascii_lowercase(s: &str) -> (r: String)
    ensures
        r@ == ascii_lowered(s@),
{
    s.to_ascii_lowercase()
}

/// `String::from_iter` on characters: the string made of them, in order.
#[verifier::external_body]
pub(crate) fn text_from(chars: &Vec<char>) -> (r: String)
    ensures
        r@ == chars@,
{
    String::from_iter(chars.iter())
}

/// `std::path::Path::is_absolute`. What counts as absolute depends on the
/// platform, so nothing is claimed of the answer.
#[verifier::external_body]
pub(crate) fn is_absolute_path(path: &str) -> (r: bool) {
    std::path::Path::new(path).is_absolute()
}

/// `std::time::SystemTime`, a reading of the system clock. Nothing is known
/// of what a value holds.
#[verifier::external_type_specification]
#[verifier::external_body]
pub struct ExSystemTime(std::time::SystemTime);

/// `std::time::SystemTime::now`: the clock's reading. Nothing is claimed
/// of it.
#[verifier::external_body]
pub(crate) fn system_now() -> (r: std::time::SystemTime) {
    std::time::SystemTime::now()
}

/// `std::time::SystemTime::duration_since` against the Unix epoch: the
/// time that has passed since the epoch; `None` where the reading lies
/// before it. Nothing is claimed of the value.
#[verifier::external_body]
pub(crate) fn since_epoch(reading: &std::time::SystemTime) -> (r: Option<core::time::Duration>) {
    match reading.duration_since(std::time::UNIX_EPOCH) {
        Ok(elapsed) => Some(elapsed),
        Err(_) => None,
    }
}

/// `core::time::Duration::as_secs`: the whole seconds of a duration.
/// Nothing is claimed of the value.
#[verifier::external_body]
pub(crate) fn whole_seconds(elapsed: &core::time::Duration) -> (r: u64) {
    elapsed.as_secs()
}

/// `regex::Regex::replace_all` on the expression compiled from `pattern`
/// by `regex::Regex::new`: the haystack with every match replaced, `$1` in
/// the replacement standing for the first group of the match. `None` where
/// the pattern does not compile.
#[verifier::external_body]
pub(crate) fn regex_replace_all(pattern: &str, haystack: &str, replacement: &str) -> (r: Option<String>)
    ensures
        optional_text(r) == regex_replaced(pattern@, haystack@, replacement@),
{
    match regex::Regex::new(pattern) {
        Ok(expression) => Some(expression.replace_all(haystack, replacement).into_owned()),
        Err(_) => None,
    }
}

/// `regex::Regex::captures` on the expression compiled from `pattern` by
/// `regex::Regex::new`: the text of group `group` of the leftmost match.
/// `None` where the pattern does not compile, nothing matches, or the
/// group took no part in the match.
#[verifier::external_body]
pub(crate) fn regex_capture(pattern: &str, haystack: &str, group: usize) -> (r: Option<String>)
    ensures
        optional_text(r) == regex_group(pattern@, haystack@, group as int),
{
    match regex::Regex::new(pattern) {
        Ok(expression) => match expression.captures(haystack) {
            Some(found) => match found.get(group) {
                Some(part) => Some(part.as_str().to_owned()),
                None => None,
            },
            None => None,
        },
        Err(_) => None,
    }
}

/// `uuid::Uuid::parse_str`, as the 128 bits of the identifier that the
/// text writes; `None` where the text writes none.
#[verifier::external_body]
pub(crate) fn uuid_from_text(text: &str) -> (r: Option<u128>)
    ensures
        r == uuid_of_text(text@),
{
    match uuid::Uuid::parse_str(text) {
        Ok(id) => Some(id.as_u128()),
        Err(_) => None,
    }
}

/// `to_string` of `uuid::Uuid`: the identifier with the bits `id` in its
/// hyphenated lower-case writing.
#[verifier::external_body]
pub(crate) fn uuid_to_text(id: u128) -> (r: String)
    ensures
        r@ == text_of_uuid(id),
{
    uuid::Uuid::from_u128(id).to_string()
}

} // verus!
