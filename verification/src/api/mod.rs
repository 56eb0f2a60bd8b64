//! The core as callers outside it see it: plain strings in, envelopes out.

use vstd::prelude::*;

pub mod entry;
pub mod notes;
pub mod workspace;

verus! {

/// The answer of the health check, as an owned string.
pub fn ping() -> (r: String)
    ensures
        r@ == crate::pong(),
{
    crate::ping().to_owned()
}

/// The version of the core, as an owned string.
pub fn core_version() -> (r: String)
    ensures
        r@ == crate::version_text(),
        r@.len() > 0,
{
    crate::core_version().to_owned()
}

} // verus!
