//! Canonical data model.

pub mod atom;
pub mod uuid;
