//! Use-case orchestration services.

pub mod atom_service;
pub mod note_service;
pub mod tree_laws;
pub mod tree_service;
pub mod walk;
