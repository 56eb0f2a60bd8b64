//! Persistence contracts and the in-memory table that meets them.

pub mod ancestry;
pub mod atom_repo;
pub mod cascades;
pub mod listing;
pub mod memory_tree;
pub mod note_repo;
pub mod ordering;
pub mod schema;
pub mod tree_invariants;
pub mod tree_lemmas;
pub mod tree_repo;
pub mod tree_state;
