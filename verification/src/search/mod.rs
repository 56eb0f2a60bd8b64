//! Full-text search: how a query is shaped.

pub mod fts;
