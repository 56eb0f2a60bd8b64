//! Storage failures as the core sees them, and the schema version it expects.

use vstd::prelude::*;
use crate::text::decimal;
use crate::text::decimal_text;
use crate::text::join2;
use crate::text::join3;

pub mod migrations;

verus! {

/// Why the storage engine refused a statement.
#[derive(Debug, Clone, PartialEq, Eq)]
pub enum SqliteFailure {
    /// A key that must be unique is already taken.
    UniqueConstraint,
    /// A parent reference names no row.
    ForeignKeyConstraint,
    /// A value left the range of a 64-bit integer column.
    IntegerOverflow,
    /// A table cannot take another row.
    Full,
    /// A failure that a storage engine reported, with the result code and
    /// the message it gave.
    Reported { code: i32, message: String },
    /// Any other failure of the storage layer, with its message.
    Other(String),
}

/// The result code of an engine whose database file is busy.
pub const SQLITE_BUSY: i32 = 5;

/// The result code of an engine one of whose tables is locked.
pub const SQLITE_LOCKED: i32 = 6;

/// Whether a result code, primary or extended, tells of a database that is
/// busy or locked: its low byte is the primary code.
pub open spec fn busy_code(code: i32) -> bool {
    code & 0xff == 5 || code & 0xff == 6
}

/// Whether a failure tells of a database that is busy or locked.
pub open spec fn failure_busy(failure: SqliteFailure) -> bool {
    match failure {
        SqliteFailure::Reported { code, message } => busy_code(code),
        _ => false,
    }
}

/// Database-layer error for connection bootstrap and schema migration.
#[derive(Debug, Clone, PartialEq, Eq)]
pub enum DbError {
    /// Failure reported by the storage engine.
    Sqlite(SqliteFailure),
    /// Internal migration registry definition is malformed.
    InvalidMigrationRegistry(&'static str),
    /// Database schema version is newer than this binary supports.
    UnsupportedSchemaVersion { db_version: u32, latest_supported: u32 },
}

/// What a failure of the engine says.
pub open spec fn failure_text(failure: SqliteFailure) -> Seq<char> {
    match failure {
        SqliteFailure::UniqueConstraint => "UNIQUE constraint failed"@,
        SqliteFailure::ForeignKeyConstraint => "FOREIGN KEY constraint failed"@,
        SqliteFailure::IntegerOverflow => "integer overflow"@,
        SqliteFailure::Full => "database or disk is full"@,
        SqliteFailure::Reported { code, message } => message@,
        SqliteFailure::Other(message) => message@,
    }
}

/// What a database error says.
pub open spec fn db_error_text(e: DbError) -> Seq<char> {
    match e {
        DbError::Sqlite(failure) => failure_text(failure),
        DbError::InvalidMigrationRegistry(details) => "invalid migration registry: "@ + details@,
        DbError::UnsupportedSchemaVersion { db_version, latest_supported } => "database schema version "@
            + decimal_text(db_version as int) + " is newer than supported "@ + decimal_text(
            latest_supported as int,
        ),
    }
}

impl SqliteFailure {
    /// The message of this failure.
    pub fn message(&self) -> (r: String)
        ensures
            r@ == failure_text(*self),
    {
        match self {
            SqliteFailure::UniqueConstraint => "UNIQUE constraint failed".to_owned(),
            SqliteFailure::ForeignKeyConstraint => "FOREIGN KEY constraint failed".to_owned(),
            SqliteFailure::IntegerOverflow => "integer overflow".to_owned(),
            SqliteFailure::Full => "database or disk is full".to_owned(),
            SqliteFailure::Reported { code, message } => message.clone(),
            SqliteFailure::Other(message) => message.clone(),
        }
    }

    /// Whether the engine was busy or locked.
    pub fn is_busy(&self) -> (r: bool)
        ensures
            r == failure_busy(*self),
    {
        match self {
            SqliteFailure::Reported { code, message } => {
                let primary = *code & 0xff;
                primary == SQLITE_BUSY || primary == SQLITE_LOCKED
            },
            _ => false,
        }
    }
}

impl DbError {
    /// The message of this error.
    pub fn message(&self) -> (r: String)
        ensures
            r@ == db_error_text(*self),
    {
        match self {
            DbError::Sqlite(failure) => failure.message(),
            DbError::InvalidMigrationRegistry(details) => join2("invalid migration registry: ", details),
            DbError::UnsupportedSchemaVersion { db_version, latest_supported } => {
                let mut r = join3(
                    "database schema version ",
                    decimal(*db_version as i64).as_str(),
                    " is newer than supported ",
                );
                r.append(decimal(*latest_supported as i64).as_str());
                r
            },
        }
    }
}

} // verus!
