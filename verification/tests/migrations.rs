use lazynote_core::db::migrations::{latest_version, plan_migrations, validate_registry, Migration};
use lazynote_core::db::DbError;

#[test]
fn registry_rejects_non_increasing_versions() {
    let migrations = [
        Migration {
            version: 1,
            sql: "SELECT 1;",
        },
        Migration {
            version: 1,
            sql: "SELECT 1;",
        },
    ];

    let err = validate_registry(&migrations).unwrap_err();
    assert!(matches!(err, DbError::InvalidMigrationRegistry(_)));
}

#[test]
fn registry_rejects_zero_version() {
    let migrations = [Migration {
        version: 0,
        sql: "SELECT 1;",
    }];

    let err = validate_registry(&migrations).unwrap_err();
    assert!(matches!(err, DbError::InvalidMigrationRegistry(_)));
}

#[test]
fn registry_errors_name_the_first_problem() {
    let zero_first = [
        Migration { version: 0, sql: "" },
        Migration { version: 0, sql: "" },
    ];
    assert_eq!(
        validate_registry(&zero_first),
        Err(DbError::InvalidMigrationRegistry(
            "migration version must start from 1"
        ))
    );
    let falling = [
        Migration { version: 2, sql: "" },
        Migration { version: 1, sql: "" },
        Migration { version: 0, sql: "" },
    ];
    assert_eq!(
        validate_registry(&falling),
        Err(DbError::InvalidMigrationRegistry(
            "migration versions must be strictly increasing and unique"
        ))
    );
    let fine = [
        Migration { version: 1, sql: "" },
        Migration { version: 3, sql: "" },
    ];
    assert_eq!(validate_registry(&fine), Ok(()));
    let none: [Migration; 0] = [];
    assert_eq!(validate_registry(&none), Ok(()));
}

#[test]
fn latest_version_is_eight() {
    assert_eq!(latest_version(), 8);
}

#[test]
fn plan_takes_the_steps_above_the_current_version() {
    let registry = [
        Migration { version: 1, sql: "a" },
        Migration { version: 2, sql: "b" },
        Migration { version: 5, sql: "c" },
    ];
    assert_eq!(plan_migrations(&registry, 0), Ok(vec![0, 1, 2]));
    assert_eq!(plan_migrations(&registry, 2), Ok(vec![2]));
    assert_eq!(plan_migrations(&registry, 5), Ok(vec![]));
    assert_eq!(
        plan_migrations(&registry, 6),
        Err(DbError::UnsupportedSchemaVersion {
            db_version: 6,
            latest_supported: 5
        })
    );
}

#[test]
fn db_error_messages() {
    assert_eq!(
        DbError::UnsupportedSchemaVersion {
            db_version: 9,
            latest_supported: 8
        }
        .message(),
        "database schema version 9 is newer than supported 8"
    );
    assert_eq!(
        DbError::InvalidMigrationRegistry("x").message(),
        "invalid migration registry: x"
    );
}
