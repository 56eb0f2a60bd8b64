//! The registry of schema versions.

use vstd::prelude::*;
use crate::db::DbError;

verus! {

/// The schema versions this binary knows, oldest first.
pub open spec fn known_versions() -> Seq<u32> {
    seq![1u32, 2u32, 3u32, 4u32, 5u32, 6u32, 7u32, 8u32]
}

/// The versions are positive and strictly increasing.
pub open spec fn registry_ordered(versions: Seq<u32>) -> bool {
    &&& forall|i: int| 0 <= i < versions.len() ==> #[trigger] versions[i] > 0
    &&& forall|i: int, j: int| 0 <= i < j < versions.len() ==> versions[i] < versions[j]
}

/// The largest of `versions`, 0 where there is none.
pub open spec fn max_version(versions: Seq<u32>) -> u32
    decreases versions.len(),
{
    if versions.len() == 0 {
        0
    } else {
        let rest = max_version(versions.drop_last());
        if versions.last() > rest {
            versions.last()
        } else {
            rest
        }
    }
}

fn registry() -> (r: Vec<u32>)
    ensures
        r@ == known_versions(),
{
    let r = vec![1u32, 2u32, 3u32, 4u32, 5u32, 6u32, 7u32, 8u32];
    assert(r@ =~= known_versions());
    r
}

/// Returns the latest migration version known by this binary.
pub fn latest_version() -> (r: u32)
    ensures
        r == max_version(known_versions()),
        r == 8,
{
    let versions = registry();
    let mut best: u32 = 0;
    let mut i: usize = 0;
    while i < versions.len()
        invariant
            i <= versions.len(),
            best == max_version(versions@.take(i as int)),
        decreases versions.len() - i,
    {
        assert(versions@.take(i as int + 1).drop_last() =~= versions@.take(i as int));
        if versions[i] > best {
            best = versions[i];
        }
        i += 1;
    }
    assert(versions@.take(versions.len() as int) =~= versions@);
    proof {
        lemma_max_of_ordered(known_versions());
    }
    best
}

/// In an ordered registry the latest version is the last one.
pub proof fn lemma_max_of_ordered(versions: Seq<u32>)
    requires
        registry_ordered(versions),
    ensures
        versions.len() > 0 ==> max_version(versions) == versions.last(),
        versions.len() == 0 ==> max_version(versions) == 0,
    decreases versions.len(),
{
    if versions.len() > 0 {
        let rest = versions.drop_last();
        assert forall|i: int, j: int| 0 <= i < j < rest.len() implies rest[i] < rest[j] by {
            assert(rest[i] == versions[i] && rest[j] == versions[j]);
        }
        assert forall|i: int| 0 <= i < rest.len() implies #[trigger] rest[i] > 0 by {
            assert(rest[i] == versions[i]);
        }
        lemma_max_of_ordered(rest);
        if rest.len() > 0 {
            assert(rest.last() == versions[versions.len() - 2]);
        }
    }
}

/// One step of the schema: the version it leads to, and the statements
/// that lead there.
#[derive(Debug, Clone, Copy)]
pub struct Migration {
    pub version: u32,
    pub sql: &'static str,
}

/// The versions of a registry, in its order.
pub open spec fn versions_of(migrations: Seq<Migration>) -> Seq<u32> {
    migrations.map_values(|m: Migration| m.version)
}

/// What is wrong with the step at `i` of a registry whose steps before it
/// are in order: a version 0, or a version that is not above the one before.
pub open spec fn step_issue(versions: Seq<u32>, i: int) -> Option<Seq<char>> {
    if versions[i] == 0 {
        Some("migration version must start from 1"@)
    } else if i > 0 && versions[i] <= versions[i - 1] {
        Some("migration versions must be strictly increasing and unique"@)
    } else {
        None
    }
}

/// The first thing wrong among the first `n` steps of a registry.
pub open spec fn registry_issue(versions: Seq<u32>, n: nat) -> Option<Seq<char>>
    decreases n,
{
    if n == 0 {
        None
    } else if registry_issue(versions, (n - 1) as nat) is Some {
        registry_issue(versions, (n - 1) as nat)
    } else {
        step_issue(versions, n - 1)
    }
}

/// A registry without an issue is ordered, and an ordered one has no issue.
pub proof fn lemma_registry_issue(versions: Seq<u32>, n: nat)
    requires
        n <= versions.len(),
    ensures
        registry_issue(versions, n) is None <==> registry_ordered(versions.take(n as int)),
    decreases n,
{
    let here = versions.take(n as int);
    if n > 0 {
        let before = versions.take(n - 1);
        lemma_registry_issue(versions, (n - 1) as nat);
        if registry_issue(versions, n) is None {
            assert forall|i: int| 0 <= i < here.len() implies #[trigger] here[i] > 0 by {
                if i < n - 1 {
                    assert(before[i] == here[i]);
                }
            }
            assert forall|i: int, j: int| 0 <= i < j < here.len() implies here[i] < here[j] by {
                if j < n - 1 {
                    assert(before[i] == here[i] && before[j] == here[j]);
                } else if i < n - 2 {
                    assert(before[i] < before[n - 2]);
                }
            }
        }
        if registry_ordered(here) {
            assert forall|i: int| 0 <= i < before.len() implies #[trigger] before[i] > 0 by {
                assert(here[i] == before[i]);
            }
            assert forall|i: int, j: int| 0 <= i < j < before.len() implies before[i] < before[j] by {
                assert(here[i] == before[i] && here[j] == before[j]);
            }
            assert(here[n - 1] > 0);
            if n > 1 {
                assert(here[n - 2] < here[n - 1]);
            }
        }
    }
}

/// Once something is wrong among the first steps, it stays the first thing wrong.
pub proof fn lemma_registry_issue_stays(versions: Seq<u32>, i: nat, n: nat)
    requires
        i <= n,
        registry_issue(versions, i) is Some,
    ensures
        registry_issue(versions, n) == registry_issue(versions, i),
    decreases n,
{
    if i < n {
        lemma_registry_issue_stays(versions, i, (n - 1) as nat);
    }
}

/// The message of an error that tells of a malformed registry.
pub open spec fn registry_error_text(e: DbError) -> Option<Seq<char>> {
    match e {
        DbError::InvalidMigrationRegistry(details) => Some(details@),
        _ => None,
    }
}

/// Checks that the versions of a registry start above 0 and rise.
pub fn validate_registry(migrations: &[Migration]) -> (r: Result<(), DbError>)
    ensures
        r is Ok <==> registry_ordered(versions_of(migrations@)),
        r is Err ==> registry_error_text(r->Err_0) is Some && registry_error_text(r->Err_0)
            == registry_issue(versions_of(migrations@), migrations@.len()),
{
    let ghost versions = versions_of(migrations@);
    let mut previous: u32 = 0;
    let mut i: usize = 0;
    while i < migrations.len()
        invariant
            i <= migrations.len(),
            versions == versions_of(migrations@),
            registry_issue(versions, i as nat) is None,
            i > 0 ==> previous == versions[i - 1],
            i == 0 ==> previous == 0,
        decreases migrations.len() - i,
    {
        let version = migrations[i].version;
        assert(version == versions[i as int]);
        if version == 0 {
            proof {
                lemma_registry_issue_stays(versions, (i + 1) as nat, versions.len());
                lemma_registry_issue(versions, versions.len());
                assert(versions.take(versions.len() as int) =~= versions);
            }
            return Err(DbError::InvalidMigrationRegistry("migration version must start from 1"));
        }
        if version <= previous {
            proof {
                lemma_registry_issue_stays(versions, (i + 1) as nat, versions.len());
                lemma_registry_issue(versions, versions.len());
                assert(versions.take(versions.len() as int) =~= versions);
            }
            return Err(
                DbError::InvalidMigrationRegistry(
                    "migration versions must be strictly increasing and unique",
                ),
            );
        }
        previous = version;
        i += 1;
    }
    proof {
        lemma_registry_issue(versions, versions.len());
        assert(versions.take(versions.len() as int) =~= versions);
    }
    Ok(())
}

/// The test "is above `current`".
pub open spec fn above(current: u32) -> spec_fn(u32) -> bool {
    |v: u32| v > current
}

/// The versions of the steps at the indices `idx`.
pub open spec fn versions_at(migrations: Seq<Migration>, idx: Seq<usize>) -> Seq<u32> {
    idx.map_values(|i: usize| migrations[i as int].version)
}

/// Plans a migration of a database at `current_version`: the indices of
/// the steps to take, in order, which are the steps above the current
/// version. A registry that is not in order is refused, and a database
/// beyond the last step of the registry is not supported.
pub fn plan_migrations(migrations: &[Migration], current_version: u32) -> (r: Result<Vec<usize>, DbError>)
    ensures
        match r {
            Ok(steps) => registry_ordered(versions_of(migrations@)) && current_version <= max_version(
                versions_of(migrations@),
            ) && (forall|k: int| 0 <= k < steps@.len() ==> #[trigger] steps@[k] < migrations@.len())
                && versions_at(migrations@, steps@) == versions_of(migrations@).filter(
                above(current_version),
            ),
            Err(e) => if registry_ordered(versions_of(migrations@)) {
                current_version > max_version(versions_of(migrations@)) && e
                    == (DbError::UnsupportedSchemaVersion {
                    db_version: current_version,
                    latest_supported: max_version(versions_of(migrations@)),
                })
            } else {
                registry_error_text(e) is Some && registry_error_text(e) == registry_issue(
                    versions_of(migrations@),
                    migrations@.len(),
                )
            },
        },
{
    match validate_registry(migrations) {
        Ok(()) => {},
        Err(e) => {
            return Err(e);
        },
    }
    let ghost versions = versions_of(migrations@);
    let latest = if migrations.len() == 0 {
        0
    } else {
        migrations[migrations.len() - 1].version
    };
    proof {
        lemma_max_of_ordered(versions);
        if migrations@.len() > 0 {
            assert(versions.last() == migrations@[migrations@.len() - 1].version);
        }
    }
    if current_version > latest {
        return Err(DbError::UnsupportedSchemaVersion { db_version: current_version, latest_supported: latest });
    }
    let mut steps: Vec<usize> = Vec::new();
    let mut i: usize = 0;
    proof {
        reveal(Seq::filter);
        assert(versions.take(0) =~= Seq::empty());
        assert(versions_at(migrations@, steps@) =~= Seq::empty());
    }
    while i < migrations.len()
        invariant
            i <= migrations.len(),
            versions == versions_of(migrations@),
            forall|k: int| 0 <= k < steps@.len() ==> #[trigger] steps@[k] < migrations@.len(),
            versions_at(migrations@, steps@) == versions.take(i as int).filter(above(current_version)),
        decreases migrations.len() - i,
    {
        let ghost before = versions_at(migrations@, steps@);
        proof {
            reveal(Seq::filter);
            assert(versions.take(i as int + 1).drop_last() =~= versions.take(i as int));
            assert(versions.take(i as int + 1).last() == migrations@[i as int].version);
        }
        if migrations[i].version > current_version {
            steps.push(i);
            assert(versions_at(migrations@, steps@) =~= before.push(migrations@[i as int].version));
        }
        i += 1;
    }
    assert(versions.take(migrations@.len() as int) =~= versions);
    Ok(steps)
}

} // verus!
