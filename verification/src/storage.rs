//! SQLite storage: where the database lives and which schema migrations it
//! needs. Opening connections and running SQL is done by the application
//! shell.

use vstd::prelude::*;

use crate::domain::{Error, Result};
use crate::text::{copy_str, decimal, decimal_string, push_str};

verus! {

/// Current schema version. Bump it and add a migration when the schema
/// changes.
pub const SCHEMA_VERSION: u32 = 3;

/// Handle to the database file.
pub struct Database {
    path: String,
}

impl Database {
    pub closed spec fn path_spec(&self) -> Seq<char> {
        self.path@
    }

    /// Use an explicit path (a file, or `:memory:` in tests).
    pub fn at(path: String) -> (r: Self)
        ensures
            r.path_spec() == path@,
    {
        Database { path }
    }

    pub fn path(&self) -> (r: &str)
        ensures
            r@ == self.path_spec(),
    {
        self.path.as_str()
    }
}

/// Text of the error for a database written by a newer build.
pub open spec fn newer_schema_message(current: nat) -> Seq<char> {
    "database schema version ("@ + decimal(current) + ") is newer than this build supports ("@
        + decimal(SCHEMA_VERSION as nat) + "); upgrade Binderbase or use a matching database"@
}

/// The migrations a database at schema version `current` needs: every
/// version from `current + 1` up to `SCHEMA_VERSION`, in order.
pub open spec fn pending_migrations(current: nat) -> Seq<u32> {
    Seq::new((SCHEMA_VERSION - current) as nat, |i: int| (current + 1 + i) as u32)
}

/// Given the schema version found on disk (0 for a fresh database), lists
/// the migrations to apply, in order, to reach `SCHEMA_VERSION`; a schema
/// newer than this build understands (the user downgraded) is refused.
pub fn plan_migrations(current: u32) -> (r: Result<Vec<u32>>)
    ensures
        current > SCHEMA_VERSION ==> (r matches Err(Error::Storage(m)) && m@
            == newer_schema_message(current as nat)),
        current <= SCHEMA_VERSION ==> (r matches Ok(v) && v@ == pending_migrations(current as nat)),
{
    if current > SCHEMA_VERSION {
        let mut m = copy_str("database schema version (");
        let c = decimal_string(current as u64);
        push_str(&mut m, c.as_str());
        push_str(&mut m, ") is newer than this build supports (");
        let v = decimal_string(SCHEMA_VERSION as u64);
        push_str(&mut m, v.as_str());
        push_str(&mut m, "); upgrade Binderbase or use a matching database");
        return Err(Error::Storage(m));
    }
    let mut pending: Vec<u32> = Vec::new();
    let mut version = current;
    while version < SCHEMA_VERSION
        invariant
            current <= version <= SCHEMA_VERSION,
            pending@ == pending_migrations(current as nat).take(version - current),
        decreases SCHEMA_VERSION - version,
    {
        version = version + 1;
        pending.push(version);
        assert(pending@ =~= pending_migrations(current as nat).take(version - current));
    }
    assert(pending_migrations(current as nat).take(SCHEMA_VERSION - current) =~= pending_migrations(
        current as nat,
    ));
    Ok(pending)
}

/// Migrating reaches the current schema: the planned migrations run from
/// just above the version found up to `SCHEMA_VERSION`, one version each, so
/// a fresh database ends at `SCHEMA_VERSION` and an up-to-date one runs none.
pub proof fn lemma_migrations_reach_latest(current: nat)
    requires
        current <= SCHEMA_VERSION,
    ensures
        current < SCHEMA_VERSION ==> pending_migrations(current).last() == SCHEMA_VERSION,
        current == SCHEMA_VERSION ==> pending_migrations(current).len() == 0,
        forall|i: int|
            0 <= i < pending_migrations(current).len() ==> #[trigger] pending_migrations(current)[i]
                == current + 1 + i,
{
}

} // verus!
