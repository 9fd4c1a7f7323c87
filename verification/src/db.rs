//! Storage rules for the watch collection: when the database schema must be
//! created, where a retained recording is filed, and how an edit of a
//! missing record is reported.

use vstd::prelude::*;

verus! {

/// The schema version written after the initial schema is created.
pub const SCHEMA_VERSION: i64 = 1;

/// The version a database at `user_version` must be migrated to, if any:
/// only a database below the current version gets the schema.
pub open spec fn migration_target(user_version: i64) -> Option<i64> {
    if user_version < SCHEMA_VERSION {
        Some(SCHEMA_VERSION)
    } else {
        None
    }
}

/// Decide whether opening a database at `user_version` must create the
/// schema, and the version to record afterwards.
pub fn plan_migration(user_version: i64) -> (r: Option<i64>)
    ensures
        r == migration_target(user_version),
{
    if user_version < SCHEMA_VERSION {
        Some(SCHEMA_VERSION)
    } else {
        None
    }
}

/// Migrations are idempotent: once a database has been migrated (or needed
/// no migration), opening it again plans nothing.
pub proof fn lemma_migration_idempotent(user_version: i64)
    ensures
        migration_target(
            match migration_target(user_version) {
                Some(v) => v,
                None => user_version,
            },
        ) is None,
{
}

/// The two kinds of stored record.
#[derive(Debug, Clone, Copy, PartialEq, Eq, Structural)]
pub enum RecordKind {
    Watch,
    Test,
}

/// The word naming a record kind in messages.
pub open spec fn record_label(kind: RecordKind) -> Seq<char> {
    match kind {
        RecordKind::Watch => "watch"@,
        RecordKind::Test => "test"@,
    }
}

/// An update that changed no row means the record does not exist: turn the
/// changed-row count of an update of record `id` into success or the
/// "not found" error.
pub fn require_updated(kind: RecordKind, id: &str, rows_changed: usize) -> (r: Result<(), String>)
    ensures
        r is Ok <==> rows_changed != 0,
        r matches Err(e) ==> e@ == record_label(kind) + " not found: "@ + id@,
{
    if rows_changed != 0 {
        return Ok(());
    }
    let mut msg = match kind {
        RecordKind::Watch => String::from_str("watch"),
        RecordKind::Test => String::from_str("test"),
    };
    msg.append(" not found: ");
    msg.append(id);
    Err(msg)
}

/// Where a saved test's audio clip is kept, relative to the data directory,
/// when the UI supplied a non-empty source path for it: `recordings/<test
/// id>.wav`. Without a source (or with an empty one) no clip is kept.
pub fn clip_destination(source: &Option<String>, test_id: &str) -> (r: Option<String>)
    ensures
        r is Some <==> (*source matches Some(s) && s@.len() > 0),
        r matches Some(p) ==> p@ == "recordings/"@ + test_id@ + ".wav"@,
{
    match source {
        Some(src) => {
            if src.as_str().is_empty() {
                None
            } else {
                let mut rel = String::from_str("recordings/");
                rel.append(test_id);
                rel.append(".wav");
                Some(rel)
            }
        },
        None => None,
    }
}

} // verus!
