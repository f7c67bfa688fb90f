//! The schema migration manager.
//!
//! A storage file carries a single integer version in its metadata table.
//! Bringing a file to the expected layout (the `ensure_schema` operation,
//! [`init_db`] here) reads that version, creating the row at zero when it
//! is absent, and applies every migration step with a greater ordinal, in
//! ascending order, persisting the new version after each.  Each step's
//! DDL is itself idempotent, the version only increases, and a step is
//! never re-run.  The surrounding shell executes the returned statements;
//! on a step's failure it aborts, leaving the version at the last
//! completed step.

use vstd::prelude::*;

use crate::store::GraphStore;

verus! {

/// The newest schema version this build knows.
pub const SCHEMA_VERSION: i64 = 1;

/// The node table: id as primary key, labels as JSON-encoded text, and
/// the two timestamps; created only if absent.
pub const NODES_DDL: &'static str = "
        CREATE TABLE IF NOT EXISTS nodes (
            id         TEXT PRIMARY KEY,
            labels     TEXT NOT NULL,
            created_at TEXT NOT NULL,
            updated_at TEXT NOT NULL
        );";

/// The node property table: keyed by `(node_id, key)`, cascade-deleted
/// with the owning node; created only if absent.
pub const NODE_PROPS_DDL: &'static str = "
        CREATE TABLE IF NOT EXISTS node_props (
            node_id    TEXT NOT NULL REFERENCES nodes(id) ON DELETE CASCADE,
            key        TEXT NOT NULL,
            value      TEXT NOT NULL,
            created_at TEXT NOT NULL,
            updated_at TEXT NOT NULL,
            PRIMARY KEY (node_id, key)
        );";

/// The edge table: id as primary key, endpoints referencing nodes with
/// cascading deletes, and the directed flag; created only if absent.
pub const EDGES_DDL: &'static str = "
        CREATE TABLE IF NOT EXISTS edges (
            id         TEXT PRIMARY KEY,
            edge_type  TEXT NOT NULL,
            from_node  TEXT NOT NULL REFERENCES nodes(id) ON DELETE CASCADE,
            to_node    TEXT NOT NULL REFERENCES nodes(id) ON DELETE CASCADE,
            directed   INT  NOT NULL,
            created_at TEXT NOT NULL,
            updated_at TEXT NOT NULL
        );";

/// The edge property table: keyed by `(edge_id, key)`, cascade-deleted
/// with the owning edge; created only if absent.
pub const EDGE_PROPS_DDL: &'static str = "
        CREATE TABLE IF NOT EXISTS edge_props (
            edge_id    TEXT NOT NULL REFERENCES edges(id) ON DELETE CASCADE,
            key        TEXT NOT NULL,
            value      TEXT NOT NULL,
            created_at TEXT NOT NULL,
            updated_at TEXT NOT NULL,
            PRIMARY KEY (edge_id, key)
        );";

/// One migration step: its ordinal and its idempotent DDL statements.
#[derive(Debug)]
pub struct MigrationStep {
    /// The version this step migrates the file to.
    pub ordinal: i64,
    /// The step's DDL statements, each safe to re-run.
    pub statements: Vec<String>,
}

/// The version a storage file reports: the stored value, or zero when the
/// metadata row is absent.
pub open spec fn stored_version(v: Option<i64>) -> int {
    match v {
        Some(n) => n as int,
        None => 0,
    }
}

/// The version after bringing a file up to date: migration only goes
/// forward, and a file already at or past the newest known version keeps
/// its version.
pub open spec fn migrated_version(v: Option<i64>) -> int {
    if stored_version(v) >= SCHEMA_VERSION as int {
        stored_version(v)
    } else {
        SCHEMA_VERSION as int
    }
}

/// Bringing a file up to date twice is the same as doing it once: the
/// version a migrated file reports does not move again.
pub proof fn lemma_migration_idempotent(v: Option<i64>)
    ensures
        migrated_version(Some(migrated_version(v) as i64)) == migrated_version(v),
{
}

/// Read the stored migration version, inserting the metadata row with
/// value zero when it is absent.  (In the backing file this read also
/// creates the metadata table; the model's shape already provides it.)
pub fn get_migration_count(store: &mut GraphStore) -> (r: i64)
    ensures
        r as int == stored_version(old(store).version),
        final(store).version == Some(r),
        final(store).nodes == old(store).nodes,
        final(store).node_props == old(store).node_props,
        final(store).edges == old(store).edges,
        final(store).edge_props == old(store).edge_props,
        old(store).version is Some ==> *final(store) == *old(store),
{
    match store.version {
        Some(v) => v,
        None => {
            store.version = Some(0);
            0
        }
    }
}

/// Persist a new migration version.
pub(crate) fn set_migration_count(store: &mut GraphStore, count: i64)
    ensures
        final(store).version == Some(count),
        final(store).nodes == old(store).nodes,
        final(store).node_props == old(store).node_props,
        final(store).edges == old(store).edges,
        final(store).edge_props == old(store).edge_props,
{
    store.version = Some(count);
}

/// The first migration step's DDL: exactly the node, node-property,
/// edge, and edge-property table definitions, in that order, each
/// creating its table only if absent.
pub fn migrations_v1() -> (r: Vec<String>)
    ensures
        r@.len() == 4,
        r@[0]@ == NODES_DDL@,
        r@[1]@ == NODE_PROPS_DDL@,
        r@[2]@ == EDGES_DDL@,
        r@[3]@ == EDGE_PROPS_DDL@,
{
    let mut stmts: Vec<String> = Vec::new();
    stmts.push(String::from_str(NODES_DDL));
    stmts.push(String::from_str(NODE_PROPS_DDL));
    stmts.push(String::from_str(EDGES_DDL));
    stmts.push(String::from_str(EDGE_PROPS_DDL));
    stmts
}

/// Bring a storage file to the expected table layout: read the stored
/// version and apply every newer migration step, in ascending order.  The
/// returned steps are exactly those applied — their statement texts are
/// pinned — for the shell to execute; the table contents are untouched.
/// Running this again after a successful run is a no-op: no step is ever
/// re-applied.
pub fn init_db(store: &mut GraphStore) -> (steps: Vec<MigrationStep>)
    ensures
        final(store).version matches Some(v) && v as int == migrated_version(old(store).version),
        final(store).nodes == old(store).nodes,
        final(store).node_props == old(store).node_props,
        final(store).edges == old(store).edges,
        final(store).edge_props == old(store).edge_props,
        stored_version(old(store).version) < SCHEMA_VERSION as int ==> {
            &&& steps@.len() == 1
            &&& steps@[0].ordinal == SCHEMA_VERSION
            &&& steps@[0].statements@.len() == 4
            &&& steps@[0].statements@[0]@ == NODES_DDL@
            &&& steps@[0].statements@[1]@ == NODE_PROPS_DDL@
            &&& steps@[0].statements@[2]@ == EDGES_DDL@
            &&& steps@[0].statements@[3]@ == EDGE_PROPS_DDL@
        },
        stored_version(old(store).version) >= SCHEMA_VERSION as int ==> steps@.len() == 0
            && *final(store) == *old(store),
{
    let count = get_migration_count(store);
    let mut steps: Vec<MigrationStep> = Vec::new();
    if count < SCHEMA_VERSION {
        let statements = migrations_v1();
        steps.push(MigrationStep { ordinal: SCHEMA_VERSION, statements });
        set_migration_count(store, SCHEMA_VERSION);
    }
    steps
}

} // verus!
