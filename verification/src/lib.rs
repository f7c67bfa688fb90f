//! A property-graph store with verified core logic.
//!
//! The graph lives in a relational storage file (nodes, edges, and their
//! key-value properties, plus a metadata table that tracks the schema
//! version).  This crate models the contents of that file as a value,
//! [`store::GraphStore`], and verifies every repository operation against it:
//! schema migration, node and edge creation with atomic property writes,
//! lookups, updates, cascading deletes, and directed/undirected traversal.
//! A thin unverified shell is expected to mirror each successful operation
//! onto the backing store and to perform all I/O.

pub mod cli;
pub mod conf;
pub mod connect;
pub mod edges;
pub mod errors;
pub mod ids;
pub mod migrate;
pub mod nodes;
pub mod props;
pub mod secrets;
pub mod store;
pub mod text;
pub mod time;
pub mod traverse;
pub mod validate;
