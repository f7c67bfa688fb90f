//! The error taxonomy of the graph store.
//!
//! Every repository operation reports exactly one of these conditions; no
//! operation retries, and a failed operation leaves the store unchanged.

use vstd::prelude::*;

verus! {

/// Which endpoint of an edge a referential-integrity failure is about.
#[derive(Clone, Copy, Debug, PartialEq, Eq, Structural)]
pub enum Endpoint {
    /// The edge's source node.
    From,
    /// The edge's target node.
    To,
}

/// The failure conditions a graph operation can report.
#[derive(Clone, Copy, Debug, PartialEq, Eq, Structural)]
pub enum GraphError {
    /// The backing store or the secret store could not be reached.
    Connection,
    /// A schema migration step failed.
    Migration,
    /// Malformed input: an unparsable key-value argument or an empty key.
    Validation,
    /// An edge endpoint does not name an existing node.
    Reference(Endpoint),
    /// The same property key was supplied twice in one call.
    DuplicateKey,
    /// A lookup by id matched nothing.
    NotFound,
    /// A freshly generated id was already taken; with 128-bit random ids
    /// this is never expected to happen.
    IdCollision,
}

} // verus!
