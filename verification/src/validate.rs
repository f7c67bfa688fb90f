//! An executable check of the store invariants.
//!
//! The shell fills a [`GraphStore`] from the backing file; this check
//! decides, exactly, whether what it read is well-formed, so that a
//! corrupted or foreign file is rejected before any operation runs on it.

use vstd::prelude::*;

use crate::props::is_json_text;
use crate::store::{
    check_edge_exists, check_node_exists, edge_ids_unique, has_edge, has_node, node_ids_unique,
    prop_pairs_unique, EdgeRow, GraphStore, NodeRow, PropRow,
};

verus! {

/// Decide whether the node table's ids are pairwise distinct.
fn node_ids_unique_exec(rows: &Vec<NodeRow>) -> (b: bool)
    ensures
        b == node_ids_unique(rows@),
{
    let mut i: usize = 0;
    while i < rows.len()
        invariant
            0 <= i <= rows@.len(),
            forall|a: int, b: int|
                0 <= a < b < rows@.len() && a < i ==> rows@[a].id@ != rows@[b].id@,
        decreases rows@.len() - i,
    {
        let mut j: usize = i + 1;
        while j < rows.len()
            invariant
                i < j <= rows@.len(),
                i < rows@.len(),
                forall|b: int| i < b < j ==> rows@[i as int].id@ != rows@[b].id@,
            decreases rows@.len() - j,
        {
            if rows[i].id == rows[j].id {
                return false;
            }
            j = j + 1;
        }
        i = i + 1;
    }
    true
}

/// Decide whether the edge table's ids are pairwise distinct.
fn edge_ids_unique_exec(rows: &Vec<EdgeRow>) -> (b: bool)
    ensures
        b == edge_ids_unique(rows@),
{
    let mut i: usize = 0;
    while i < rows.len()
        invariant
            0 <= i <= rows@.len(),
            forall|a: int, b: int|
                0 <= a < b < rows@.len() && a < i ==> rows@[a].id@ != rows@[b].id@,
        decreases rows@.len() - i,
    {
        let mut j: usize = i + 1;
        while j < rows.len()
            invariant
                i < j <= rows@.len(),
                i < rows@.len(),
                forall|b: int| i < b < j ==> rows@[i as int].id@ != rows@[b].id@,
            decreases rows@.len() - j,
        {
            if rows[i].id == rows[j].id {
                return false;
            }
            j = j + 1;
        }
        i = i + 1;
    }
    true
}

/// Decide whether a property table's `(owner, key)` pairs are pairwise
/// distinct.
fn prop_pairs_unique_exec(rows: &Vec<PropRow>) -> (b: bool)
    ensures
        b == prop_pairs_unique(rows@),
{
    let mut i: usize = 0;
    while i < rows.len()
        invariant
            0 <= i <= rows@.len(),
            forall|a: int, b: int|
                0 <= a < b < rows@.len() && a < i ==> !(rows@[a].owner_id@ == rows@[b].owner_id@
                    && rows@[a].key@ == rows@[b].key@),
        decreases rows@.len() - i,
    {
        let mut j: usize = i + 1;
        while j < rows.len()
            invariant
                i < j <= rows@.len(),
                i < rows@.len(),
                forall|b: int|
                    i < b < j ==> !(rows@[i as int].owner_id@ == rows@[b].owner_id@ && rows@[
                        i as int
                    ].key@ == rows@[b].key@),
            decreases rows@.len() - j,
        {
            if rows[i].owner_id == rows[j].owner_id && rows[i].key == rows[j].key {
                return false;
            }
            j = j + 1;
        }
        i = i + 1;
    }
    true
}

/// Decide whether a store read back from a file is well-formed: exactly
/// the invariant every repository operation preserves.
pub fn validate_store(store: &GraphStore) -> (b: bool)
    ensures
        b == store.wf(),
{
    if !node_ids_unique_exec(&store.nodes) {
        return false;
    }
    if !edge_ids_unique_exec(&store.edges) {
        return false;
    }
    if !prop_pairs_unique_exec(&store.node_props) {
        return false;
    }
    if !prop_pairs_unique_exec(&store.edge_props) {
        return false;
    }
    let mut i: usize = 0;
    while i < store.edges.len()
        invariant
            0 <= i <= store.edges@.len(),
            forall|k: int|
                0 <= k < i ==> has_node(store.nodes@, #[trigger] store.edges@[k].from_node@)
                    && has_node(store.nodes@, store.edges@[k].to_node@),
        decreases store.edges@.len() - i,
    {
        if !check_node_exists(store, &store.edges[i].from_node) {
            return false;
        }
        if !check_node_exists(store, &store.edges[i].to_node) {
            return false;
        }
        proof {
            assert forall|k: int|
                0 <= k < i + 1 implies has_node(
                store.nodes@,
                #[trigger] store.edges@[k].from_node@,
            ) && has_node(store.nodes@, store.edges@[k].to_node@) by {
                if k == i {
                    assert(has_node(store.nodes@, store.edges@[i as int].from_node@));
                    assert(has_node(store.nodes@, store.edges@[i as int].to_node@));
                }
            }
        }
        i = i + 1;
    }
    let mut j: usize = 0;
    while j < store.node_props.len()
        invariant
            0 <= j <= store.node_props@.len(),
            forall|k: int|
                0 <= k < j ==> has_node(store.nodes@, #[trigger] store.node_props@[k].owner_id@)
                    && is_json_text(store.node_props@[k].value@),
        decreases store.node_props@.len() - j,
    {
        if !check_node_exists(store, &store.node_props[j].owner_id) {
            return false;
        }
        if !crate::props::json_parses(store.node_props[j].value.as_str()) {
            return false;
        }
        proof {
            assert forall|k: int|
                0 <= k < j + 1 implies has_node(
                store.nodes@,
                #[trigger] store.node_props@[k].owner_id@,
            ) && is_json_text(store.node_props@[k].value@) by {
                if k == j {
                    assert(has_node(store.nodes@, store.node_props@[j as int].owner_id@));
                    assert(is_json_text(store.node_props@[j as int].value@));
                }
            }
        }
        j = j + 1;
    }
    let mut m: usize = 0;
    while m < store.edge_props.len()
        invariant
            0 <= m <= store.edge_props@.len(),
            forall|k: int|
                0 <= k < m ==> has_edge(store.edges@, #[trigger] store.edge_props@[k].owner_id@)
                    && is_json_text(store.edge_props@[k].value@),
        decreases store.edge_props@.len() - m,
    {
        if !check_edge_exists(store, &store.edge_props[m].owner_id) {
            return false;
        }
        if !crate::props::json_parses(store.edge_props[m].value.as_str()) {
            return false;
        }
        proof {
            assert forall|k: int|
                0 <= k < m + 1 implies has_edge(
                store.edges@,
                #[trigger] store.edge_props@[k].owner_id@,
            ) && is_json_text(store.edge_props@[k].value@) by {
                if k == m {
                    assert(has_edge(store.edges@, store.edge_props@[m as int].owner_id@));
                    assert(is_json_text(store.edge_props@[m as int].value@));
                }
            }
        }
        m = m + 1;
    }
    proof {
        assert forall|k: int| 0 <= k < store.node_props@.len() implies is_json_text(
            #[trigger] store.node_props@[k].value@,
        ) by {
            assert(has_node(store.nodes@, store.node_props@[k].owner_id@) && is_json_text(
                store.node_props@[k].value@,
            ));
        }
        assert forall|k: int| 0 <= k < store.edge_props@.len() implies is_json_text(
            #[trigger] store.edge_props@[k].value@,
        ) by {
            assert(has_edge(store.edges@, store.edge_props@[k].owner_id@) && is_json_text(
                store.edge_props@[k].value@,
            ));
        }
        assert(store.wf());
    }
    true
}

} // verus!
