//! The traversal engine: incoming and outgoing adjacency of one node.
//!
//! A directed edge is outgoing for its source and incoming for its target;
//! an undirected edge is both, for both endpoints.  Each query returns
//! edge ids in table order, and never lists an edge twice — a self-loop
//! contributes at most one row per query.

use vstd::prelude::*;

use crate::store::{edge_ids_unique, EdgeRow, GraphStore};

verus! {

/// The predicate selecting the edges leaving a node: directed edges whose
/// source it is, and undirected edges touching it.
pub open spec fn out_pred(id: Seq<char>) -> spec_fn(EdgeRow) -> bool {
    |e: EdgeRow| e.from_node@ == id || (!e.directed && e.to_node@ == id)
}

/// The predicate selecting the edges entering a node: directed edges whose
/// target it is, and undirected edges touching it.
pub open spec fn in_pred(id: Seq<char>) -> spec_fn(EdgeRow) -> bool {
    |e: EdgeRow| e.to_node@ == id || (!e.directed && e.from_node@ == id)
}

/// The function mapping an edge row to its id.
pub open spec fn edge_id_fn() -> spec_fn(EdgeRow) -> Seq<char> {
    |e: EdgeRow| e.id@
}

/// The ids of the edges leaving a node, in table order.
pub open spec fn edges_out_spec(edges: Seq<EdgeRow>, id: Seq<char>) -> Seq<Seq<char>> {
    edges.filter(out_pred(id)).map_values(edge_id_fn())
}

/// The ids of the edges entering a node, in table order.
pub open spec fn edges_in_spec(edges: Seq<EdgeRow>, id: Seq<char>) -> Seq<Seq<char>> {
    edges.filter(in_pred(id)).map_values(edge_id_fn())
}

/// An edge satisfying the predicate contributes its id to the query
/// result.
proof fn lemma_result_contains(edges: Seq<EdgeRow>, pred: spec_fn(EdgeRow) -> bool, i: int)
    requires
        0 <= i < edges.len(),
        pred(edges[i]),
    ensures
        edges.filter(pred).map_values(edge_id_fn()).contains(edges[i].id@),
{
    broadcast use vstd::seq_lib::group_seq_lib_default;

    assert(edges.filter(pred).contains(edges[i]));
    let j = choose|j: int|
        0 <= j < edges.filter(pred).len() && edges.filter(pred)[j] == edges[i];
    assert(edges.filter(pred).map_values(edge_id_fn())[j] == edges[i].id@);
}

/// When ids are unique and the one edge carrying an id fails the
/// predicate, that id is absent from the query result.
proof fn lemma_result_absent(edges: Seq<EdgeRow>, pred: spec_fn(EdgeRow) -> bool, i: int)
    requires
        edge_ids_unique(edges),
        0 <= i < edges.len(),
        !pred(edges[i]),
    ensures
        !edges.filter(pred).map_values(edge_id_fn()).contains(edges[i].id@),
{
    let result = edges.filter(pred).map_values(edge_id_fn());
    if result.contains(edges[i].id@) {
        let j = choose|j: int| 0 <= j < result.len() && result[j] == edges[i].id@;
        assert(result[j] == edge_id_fn()(edges.filter(pred)[j]));
        crate::store::lemma_filter_member(edges, pred, j);
        let k = choose|k: int| 0 <= k < edges.len() && edges[k] == edges.filter(pred)[j];
        assert(edges[k].id@ == edges[i].id@);
        if k != i {
            assert(edges[k].id@ != edges[i].id@);
        }
    }
}

/// Undirected symmetry: an undirected edge between two nodes appears in
/// the out-set and the in-set of both of them.
pub proof fn lemma_undirected_symmetry(edges: Seq<EdgeRow>, i: int)
    requires
        0 <= i < edges.len(),
        !edges[i].directed,
    ensures
        edges_out_spec(edges, edges[i].from_node@).contains(edges[i].id@),
        edges_out_spec(edges, edges[i].to_node@).contains(edges[i].id@),
        edges_in_spec(edges, edges[i].from_node@).contains(edges[i].id@),
        edges_in_spec(edges, edges[i].to_node@).contains(edges[i].id@),
{
    lemma_result_contains(edges, out_pred(edges[i].from_node@), i);
    lemma_result_contains(edges, out_pred(edges[i].to_node@), i);
    lemma_result_contains(edges, in_pred(edges[i].from_node@), i);
    lemma_result_contains(edges, in_pred(edges[i].to_node@), i);
}

/// Directed asymmetry: a directed edge between two distinct nodes is
/// outgoing for its source only and incoming for its target only.
pub proof fn lemma_directed_asymmetry(edges: Seq<EdgeRow>, i: int)
    requires
        edge_ids_unique(edges),
        0 <= i < edges.len(),
        edges[i].directed,
        edges[i].from_node@ != edges[i].to_node@,
    ensures
        edges_out_spec(edges, edges[i].from_node@).contains(edges[i].id@),
        !edges_in_spec(edges, edges[i].from_node@).contains(edges[i].id@),
        edges_in_spec(edges, edges[i].to_node@).contains(edges[i].id@),
        !edges_out_spec(edges, edges[i].to_node@).contains(edges[i].id@),
{
    lemma_result_contains(edges, out_pred(edges[i].from_node@), i);
    lemma_result_contains(edges, in_pred(edges[i].to_node@), i);
    lemma_result_absent(edges, in_pred(edges[i].from_node@), i);
    lemma_result_absent(edges, out_pred(edges[i].to_node@), i);
}

/// Filtering a table with unique ids keeps its ids unique.
proof fn lemma_filter_ids_unique(edges: Seq<EdgeRow>, pred: spec_fn(EdgeRow) -> bool)
    requires
        edge_ids_unique(edges),
    ensures
        edge_ids_unique(edges.filter(pred)),
{
    let f = edges.filter(pred);
    assert forall|i: int, j: int| 0 <= i < j < f.len() implies f[i].id@ != f[j].id@ by {
        crate::store::lemma_filter_distinct_by(edges, pred, edge_id_fn(), i, j);
    }
}

/// A traversal result never lists one edge id twice, self-loops included.
pub proof fn lemma_traversal_no_duplicates(edges: Seq<EdgeRow>, id: Seq<char>)
    requires
        edge_ids_unique(edges),
    ensures
        forall|i: int, j: int|
            0 <= i < j < edges_out_spec(edges, id).len() ==> edges_out_spec(edges, id)[i]
                != edges_out_spec(edges, id)[j],
        forall|i: int, j: int|
            0 <= i < j < edges_in_spec(edges, id).len() ==> edges_in_spec(edges, id)[i]
                != edges_in_spec(edges, id)[j],
{
    lemma_filter_ids_unique(edges, out_pred(id));
    lemma_filter_ids_unique(edges, in_pred(id));
    assert forall|i: int, j: int|
        0 <= i < j < edges_out_spec(edges, id).len() implies edges_out_spec(edges, id)[i]
        != edges_out_spec(edges, id)[j] by {
        assert(edges_out_spec(edges, id)[i] == edges.filter(out_pred(id))[i].id@);
        assert(edges_out_spec(edges, id)[j] == edges.filter(out_pred(id))[j].id@);
    }
    assert forall|i: int, j: int|
        0 <= i < j < edges_in_spec(edges, id).len() implies edges_in_spec(edges, id)[i]
        != edges_in_spec(edges, id)[j] by {
        assert(edges_in_spec(edges, id)[i] == edges.filter(in_pred(id))[i].id@);
        assert(edges_in_spec(edges, id)[j] == edges.filter(in_pred(id))[j].id@);
    }
}

/// Decide whether an edge row is outgoing for the given node.
fn is_out_edge(row: &EdgeRow, node_id: &String) -> (b: bool)
    ensures
        b == out_pred(node_id@)(*row),
{
    row.from_node == *node_id || (!row.directed && row.to_node == *node_id)
}

/// Decide whether an edge row is incoming for the given node.
fn is_in_edge(row: &EdgeRow, node_id: &String) -> (b: bool)
    ensures
        b == in_pred(node_id@)(*row),
{
    row.to_node == *node_id || (!row.directed && row.from_node == *node_id)
}

/// The ids of the edges leaving a node: directed edges it is the source
/// of, and undirected edges touching it, in table order.
pub fn get_node_edges_out(store: &GraphStore, node_id: &String) -> (r: Vec<String>)
    ensures
        r.deep_view() == edges_out_spec(store.edges@, node_id@),
{
    let mut out: Vec<String> = Vec::new();
    let mut i: usize = 0;
    while i < store.edges.len()
        invariant
            0 <= i <= store.edges@.len(),
            out.deep_view() == edges_out_spec(store.edges@.take(i as int), node_id@),
        decreases store.edges@.len() - i,
    {
        proof {
            crate::store::lemma_filter_push(
                store.edges@.take(i as int),
                store.edges@[i as int],
                out_pred(node_id@),
            );
            assert(store.edges@.take(i as int).push(store.edges@[i as int]) =~= store.edges@.take(
                i + 1,
            ));
        }
        if is_out_edge(&store.edges[i], node_id) {
            let ghost prev = out.deep_view();
            out.push(store.edges[i].id.clone());
            proof {
                assert(out.deep_view() =~= prev.push(store.edges@[i as int].id@));
                assert(edges_out_spec(store.edges@.take(i + 1), node_id@) =~= prev.push(
                    store.edges@[i as int].id@,
                ));
            }
        } else {
            proof {
                assert(edges_out_spec(store.edges@.take(i + 1), node_id@) =~= edges_out_spec(
                    store.edges@.take(i as int),
                    node_id@,
                ));
            }
        }
        i = i + 1;
    }
    proof {
        assert(store.edges@.take(store.edges@.len() as int) =~= store.edges@);
    }
    out
}

/// The ids of the edges entering a node: directed edges it is the target
/// of, and undirected edges touching it, in table order.
pub fn get_node_edges_in(store: &GraphStore, node_id: &String) -> (r: Vec<String>)
    ensures
        r.deep_view() == edges_in_spec(store.edges@, node_id@),
{
    let mut out: Vec<String> = Vec::new();
    let mut i: usize = 0;
    while i < store.edges.len()
        invariant
            0 <= i <= store.edges@.len(),
            out.deep_view() == edges_in_spec(store.edges@.take(i as int), node_id@),
        decreases store.edges@.len() - i,
    {
        proof {
            crate::store::lemma_filter_push(
                store.edges@.take(i as int),
                store.edges@[i as int],
                in_pred(node_id@),
            );
            assert(store.edges@.take(i as int).push(store.edges@[i as int]) =~= store.edges@.take(
                i + 1,
            ));
        }
        if is_in_edge(&store.edges[i], node_id) {
            let ghost prev = out.deep_view();
            out.push(store.edges[i].id.clone());
            proof {
                assert(out.deep_view() =~= prev.push(store.edges@[i as int].id@));
                assert(edges_in_spec(store.edges@.take(i + 1), node_id@) =~= prev.push(
                    store.edges@[i as int].id@,
                ));
            }
        } else {
            proof {
                assert(edges_in_spec(store.edges@.take(i + 1), node_id@) =~= edges_in_spec(
                    store.edges@.take(i as int),
                    node_id@,
                ));
            }
        }
        i = i + 1;
    }
    proof {
        assert(store.edges@.take(store.edges@.len() as int) =~= store.edges@);
    }
    out
}

} // verus!
