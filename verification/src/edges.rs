//! The edge repository: create, list, fetch, and existence checks for
//! edges.  Beyond the node repository's contract shape it enforces
//! referential integrity: both endpoints of an edge must name existing
//! nodes at creation time, checked here and not left to the caller, and a
//! missing endpoint fails the call before any row is written.

use vstd::prelude::*;

use crate::errors::{Endpoint, GraphError};
use crate::ids::new_id;
use crate::props::{
    build_prop_rows, entries_match_rows, entries_normalized, prop_row_built, props_outcome,
    read_props_entries, PropEntry,
};
use crate::store::{
    check_node_exists, edge_index_of, find_edge_index, has_edge, has_node,
    lemma_edge_index_is, lemma_has_edge_push, props_of, EdgeRow, GraphStore, PropRow,
};
use crate::time::current_timestamp;

verus! {

/// A fully materialized edge, as returned to callers.
#[derive(Debug)]
pub struct DbEdge {
    /// The edge's id.
    pub id: String,
    /// The edge's type.
    pub edge_type: String,
    /// The source node's id.
    pub from_node: String,
    /// The target node's id.
    pub to_node: String,
    /// Whether the edge is directed.
    pub directed: bool,
    /// The edge's properties as key/JSON-text pairs, when requested.
    pub props: Option<Vec<PropEntry>>,
    /// When the edge was created, as RFC 3339 text.
    pub created_at: String,
    /// When the edge was last changed, as RFC 3339 text.
    pub updated_at: String,
}

/// What a create-edge call supplies.
pub struct CreateEdgeParams {
    /// The edge's type.
    pub edge_type: String,
    /// The source node's id; must exist.
    pub from_node: String,
    /// The target node's id; must exist.
    pub to_node: String,
    /// Whether the edge is directed.
    pub directed: bool,
    /// The edge's initial properties, as raw key/value texts.
    pub props: Vec<PropEntry>,
}

/// What a get-edge call supplies.
pub struct GetEdgeParams {
    /// The id to look up.
    pub id: String,
    /// Whether to populate the edge's properties.
    pub with_props: bool,
}

/// What a list-edges call supplies.
pub struct ListEdgesParams;

/// How a returned edge mirrors a stored row.
pub open spec fn edge_from_row(
    edge: DbEdge,
    row: EdgeRow,
    prop_rows: Seq<PropRow>,
    with_props: bool,
) -> bool {
    &&& edge.id == row.id
    &&& edge.edge_type == row.edge_type
    &&& edge.from_node == row.from_node
    &&& edge.to_node == row.to_node
    &&& edge.directed == row.directed
    &&& edge.created_at == row.created_at
    &&& edge.updated_at == row.updated_at
    &&& if with_props {
        edge.props matches Some(es) && entries_match_rows(es@, props_of(prop_rows, row.id@))
    } else {
        edge.props is None
    }
}

/// What a successful edge creation does: both endpoints existed, the id is
/// fresh, the supplied properties are clean, and the new store is the old
/// one plus one edge row and its normalized property rows.  Nothing else
/// changes.
pub open spec fn create_edge_ok(
    pre: GraphStore,
    post: GraphStore,
    edge: DbEdge,
    params: CreateEdgeParams,
) -> bool {
    let id = edge.id@;
    let now = edge.created_at@;
    &&& has_node(pre.nodes@, params.from_node@)
    &&& has_node(pre.nodes@, params.to_node@)
    &&& !has_edge(pre.edges@, id)
    &&& props_outcome(params.props@) is None
    &&& edge.edge_type == params.edge_type
    &&& edge.from_node == params.from_node
    &&& edge.to_node == params.to_node
    &&& edge.directed == params.directed
    &&& edge.updated_at@ == now
    &&& edge.props matches Some(es) && entries_normalized(es@, params.props@)
    &&& post.edges@.len() == pre.edges@.len() + 1
    &&& post.edges@.drop_last() == pre.edges@
    &&& post.edges@.last().id@ == id
    &&& post.edges@.last().edge_type == params.edge_type
    &&& post.edges@.last().from_node == params.from_node
    &&& post.edges@.last().to_node == params.to_node
    &&& post.edges@.last().directed == params.directed
    &&& post.edges@.last().created_at@ == now
    &&& post.edges@.last().updated_at@ == now
    &&& post.edge_props@.len() == pre.edge_props@.len() + params.props@.len()
    &&& post.edge_props@.take(pre.edge_props@.len() as int) == pre.edge_props@
    &&& forall|k: int|
        0 <= k < params.props@.len() ==> prop_row_built(
            #[trigger] post.edge_props@[pre.edge_props@.len() + k],
            id,
            params.props@[k],
            now,
        )
    &&& post.nodes == pre.nodes
    &&& post.node_props == pre.node_props
    &&& post.version == pre.version
}

/// Create an edge under a caller-supplied id and timestamp.  This is the
/// whole creation logic; [`create_edge`] only feeds it a fresh random id
/// and the current time.  The endpoints are verified here, before any row
/// is written, so every failure is a clean no-op.
#[verifier::loop_isolation(false)]
pub fn create_edge_with_id(
    store: &mut GraphStore,
    id: &String,
    now: &String,
    params: &CreateEdgeParams,
) -> (r: Result<DbEdge, GraphError>)
    requires
        old(store).wf(),
    ensures
        final(store).wf(),
        match r {
            Ok(edge) => edge.id == *id && edge.created_at == *now && create_edge_ok(
                *old(store),
                *final(store),
                edge,
                *params,
            ),
            Err(e) => *final(store) == *old(store) && (if !has_node(
                old(store).nodes@,
                params.from_node@,
            ) {
                e == GraphError::Reference(Endpoint::From)
            } else if !has_node(old(store).nodes@, params.to_node@) {
                e == GraphError::Reference(Endpoint::To)
            } else if has_edge(old(store).edges@, id@) {
                e == GraphError::IdCollision
            } else {
                props_outcome(params.props@) == Some(e)
            }),
        },
{
    if !check_node_exists(store, &params.from_node) {
        return Err(GraphError::Reference(Endpoint::From));
    }
    if !check_node_exists(store, &params.to_node) {
        return Err(GraphError::Reference(Endpoint::To));
    }
    if crate::store::check_edge_exists(store, id) {
        return Err(GraphError::IdCollision);
    }
    let rows = match build_prop_rows(id, &params.props, now) {
        Ok(rs) => rs,
        Err(e) => {
            return Err(e);
        }
    };
    let edge_row = EdgeRow {
        id: id.clone(),
        edge_type: params.edge_type.clone(),
        from_node: params.from_node.clone(),
        to_node: params.to_node.clone(),
        directed: params.directed,
        created_at: now.clone(),
        updated_at: now.clone(),
    };
    store.edges.push(edge_row);
    let ghost edges_after = store.edges@;
    let ghost props_before = store.edge_props@;
    let mut es: Vec<PropEntry> = Vec::new();
    let mut k: usize = 0;
    while k < rows.len()
        invariant
            0 <= k <= rows@.len(),
            store.edges@ == edges_after,
            store.edge_props@ == props_before + rows@.take(k as int),
            store.nodes == old(store).nodes,
            store.node_props == old(store).node_props,
            store.version == old(store).version,
            es@.len() == k,
            forall|j: int|
                0 <= j < k ==> (#[trigger] es@[j]).key == rows@[j].key && es@[j].value
                    == rows@[j].value,
        decreases rows@.len() - k,
    {
        es.push(PropEntry { key: rows[k].key.clone(), value: rows[k].value.clone() });
        store.edge_props.push(rows[k].copy_row());
        proof {
            assert((props_before + rows@.take(k as int)).push(rows@[k as int]) =~= props_before
                + rows@.take(k + 1));
        }
        k = k + 1;
    }
    proof {
        assert(rows@.take(rows@.len() as int) =~= rows@);
        assert(store.edge_props@ == props_before + rows@);
        assert(store.edge_props@.take(props_before.len() as int) =~= props_before);
        assert(edges_after.drop_last() =~= old(store).edges@);
        // Uniqueness of edge ids: the new row's id was not present before.
        assert forall|i: int, j: int|
            0 <= i < j < store.edges@.len() implies store.edges@[i].id@ != store.edges@[j].id@ by {
            if j == store.edges@.len() - 1 {
                assert(!has_edge(old(store).edges@, id@));
                assert(store.edges@[i] == old(store).edges@[i]);
                if store.edges@[i].id@ == id@ {
                    assert(has_edge(old(store).edges@, id@));
                }
            }
        }
        // No old edge property row is owned by the fresh id.
        assert forall|i: int|
            0 <= i < props_before.len() implies (#[trigger] props_before[i]).owner_id@ != id@ by {
            if props_before[i].owner_id@ == id@ {
                assert(has_edge(old(store).edges@, id@));
            }
        }
        // The new row's endpoints exist; the old rows' endpoints still do.
        assert forall|i: int| 0 <= i < store.edges@.len() implies has_node(
            store.nodes@,
            #[trigger] store.edges@[i].from_node@,
        ) && has_node(store.nodes@, store.edges@[i].to_node@) by {
            if i < store.edges@.len() - 1 {
                assert(store.edges@[i] == old(store).edges@[i]);
            }
        }
        // Old and new edge property owners resolve in the grown edge table.
        assert forall|i: int| 0 <= i < store.edge_props@.len() implies has_edge(
            store.edges@,
            #[trigger] store.edge_props@[i].owner_id@,
        ) by {
            lemma_has_edge_push(
                old(store).edges@,
                edges_after.last(),
                store.edge_props@[i].owner_id@,
            );
            assert(old(store).edges@.push(edges_after.last()) =~= edges_after);
            if i < props_before.len() {
                assert(store.edge_props@[i] == props_before[i]);
            } else {
                assert(store.edge_props@[i] == rows@[i - props_before.len()]);
                assert(prop_row_built(
                    rows@[i - props_before.len()],
                    id@,
                    params.props@[i - props_before.len()],
                    now@,
                ));
            }
        }
        assert(store.wf());
    }
    let edge = DbEdge {
        id: id.clone(),
        edge_type: params.edge_type.clone(),
        from_node: params.from_node.clone(),
        to_node: params.to_node.clone(),
        directed: params.directed,
        props: Some(es),
        created_at: now.clone(),
        updated_at: now.clone(),
    };
    proof {
        assert(entries_normalized(es@, params.props@));
        assert(create_edge_ok(*old(store), *store, edge, *params));
    }
    Ok(edge)
}

/// Create an edge: verify both endpoints, generate an id and a timestamp,
/// then, atomically, insert the edge row and all its property rows.  A
/// missing endpoint fails with a reference error naming it, before any row
/// is written; any later failure also leaves no trace in the store.
pub fn create_edge(store: &mut GraphStore, params: &CreateEdgeParams) -> (r: Result<
    DbEdge,
    GraphError,
>)
    requires
        old(store).wf(),
    ensures
        final(store).wf(),
        match r {
            Ok(edge) => {
                &&& create_edge_ok(*old(store), *final(store), edge, *params)
                &&& edge.id@.len() == 38
                &&& edge.id@[0] == 'e'
                &&& edge.id@[1] == '-'
            },
            Err(e) => *final(store) == *old(store) && (if !has_node(
                old(store).nodes@,
                params.from_node@,
            ) {
                e == GraphError::Reference(Endpoint::From)
            } else if !has_node(old(store).nodes@, params.to_node@) {
                e == GraphError::Reference(Endpoint::To)
            } else {
                e == GraphError::IdCollision || props_outcome(params.props@) == Some(e)
            }),
        },
        !has_node(old(store).nodes@, params.from_node@) || !has_node(
            old(store).nodes@,
            params.to_node@,
        ) || props_outcome(params.props@) is Some ==> r is Err,
{
    let id = new_id("e");
    proof {
        reveal_strlit("e");
        assert(id@[0] == id@.subrange(0, 1)[0]);
    }
    let now = current_timestamp();
    create_edge_with_id(store, &id, &now, params)
}

/// Read all properties of one edge as key/JSON-text pairs, in table order.
pub fn get_edge_props(store: &GraphStore, edge_id: &String) -> (r: Vec<PropEntry>)
    ensures
        entries_match_rows(r@, props_of(store.edge_props@, edge_id@)),
{
    read_props_entries(&store.edge_props, edge_id)
}

/// Fetch one edge by id; properties are populated only when requested.
/// Fails with `NotFound` exactly when no row matches.
pub fn get_edge(store: &GraphStore, params: &GetEdgeParams) -> (r: Result<DbEdge, GraphError>)
    requires
        store.wf(),
    ensures
        match r {
            Ok(edge) => has_edge(store.edges@, params.id@) && edge_from_row(
                edge,
                store.edges@[edge_index_of(store.edges@, params.id@)],
                store.edge_props@,
                params.with_props,
            ),
            Err(e) => e == GraphError::NotFound && !has_edge(store.edges@, params.id@),
        },
{
    match find_edge_index(&store.edges, &params.id) {
        None => Err(GraphError::NotFound),
        Some(i) => {
            proof {
                lemma_edge_index_is(store.edges@, params.id@, i as int);
            }
            let props = if params.with_props {
                Some(get_edge_props(store, &params.id))
            } else {
                None
            };
            let row = &store.edges[i];
            Ok(
                DbEdge {
                    id: row.id.clone(),
                    edge_type: row.edge_type.clone(),
                    from_node: row.from_node.clone(),
                    to_node: row.to_node.clone(),
                    directed: row.directed,
                    props,
                    created_at: row.created_at.clone(),
                    updated_at: row.updated_at.clone(),
                },
            )
        }
    }
}

/// What an update-edge call supplies.
pub struct UpdateEdgeParams {
    /// The edge's id.
    pub id: String,
    /// A new edge type, if any.
    pub edge_type: Option<String>,
    /// A new source node id, if any; re-validated against the node table.
    pub from_node: Option<String>,
    /// A new target node id, if any; re-validated against the node table.
    pub to_node: Option<String>,
    /// Mark the edge directed.
    pub set_directed: bool,
    /// Mark the edge undirected.
    pub set_undirected: bool,
    /// Properties to set, as raw key/value texts.
    pub set_props: Vec<PropEntry>,
    /// Property keys to remove; removing an absent key is a no-op.
    pub remove_props: Vec<String>,
}

/// Whether an update request changes the edge: any field is explicitly
/// set, some property is set, or some removed key was present.  Only then
/// is the edge's update timestamp refreshed.
pub open spec fn update_edge_effective(pre: GraphStore, params: UpdateEdgeParams) -> bool {
    ||| params.edge_type is Some
    ||| params.from_node is Some
    ||| params.to_node is Some
    ||| params.set_directed
    ||| params.set_undirected
    ||| params.set_props@.len() > 0
    ||| exists|k: int|
        0 <= k < params.remove_props@.len() && crate::store::has_prop(
            pre.edge_props@,
            params.id@,
            crate::props::norm_key_spec(params.remove_props@[k]@),
        )
}

/// Update one edge: change its type, either endpoint (re-validated
/// against the node table), and the directed flag, and set and remove
/// properties under the same normalization, duplicate-key and atomicity
/// rules as creation; property sets are applied before removals, and the
/// update timestamp is refreshed exactly when something was requested or
/// removed.  Returns the updated edge with its properties populated.
/// Fails with `NotFound` when the id matches nothing, with `Validation`
/// when both direction flags are given, with a reference error naming the
/// first missing new endpoint, or with the property verdict's error;
/// every failure leaves the store untouched.
#[verifier::loop_isolation(false)]
#[verifier::rlimit(30)]
pub fn update_edge(store: &mut GraphStore, params: &UpdateEdgeParams) -> (r: Result<
    DbEdge,
    GraphError,
>)
    requires
        old(store).wf(),
    ensures
        final(store).wf(),
        match r {
            Ok(edge) => {
                let id = params.id@;
                let idx = edge_index_of(old(store).edges@, id);
                let old_row = old(store).edges@[idx];
                let now = final(store).edges@[idx].updated_at@;
                &&& has_edge(old(store).edges@, id)
                &&& !(params.set_directed && params.set_undirected)
                &&& (params.from_node matches Some(f) ==> has_node(old(store).nodes@, f@))
                &&& (params.to_node matches Some(t) ==> has_node(old(store).nodes@, t@))
                &&& props_outcome(params.set_props@) is None
                &&& final(store).edges@.len() == old(store).edges@.len()
                &&& (forall|j: int|
                    0 <= j < old(store).edges@.len() && j != idx ==> final(store).edges@[j] == old(store).edges@[j])
                &&& final(store).edges@[idx].id == old_row.id
                &&& final(store).edges@[idx].created_at == old_row.created_at
                &&& final(store).edges@[idx].edge_type@ == (match params.edge_type {
                    Some(t) => t@,
                    None => old_row.edge_type@,
                })
                &&& final(store).edges@[idx].from_node@ == (match params.from_node {
                    Some(f) => f@,
                    None => old_row.from_node@,
                })
                &&& final(store).edges@[idx].to_node@ == (match params.to_node {
                    Some(t) => t@,
                    None => old_row.to_node@,
                })
                &&& final(store).edges@[idx].directed == (if params.set_directed {
                    true
                } else if params.set_undirected {
                    false
                } else {
                    old_row.directed
                })
                &&& (!update_edge_effective(*old(store), *params) ==> *final(store) == *old(store))
                &&& final(store).edge_props@.filter(crate::store::not_owned_by(id)) == old(store).edge_props@.filter(crate::store::not_owned_by(id))
                &&& (forall|k: int|
                    0 <= k < params.set_props@.len() && !crate::props::removes_mention(
                        params.remove_props@,
                        crate::props::norm_key_spec(#[trigger] params.set_props@[k].key@),
                    ) ==> crate::props::set_applied(
                        old(store).edge_props@,
                        final(store).edge_props@,
                        id,
                        params.set_props@[k],
                        now,
                    ))
                &&& (forall|k: int|
                    0 <= k < params.remove_props@.len() ==> !crate::store::has_prop(
                        final(store).edge_props@,
                        id,
                        crate::props::norm_key_spec(#[trigger] params.remove_props@[k]@),
                    ))
                &&& (forall|j: int|
                    0 <= j < old(store).edge_props@.len() && (#[trigger] old(store).edge_props@[j]).owner_id@ == id && !crate::props::sets_mention(
                        params.set_props@,
                        old(store).edge_props@[j].key@,
                    ) && !crate::props::removes_mention(
                        params.remove_props@,
                        old(store).edge_props@[j].key@,
                    ) ==> crate::store::has_prop(
                        final(store).edge_props@,
                        id,
                        old(store).edge_props@[j].key@,
                    ) && crate::store::prop_at(
                        final(store).edge_props@,
                        id,
                        old(store).edge_props@[j].key@,
                    ) == old(store).edge_props@[j])
                &&& (forall|j: int|
                    0 <= j < final(store).edge_props@.len() && (#[trigger] final(store).edge_props@[j]).owner_id@ == id ==> crate::store::has_prop(
                        old(store).edge_props@,
                        id,
                        final(store).edge_props@[j].key@,
                    ) || crate::props::sets_mention(
                        params.set_props@,
                        final(store).edge_props@[j].key@,
                    ))
                &&& final(store).nodes == old(store).nodes
                &&& final(store).node_props == old(store).node_props
                &&& final(store).version == old(store).version
                &&& edge_from_row(
                    edge,
                    final(store).edges@[idx],
                    final(store).edge_props@,
                    true,
                )
            },
            Err(e) => {
                &&& *final(store) == *old(store)
                &&& (if !has_edge(old(store).edges@, params.id@) {
                    e == GraphError::NotFound
                } else if params.set_directed && params.set_undirected {
                    e == GraphError::Validation
                } else if params.from_node matches Some(f) && !has_node(old(store).nodes@, f@) {
                    e == GraphError::Reference(Endpoint::From)
                } else if params.to_node matches Some(t) && !has_node(old(store).nodes@, t@) {
                    e == GraphError::Reference(Endpoint::To)
                } else {
                    props_outcome(params.set_props@) == Some(e)
                })
            },
        },
{
    let i = match find_edge_index(&store.edges, &params.id) {
        None => {
            return Err(GraphError::NotFound);
        }
        Some(i) => i,
    };
    proof {
        lemma_edge_index_is(store.edges@, params.id@, i as int);
    }
    if params.set_directed && params.set_undirected {
        return Err(GraphError::Validation);
    }
    match &params.from_node {
        Some(f) => {
            if !check_node_exists(store, f) {
                return Err(GraphError::Reference(Endpoint::From));
            }
        }
        None => {}
    }
    match &params.to_node {
        Some(t) => {
            if !check_node_exists(store, t) {
                return Err(GraphError::Reference(Endpoint::To));
            }
        }
        None => {}
    }
    let now = current_timestamp();
    let rows_norm = match build_prop_rows(&params.id, &params.set_props, &now) {
        Ok(rs) => rs,
        Err(e) => {
            proof {
                crate::props::lemma_props_outcome_kind(params.set_props@);
            }
            return Err(e);
        }
    };
    // Normalize the removal keys.
    let mut rem_keys: Vec<String> = Vec::new();
    let mut u: usize = 0;
    while u < params.remove_props.len()
        invariant
            0 <= u <= params.remove_props@.len(),
            rem_keys@.len() == u,
            forall|j: int|
                0 <= j < u ==> (#[trigger] rem_keys@[j])@ == crate::props::norm_key_spec(
                    params.remove_props@[j]@,
                ),
        decreases params.remove_props@.len() - u,
    {
        rem_keys.push(crate::text::trim_text(params.remove_props[u].as_str()));
        u = u + 1;
    }
    // Does any removal hit an existing row?
    let mut any_removed = false;
    u = 0;
    while u < rem_keys.len()
        invariant
            0 <= u <= rem_keys@.len(),
            any_removed == exists|j: int|
                0 <= j < u && crate::store::has_prop(
                    store.edge_props@,
                    params.id@,
                    (#[trigger] rem_keys@[j])@,
                ),
        decreases rem_keys@.len() - u,
    {
        match crate::store::find_prop_index(&store.edge_props, &params.id, &rem_keys[u]) {
            Some(ix) => {
                proof {
                    assert(crate::store::has_prop(store.edge_props@, params.id@, rem_keys@[
                        u as int
                    ]@));
                }
                any_removed = true;
            }
            None => {}
        }
        u = u + 1;
    }
    let effective = params.edge_type.is_some() || params.from_node.is_some()
        || params.to_node.is_some() || params.set_directed || params.set_undirected
        || params.set_props.len() > 0 || any_removed;
    proof {
        if any_removed {
            let j = choose|j: int|
                0 <= j < rem_keys@.len() && crate::store::has_prop(
                    store.edge_props@,
                    params.id@,
                    rem_keys@[j]@,
                );
            assert(crate::store::has_prop(
                old(store).edge_props@,
                params.id@,
                crate::props::norm_key_spec(params.remove_props@[j]@),
            ));
        }
        if exists|k: int|
            0 <= k < params.remove_props@.len() && crate::store::has_prop(
                old(store).edge_props@,
                params.id@,
                crate::props::norm_key_spec((#[trigger] params.remove_props@[k])@),
            ) {
            let k = choose|k: int|
                0 <= k < params.remove_props@.len() && crate::store::has_prop(
                    old(store).edge_props@,
                    params.id@,
                    crate::props::norm_key_spec(params.remove_props@[k]@),
                );
            assert(crate::store::has_prop(store.edge_props@, params.id@, rem_keys@[k]@));
            assert(any_removed);
        }
        assert(effective == update_edge_effective(*old(store), *params));
    }
    // Apply the property sets, in order.
    let ghost o_props = store.edge_props@;
    let ghost id_v = params.id@;
    let ghost sets = params.set_props@;
    let mut t: usize = 0;
    while t < rows_norm.len()
        invariant
            0 <= t <= rows_norm@.len(),
            crate::store::prop_pairs_unique(store.edge_props@),
            store.edge_props@.filter(crate::store::not_owned_by(id_v)) == o_props.filter(
                crate::store::not_owned_by(id_v),
            ),
            store.edge_props@.len() >= o_props.len(),
            forall|j: int|
                0 <= j < o_props.len() ==> (#[trigger] store.edge_props@[j]).owner_id
                    == o_props[j].owner_id && store.edge_props@[j].key == o_props[j].key,
            forall|j: int|
                0 <= j < o_props.len() && !(o_props[j].owner_id@ == id_v
                    && crate::props::sets_mention(sets.take(t as int), o_props[j].key@)) ==> (
                #[trigger] store.edge_props@[j]) == o_props[j],
            forall|j: int|
                o_props.len() <= j < store.edge_props@.len() ==> (
                #[trigger] store.edge_props@[j]).owner_id@ == id_v && crate::props::sets_mention(
                    sets.take(t as int),
                    store.edge_props@[j].key@,
                ),
            forall|k: int|
                0 <= k < t ==> crate::props::set_applied(
                    o_props,
                    store.edge_props@,
                    id_v,
                    #[trigger] sets[k],
                    now@,
                ),
            forall|j: int|
                0 <= j < store.edge_props@.len() ==> has_edge(
                    store.edges@,
                    (#[trigger] store.edge_props@[j]).owner_id@,
                ) && crate::props::is_json_text(store.edge_props@[j].value@),
            sets.len() == 0 ==> store.edge_props == old(store).edge_props,
            store.nodes == old(store).nodes,
            store.edges == old(store).edges,
            store.node_props == old(store).node_props,
            store.version == old(store).version,
        decreases rows_norm@.len() - t,
    {
        let ghost pre = store.edge_props@;
        proof {
            assert(prop_row_built(rows_norm@[t as int], id_v, sets[t as int], now@));
        }
        let existed = crate::props::upsert_prop_row(
            &mut store.edge_props,
            &params.id,
            &rows_norm[t].key,
            &rows_norm[t].value,
            &now,
        );
        proof {
            let kk = crate::props::norm_key_spec(sets[t as int].key@);
            assert forall|k: int| 0 <= k < t implies crate::props::norm_key_spec(
                #[trigger] sets[k].key@,
            ) != kk by {
                assert(rows_norm@[k].key@ == crate::props::norm_key_spec(sets[k].key@));
            }
            assert(!crate::props::sets_mention(sets.take(t as int), kk));
            if existed {
                let pidx = crate::store::prop_index_of(pre, id_v, kk);
                assert(0 <= pidx < pre.len() && pre[pidx].owner_id@ == id_v && pre[pidx].key@
                    == kk);
                assert(pidx < o_props.len());
                assert(pre[pidx] == o_props[pidx]);
                crate::store::lemma_prop_index_is(o_props, id_v, kk, pidx);
                crate::store::lemma_prop_index_is(store.edge_props@, id_v, kk, pidx);
                assert(store.edge_props@ =~= pre.update(pidx, store.edge_props@[pidx]));
                crate::store::lemma_filter_update_failing(
                    pre,
                    crate::store::not_owned_by(id_v),
                    pidx,
                    store.edge_props@[pidx],
                );
                assert(crate::props::set_applied(
                    o_props,
                    store.edge_props@,
                    id_v,
                    sets[t as int],
                    now@,
                ));
                assert forall|k: int| 0 <= k < t implies crate::props::set_applied(
                    o_props,
                    store.edge_props@,
                    id_v,
                    #[trigger] sets[k],
                    now@,
                ) by {
                    let kk2 = crate::props::norm_key_spec(sets[k].key@);
                    let jk = crate::store::prop_index_of(pre, id_v, kk2);
                    assert(crate::store::has_prop(pre, id_v, kk2));
                    assert(0 <= jk < pre.len() && pre[jk].owner_id@ == id_v && pre[jk].key@
                        == kk2);
                    assert(jk != pidx);
                    crate::store::lemma_prop_index_is(store.edge_props@, id_v, kk2, jk);
                }
            } else {
                assert(store.edge_props@ =~= pre.push(store.edge_props@.last()));
                crate::store::lemma_filter_push(
                    pre,
                    store.edge_props@.last(),
                    crate::store::not_owned_by(id_v),
                );
                if crate::store::has_prop(o_props, id_v, kk) {
                    let w = crate::store::prop_index_of(o_props, id_v, kk);
                    assert(pre[w].owner_id@ == id_v && pre[w].key@ == kk);
                    assert(crate::store::has_prop(pre, id_v, kk));
                }
                crate::store::lemma_prop_index_is(
                    store.edge_props@,
                    id_v,
                    kk,
                    store.edge_props@.len() - 1,
                );
                assert(crate::props::set_applied(
                    o_props,
                    store.edge_props@,
                    id_v,
                    sets[t as int],
                    now@,
                ));
                assert forall|k: int| 0 <= k < t implies crate::props::set_applied(
                    o_props,
                    store.edge_props@,
                    id_v,
                    #[trigger] sets[k],
                    now@,
                ) by {
                    let kk2 = crate::props::norm_key_spec(sets[k].key@);
                    let jk = crate::store::prop_index_of(pre, id_v, kk2);
                    assert(crate::store::has_prop(pre, id_v, kk2));
                    assert(0 <= jk < pre.len() && pre[jk].owner_id@ == id_v && pre[jk].key@
                        == kk2);
                    crate::store::lemma_prop_index_is(store.edge_props@, id_v, kk2, jk);
                }
            }
            assert forall|k: int| 0 <= k < t + 1 implies crate::props::sets_mention(
                sets.take(t + 1),
                crate::props::norm_key_spec((#[trigger] sets[k]).key@),
            ) by {
                assert(sets.take(t + 1)[k] == sets[k]);
            }
        }
        t = t + 1;
    }
    // Apply the property removals, in order.
    let ghost p_props = store.edge_props@;
    u = 0;
    while u < rem_keys.len()
        invariant
            0 <= u <= rem_keys@.len(),
            crate::store::prop_pairs_unique(store.edge_props@),
            store.edge_props@.filter(crate::store::not_owned_by(id_v)) == o_props.filter(
                crate::store::not_owned_by(id_v),
            ),
            forall|j: int|
                0 <= j < store.edge_props@.len() ==> p_props.contains(
                    #[trigger] store.edge_props@[j],
                ),
            forall|j: int|
                0 <= j < p_props.len() && !((#[trigger] p_props[j]).owner_id@ == id_v && (
                exists|k: int| 0 <= k < u && (#[trigger] rem_keys@[k])@ == p_props[j].key@))
                    ==> store.edge_props@.contains(p_props[j]),
            forall|k: int|
                0 <= k < u ==> !crate::store::has_prop(
                    store.edge_props@,
                    id_v,
                    (#[trigger] rem_keys@[k])@,
                ),
            forall|j: int|
                0 <= j < store.edge_props@.len() ==> has_edge(
                    store.edges@,
                    (#[trigger] store.edge_props@[j]).owner_id@,
                ) && crate::props::is_json_text(store.edge_props@[j].value@),
            sets.len() == 0 && !any_removed ==> store.edge_props == old(store).edge_props,
            store.nodes == old(store).nodes,
            store.edges == old(store).edges,
            store.node_props == old(store).node_props,
            store.version == old(store).version,
        decreases rem_keys@.len() - u,
    {
        let ghost pre = store.edge_props@;
        let existed = crate::props::remove_prop_row(&mut store.edge_props, &params.id, &rem_keys[u]);
        proof {
            let rk = rem_keys@[u as int]@;
            if existed {
                let ix = crate::store::prop_index_of(pre, id_v, rk);
                assert(0 <= ix < pre.len() && pre[ix].owner_id@ == id_v && pre[ix].key@ == rk);
                pre.remove_ensures(ix);
                crate::store::lemma_filter_remove_failing(
                    pre,
                    crate::store::not_owned_by(id_v),
                    ix,
                );
                assert forall|j: int| 0 <= j < store.edge_props@.len() implies pre.contains(
                    #[trigger] store.edge_props@[j],
                ) by {
                    let j0: int = if j < ix { j } else { j + 1 };
                    assert(store.edge_props@[j] == pre[j0]);
                }
                assert forall|j: int|
                    0 <= j < p_props.len() && !((#[trigger] p_props[j]).owner_id@ == id_v && (
                    exists|k: int| 0 <= k < u + 1 && (#[trigger] rem_keys@[k])@ == p_props[j].key@))
                    implies store.edge_props@.contains(p_props[j]) by {
                    let j2 = choose|j2: int| 0 <= j2 < pre.len() && pre[j2] == p_props[j];
                    assert(j2 != ix);
                    let j3: int = if j2 < ix { j2 } else { j2 - 1 };
                    assert(store.edge_props@[j3] == pre[j2]);
                }
                assert forall|k: int| 0 <= k < u + 1 implies !crate::store::has_prop(
                    store.edge_props@,
                    id_v,
                    (#[trigger] rem_keys@[k])@,
                ) by {
                    if crate::store::has_prop(store.edge_props@, id_v, rem_keys@[k]@) {
                        let w = choose|w: int|
                            0 <= w < store.edge_props@.len() && store.edge_props@[w].owner_id@
                                == id_v && store.edge_props@[w].key@ == rem_keys@[k]@;
                        let w0: int = if w < ix { w } else { w + 1 };
                        assert(pre[w0] == store.edge_props@[w]);
                        if k < u {
                            assert(crate::store::has_prop(pre, id_v, rem_keys@[k]@));
                        } else {
                            assert(w0 != ix);
                            assert(!(pre[w0].owner_id@ == pre[ix].owner_id@ && pre[w0].key@
                                == pre[ix].key@));
                        }
                    }
                }
            }
        }
        u = u + 1;
    }
    // Refresh the edge row when the update was effective.
    if effective {
        let row = store.edges.remove(i);
        let new_type = match &params.edge_type {
            Some(t) => t.clone(),
            None => row.edge_type,
        };
        let new_from = match &params.from_node {
            Some(f) => f.clone(),
            None => row.from_node,
        };
        let new_to = match &params.to_node {
            Some(t) => t.clone(),
            None => row.to_node,
        };
        let new_directed = if params.set_directed {
            true
        } else if params.set_undirected {
            false
        } else {
            row.directed
        };
        let updated = EdgeRow {
            id: row.id,
            edge_type: new_type,
            from_node: new_from,
            to_node: new_to,
            directed: new_directed,
            created_at: row.created_at,
            updated_at: now.clone(),
        };
        store.edges.insert(i, updated);
        proof {
            assert(store.edges@ =~= old(store).edges@.update(i as int, store.edges@[i as int]));
        }
    }
    proof {
        assert forall|j: int| 0 <= j < store.edges@.len() implies (#[trigger] store.edges@[j]).id@
            == old(store).edges@[j].id@ by {}
        crate::store::lemma_has_edge_same_ids(old(store).edges@, store.edges@);
        assert forall|a: int, b: int|
            0 <= a < b < store.edges@.len() implies store.edges@[a].id@ != store.edges@[b].id@ by {
            assert(store.edges@[a].id@ == old(store).edges@[a].id@);
            assert(store.edges@[b].id@ == old(store).edges@[b].id@);
        }
        // Edge endpoints all resolve: unchanged rows by the old invariant,
        // the updated row by the checks above.
        assert forall|j: int| 0 <= j < store.edges@.len() implies has_node(
            store.nodes@,
            (#[trigger] store.edges@[j]).from_node@,
        ) && has_node(store.nodes@, store.edges@[j].to_node@) by {
            assert(store.nodes == old(store).nodes);
            if j != i {
                assert(store.edges@[j] == old(store).edges@[j]);
                assert(has_node(old(store).nodes@, old(store).edges@[j].from_node@));
                assert(has_node(old(store).nodes@, old(store).edges@[j].to_node@));
            } else {
                assert(has_node(old(store).nodes@, old(store).edges@[j].from_node@));
                assert(has_node(old(store).nodes@, old(store).edges@[j].to_node@));
                match params.from_node {
                    Some(f) => {
                        assert(store.edges@[j].from_node@ == f@);
                        assert(has_node(old(store).nodes@, f@));
                    }
                    None => {
                        assert(store.edges@[j].from_node@ == old(store).edges@[j].from_node@);
                        assert(has_node(old(store).nodes@, old(store).edges@[j].from_node@));
                    }
                }
                match params.to_node {
                    Some(tn) => {
                        assert(store.edges@[j].to_node@ == tn@);
                        assert(has_node(old(store).nodes@, tn@));
                    }
                    None => {
                        assert(store.edges@[j].to_node@ == old(store).edges@[j].to_node@);
                        assert(has_node(old(store).nodes@, old(store).edges@[j].to_node@));
                    }
                }
            }
            assert(has_node(store.nodes@, store.edges@[j].from_node@));
            assert(has_node(store.nodes@, store.edges@[j].to_node@));
        }
        // Set entries not later removed are applied in the final table.
        assert forall|k: int|
            0 <= k < sets.len() && !crate::props::removes_mention(
                params.remove_props@,
                crate::props::norm_key_spec(#[trigger] sets[k].key@),
            ) implies crate::props::set_applied(
            o_props,
            store.edge_props@,
            id_v,
            sets[k],
            now@,
        ) by {
            let kk = crate::props::norm_key_spec(sets[k].key@);
            assert(sets.take(sets.len() as int) =~= sets);
            assert(crate::props::set_applied(o_props, p_props, id_v, sets[k], now@));
            let jk = crate::store::prop_index_of(p_props, id_v, kk);
            assert(0 <= jk < p_props.len() && p_props[jk].owner_id@ == id_v && p_props[jk].key@
                == kk);
            assert forall|m: int| 0 <= m < rem_keys@.len() implies (#[trigger] rem_keys@[m])@
                != kk by {
                if rem_keys@[m]@ == kk {
                    assert(crate::props::removes_mention(params.remove_props@, kk));
                }
            }
            assert(store.edge_props@.contains(p_props[jk]));
            let j2 = choose|j2: int|
                0 <= j2 < store.edge_props@.len() && store.edge_props@[j2] == p_props[jk];
            crate::store::lemma_prop_index_is(store.edge_props@, id_v, kk, j2);
        }
        // Every removal key is absent, stated over the raw removal list.
        assert forall|k: int| 0 <= k < params.remove_props@.len() implies !crate::store::has_prop(
            store.edge_props@,
            id_v,
            crate::props::norm_key_spec((#[trigger] params.remove_props@[k])@),
        ) by {
            assert(rem_keys@[k]@ == crate::props::norm_key_spec(params.remove_props@[k]@));
            assert(!crate::store::has_prop(store.edge_props@, id_v, rem_keys@[k]@));
        }
        // Untouched old rows survive unchanged.
        assert forall|j: int|
            0 <= j < o_props.len() && (#[trigger] o_props[j]).owner_id@ == id_v
                && !crate::props::sets_mention(sets, o_props[j].key@)
                && !crate::props::removes_mention(params.remove_props@, o_props[j].key@) implies {
            &&& crate::store::has_prop(store.edge_props@, id_v, o_props[j].key@)
            &&& crate::store::prop_at(store.edge_props@, id_v, o_props[j].key@) == o_props[j]
        } by {
            assert(sets.take(sets.len() as int) =~= sets);
            assert(p_props[j] == o_props[j]);
            assert forall|m: int| 0 <= m < rem_keys@.len() implies (#[trigger] rem_keys@[m])@
                != o_props[j].key@ by {
                if rem_keys@[m]@ == o_props[j].key@ {
                    assert(crate::props::removes_mention(params.remove_props@, o_props[j].key@));
                }
            }
            assert(store.edge_props@.contains(p_props[j]));
            let j2 = choose|j2: int|
                0 <= j2 < store.edge_props@.len() && store.edge_props@[j2] == p_props[j];
            crate::store::lemma_prop_index_is(store.edge_props@, id_v, o_props[j].key@, j2);
        }
        // No invented keys.
        assert forall|j: int|
            0 <= j < store.edge_props@.len() && (#[trigger] store.edge_props@[j]).owner_id@
                == id_v implies crate::store::has_prop(o_props, id_v, store.edge_props@[j].key@)
            || crate::props::sets_mention(sets, store.edge_props@[j].key@) by {
            assert(p_props.contains(store.edge_props@[j]));
            let j2 = choose|j2: int| 0 <= j2 < p_props.len() && p_props[j2] == store.edge_props@[j];
            assert(sets.take(sets.len() as int) =~= sets);
            if j2 < o_props.len() {
                assert(p_props[j2].owner_id == o_props[j2].owner_id && p_props[j2].key
                    == o_props[j2].key);
                assert(crate::store::has_prop(o_props, id_v, store.edge_props@[j].key@));
            }
        }
        assert(store.wf());
    }
    let row2 = &store.edges[i];
    let es = get_edge_props(store, &params.id);
    Ok(
        DbEdge {
            id: row2.id.clone(),
            edge_type: row2.edge_type.clone(),
            from_node: row2.from_node.clone(),
            to_node: row2.to_node.clone(),
            directed: row2.directed,
            props: Some(es),
            created_at: row2.created_at.clone(),
            updated_at: row2.updated_at.clone(),
        },
    )
}

/// Set one property on an edge: the key is normalized and must not be
/// empty, the value is normalized, and an existing row under the key is
/// overwritten in place (keeping its creation timestamp) while a new key
/// appends a row.  The edge's update timestamp is refreshed.  Fails with
/// `NotFound` exactly when the edge id matches nothing, with `Validation`
/// exactly when the edge exists but the normalized key is empty; every
/// failure leaves the store untouched.
#[verifier::rlimit(30)]
pub fn set_edge_prop(store: &mut GraphStore, edge_id: &String, key: &String, value: &String) -> (r:
    Result<(), GraphError>)
    requires
        old(store).wf(),
    ensures
        final(store).wf(),
        match r {
            Ok(_) => {
                let kk = crate::props::norm_key_spec(key@);
                let vv = crate::props::norm_value_spec(value@);
                let idx = edge_index_of(old(store).edges@, edge_id@);
                let now = final(store).edges@[idx].updated_at@;
                &&& has_edge(old(store).edges@, edge_id@)
                &&& kk.len() > 0
                &&& final(store).edges@.len() == old(store).edges@.len()
                &&& (forall|j: int|
                    0 <= j < old(store).edges@.len() && j != idx ==> final(store).edges@[j] == old(store).edges@[j])
                &&& final(store).edges@[idx].id == old(store).edges@[idx].id
                &&& final(store).edges@[idx].edge_type == old(store).edges@[idx].edge_type
                &&& final(store).edges@[idx].from_node == old(store).edges@[idx].from_node
                &&& final(store).edges@[idx].to_node == old(store).edges@[idx].to_node
                &&& final(store).edges@[idx].directed == old(store).edges@[idx].directed
                &&& final(store).edges@[idx].created_at == old(store).edges@[idx].created_at
                &&& crate::store::has_prop(final(store).edge_props@, edge_id@, kk)
                &&& crate::store::prop_at(final(store).edge_props@, edge_id@, kk).value@ == vv
                &&& crate::store::prop_at(final(store).edge_props@, edge_id@, kk).updated_at@ == now
                &&& (crate::store::has_prop(old(store).edge_props@, edge_id@, kk) ==> {
                    let pidx = crate::store::prop_index_of(old(store).edge_props@, edge_id@, kk);
                    &&& final(store).edge_props@.len() == old(store).edge_props@.len()
                    &&& (forall|j: int|
                        0 <= j < old(store).edge_props@.len() && j != pidx ==> final(store).edge_props@[j] == old(store).edge_props@[j])
                    &&& final(store).edge_props@[pidx].created_at == old(store).edge_props@[pidx].created_at
                })
                &&& (!crate::store::has_prop(old(store).edge_props@, edge_id@, kk) ==> {
                    &&& final(store).edge_props@.len() == old(store).edge_props@.len() + 1
                    &&& final(store).edge_props@.drop_last() == old(store).edge_props@
                    &&& final(store).edge_props@.last().created_at@ == now
                })
                &&& final(store).nodes == old(store).nodes
                &&& final(store).node_props == old(store).node_props
                &&& final(store).version == old(store).version
            },
            Err(e) => {
                &&& *final(store) == *old(store)
                &&& (e == GraphError::NotFound <==> !has_edge(old(store).edges@, edge_id@))
                &&& (e == GraphError::Validation <==> has_edge(old(store).edges@, edge_id@)
                    && crate::props::norm_key_spec(key@).len() == 0)
            },
        },
{
    let i = match find_edge_index(&store.edges, edge_id) {
        None => {
            return Err(GraphError::NotFound);
        }
        Some(i) => i,
    };
    proof {
        lemma_edge_index_is(store.edges@, edge_id@, i as int);
    }
    let kk = crate::text::trim_text(key.as_str());
    if kk.unicode_len() == 0 {
        return Err(GraphError::Validation);
    }
    let vv = crate::props::normalize_value(value.as_str());
    let now = current_timestamp();
    let existed = crate::props::upsert_prop_row(&mut store.edge_props, edge_id, &kk, &vv, &now);
    let row = store.edges.remove(i);
    let updated = EdgeRow {
        id: row.id,
        edge_type: row.edge_type,
        from_node: row.from_node,
        to_node: row.to_node,
        directed: row.directed,
        created_at: row.created_at,
        updated_at: now.clone(),
    };
    store.edges.insert(i, updated);
    proof {
        assert(store.edges@ =~= old(store).edges@.update(i as int, store.edges@[i as int]));
        assert forall|j: int| 0 <= j < store.edges@.len() implies (#[trigger] store.edges@[j]).id@
            == old(store).edges@[j].id@ by {}
        crate::store::lemma_has_edge_same_ids(old(store).edges@, store.edges@);
        assert forall|a: int, b: int|
            0 <= a < b < store.edges@.len() implies store.edges@[a].id@ != store.edges@[b].id@ by {
            assert(store.edges@[a].id@ == old(store).edges@[a].id@);
            assert(store.edges@[b].id@ == old(store).edges@[b].id@);
        }
        assert forall|j: int| 0 <= j < store.edges@.len() implies has_node(
            store.nodes@,
            (#[trigger] store.edges@[j]).from_node@,
        ) && has_node(store.nodes@, store.edges@[j].to_node@) by {
            if j != i {
                assert(store.edges@[j] == old(store).edges@[j]);
            } else {
                assert(store.edges@[j].from_node@ == old(store).edges@[j].from_node@);
                assert(store.edges@[j].to_node@ == old(store).edges@[j].to_node@);
            }
        }
        if existed {
            let pidx = crate::store::prop_index_of(old(store).edge_props@, edge_id@, kk@);
            assert forall|m: int| 0 <= m < store.edge_props@.len() implies has_edge(
                store.edges@,
                (#[trigger] store.edge_props@[m]).owner_id@,
            ) && crate::props::is_json_text(store.edge_props@[m].value@) by {
                if m != pidx {
                    assert(store.edge_props@[m] == old(store).edge_props@[m]);
                } else {
                    assert(store.edge_props@[m].owner_id@ == old(store).edge_props@[m].owner_id@);
                }
            }
            crate::store::lemma_prop_index_is(store.edge_props@, edge_id@, kk@, pidx);
        } else {
            assert forall|m: int| 0 <= m < store.edge_props@.len() implies has_edge(
                store.edges@,
                (#[trigger] store.edge_props@[m]).owner_id@,
            ) && crate::props::is_json_text(store.edge_props@[m].value@) by {
                if m < store.edge_props@.len() - 1 {
                    assert(store.edge_props@[m] == old(store).edge_props@[m]);
                } else {
                    assert(store.edge_props@[m].owner_id@ == edge_id@);
                }
            }
            crate::store::lemma_prop_index_is(
                store.edge_props@,
                edge_id@,
                kk@,
                store.edge_props@.len() - 1,
            );
        }
        assert(store.wf());
    }
    Ok(())
}

/// Delete one edge: remove its row and its property rows; node rows are
/// never affected.  Fails with `NotFound` exactly when the id matches
/// nothing, leaving the store untouched.
#[verifier::loop_isolation(false)]
pub fn delete_edge(store: &mut GraphStore, id: &String) -> (r: Result<(), GraphError>)
    requires
        old(store).wf(),
    ensures
        final(store).wf(),
        match r {
            Ok(_) => {
                &&& has_edge(old(store).edges@, id@)
                &&& final(store).edges@ == old(store).edges@.remove(
                    edge_index_of(old(store).edges@, id@),
                )
                &&& !has_edge(final(store).edges@, id@)
                &&& final(store).edge_props@ == old(store).edge_props@.filter(
                    crate::store::not_owned_by(id@),
                )
                &&& final(store).nodes == old(store).nodes
                &&& final(store).node_props == old(store).node_props
                &&& final(store).version == old(store).version
            },
            Err(e) => e == GraphError::NotFound && !has_edge(old(store).edges@, id@)
                && *final(store) == *old(store),
        },
{
    let i = match find_edge_index(&store.edges, id) {
        None => {
            return Err(GraphError::NotFound);
        }
        Some(i) => i,
    };
    proof {
        lemma_edge_index_is(store.edges@, id@, i as int);
    }
    store.edges.remove(i);
    proof {
        old(store).edges@.remove_ensures(i as int);
        assert forall|a: int, b: int|
            0 <= a < b < store.edges@.len() implies store.edges@[a].id@ != store.edges@[b].id@ by {
            let a0: int = if a < i { a } else { a + 1 };
            let b0: int = if b < i { b } else { b + 1 };
            assert(store.edges@[a] == old(store).edges@[a0]);
            assert(store.edges@[b] == old(store).edges@[b0]);
        }
        assert forall|j: int| 0 <= j < store.edges@.len() implies (#[trigger] store.edges@[j]).id@
            != id@ by {
            let j0: int = if j < i { j } else { j + 1 };
            assert(store.edges@[j] == old(store).edges@[j0]);
        }
    }
    let mut kept: Vec<PropRow> = Vec::new();
    let mut j: usize = 0;
    while j < store.edge_props.len()
        invariant
            0 <= j <= store.edge_props@.len(),
            kept@ == store.edge_props@.take(j as int).filter(crate::store::not_owned_by(id@)),
        decreases store.edge_props@.len() - j,
    {
        proof {
            crate::store::lemma_filter_push(
                store.edge_props@.take(j as int),
                store.edge_props@[j as int],
                crate::store::not_owned_by(id@),
            );
            assert(store.edge_props@.take(j as int).push(store.edge_props@[j as int])
                =~= store.edge_props@.take(j + 1));
        }
        if !(store.edge_props[j].owner_id == *id) {
            kept.push(store.edge_props[j].copy_row());
        }
        j = j + 1;
    }
    proof {
        assert(store.edge_props@.take(store.edge_props@.len() as int) =~= store.edge_props@);
    }
    store.edge_props = kept;
    proof {
        let pred = crate::store::not_owned_by(id@);
        let oldp = old(store).edge_props@;
        assert forall|a: int, b: int|
            0 <= a < b < store.edge_props@.len() implies !((
            #[trigger] store.edge_props@[a]).owner_id@ == (
            #[trigger] store.edge_props@[b]).owner_id@ && store.edge_props@[a].key@
            == store.edge_props@[b].key@) by {
            crate::store::lemma_filter_distinct_by(
                oldp,
                pred,
                |r: PropRow| (r.owner_id@, r.key@),
                a,
                b,
            );
        }
        assert forall|m: int| 0 <= m < store.edge_props@.len() implies has_edge(
            store.edges@,
            (#[trigger] store.edge_props@[m]).owner_id@,
        ) && crate::props::is_json_text(store.edge_props@[m].value@) by {
            crate::store::lemma_filter_member(oldp, pred, m);
            let w = choose|w: int| 0 <= w < oldp.len() && oldp[w] == store.edge_props@[m];
            let owner = store.edge_props@[m].owner_id@;
            assert(has_edge(old(store).edges@, owner));
            let k = choose|k: int| 0 <= k < old(store).edges@.len() && old(store).edges@[k].id@
                == owner;
            assert(old(store).edges@[i as int].id@ == id@);
            assert(k != i);
            let k2: int = if k < i { k } else { k - 1 };
            assert(store.edges@[k2] == old(store).edges@[k]);
        }
    }
    Ok(())
}

/// Remove one property from an edge; the key is normalized first, and a
/// key the edge does not carry is a no-op.  The edge's update timestamp
/// is refreshed exactly when a row was actually removed.  Fails with
/// `NotFound` exactly when the edge id matches nothing.
#[verifier::rlimit(30)]
#[verifier::spinoff_prover]
pub fn delete_edge_prop(store: &mut GraphStore, edge_id: &String, key: &String) -> (r: Result<
    bool,
    GraphError,
>)
    requires
        old(store).wf(),
    ensures
        final(store).wf(),
        match r {
            Ok(existed) => {
                let kk = crate::props::norm_key_spec(key@);
                &&& has_edge(old(store).edges@, edge_id@)
                &&& existed == crate::store::has_prop(old(store).edge_props@, edge_id@, kk)
                &&& (existed ==> final(store).edge_props@ == old(store).edge_props@.remove(
                    crate::store::prop_index_of(old(store).edge_props@, edge_id@, kk),
                ))
                &&& (!existed ==> *final(store) == *old(store))
                &&& !crate::store::has_prop(final(store).edge_props@, edge_id@, kk)
                &&& final(store).nodes == old(store).nodes
                &&& final(store).node_props == old(store).node_props
                &&& final(store).version == old(store).version
                &&& final(store).edges@.len() == old(store).edges@.len()
                &&& (existed ==> {
                    let idx = edge_index_of(old(store).edges@, edge_id@);
                    &&& forall|j: int|
                        0 <= j < old(store).edges@.len() && j != idx ==> final(store).edges@[j]
                            == old(store).edges@[j]
                    &&& final(store).edges@[idx].id == old(store).edges@[idx].id
                    &&& final(store).edges@[idx].edge_type == old(store).edges@[idx].edge_type
                    &&& final(store).edges@[idx].from_node == old(store).edges@[idx].from_node
                    &&& final(store).edges@[idx].to_node == old(store).edges@[idx].to_node
                    &&& final(store).edges@[idx].directed == old(store).edges@[idx].directed
                    &&& final(store).edges@[idx].created_at == old(store).edges@[idx].created_at
                })
            },
            Err(e) => e == GraphError::NotFound && !has_edge(old(store).edges@, edge_id@)
                && *final(store) == *old(store),
        },
{
    let i = match find_edge_index(&store.edges, edge_id) {
        None => {
            return Err(GraphError::NotFound);
        }
        Some(i) => i,
    };
    proof {
        lemma_edge_index_is(store.edges@, edge_id@, i as int);
    }
    let kk = crate::text::trim_text(key.as_str());
    let existed = crate::props::remove_prop_row(&mut store.edge_props, edge_id, &kk);
    if existed {
        let now = current_timestamp();
        let row = &store.edges[i];
        let updated = EdgeRow {
            id: row.id.clone(),
            edge_type: row.edge_type.clone(),
            from_node: row.from_node.clone(),
            to_node: row.to_node.clone(),
            directed: row.directed,
            created_at: row.created_at.clone(),
            updated_at: now,
        };
        crate::store::replace_edge_row(&mut store.edges, i, updated);
        proof {
            assert forall|j: int| 0 <= j < store.edges@.len() implies (
            #[trigger] store.edges@[j]).id@ == old(store).edges@[j].id@ by {}
            crate::store::lemma_has_edge_same_ids(old(store).edges@, store.edges@);
            assert forall|m: int| 0 <= m < store.edge_props@.len() implies has_edge(
                store.edges@,
                (#[trigger] store.edge_props@[m]).owner_id@,
            ) && crate::props::is_json_text(store.edge_props@[m].value@) by {
                let idx = crate::store::prop_index_of(old(store).edge_props@, edge_id@, kk@);
                old(store).edge_props@.remove_ensures(idx);
                let m0: int = if m < idx {
                    m
                } else {
                    m + 1
                };
                assert(store.edge_props@[m] == old(store).edge_props@[m0]);
            }
            assert forall|a: int, b: int|
                0 <= a < b < store.edges@.len() implies store.edges@[a].id@
                != store.edges@[b].id@ by {
                assert(store.edges@[a].id@ == old(store).edges@[a].id@);
                assert(store.edges@[b].id@ == old(store).edges@[b].id@);
            }
            assert forall|k: int| 0 <= k < store.edges@.len() implies has_node(
                store.nodes@,
                #[trigger] store.edges@[k].from_node@,
            ) && has_node(store.nodes@, store.edges@[k].to_node@) by {
                if k != i {
                    assert(store.edges@[k] == old(store).edges@[k]);
                } else {
                    assert(store.edges@[k].from_node@ == old(store).edges@[k].from_node@);
                    assert(store.edges@[k].to_node@ == old(store).edges@[k].to_node@);
                    assert(has_node(old(store).nodes@, old(store).edges@[k].from_node@));
                    assert(has_node(old(store).nodes@, old(store).edges@[k].to_node@));
                }
            }
            assert forall|k: int| 0 <= k < store.edge_props@.len()
                implies crate::props::is_json_text(
                (#[trigger] store.edge_props@[k]).value@,
            ) by {
                assert(has_edge(store.edges@, store.edge_props@[k].owner_id@)
                    && crate::props::is_json_text(store.edge_props@[k].value@));
            }
            assert(store.wf());
        }
    } else {
        proof {
            assert(*store == *old(store));
        }
    }
    Ok(existed)
}

/// List all edges, each with its properties populated, in table order.
pub fn list_edges(store: &GraphStore, params: &ListEdgesParams) -> (r: Vec<DbEdge>)
    ensures
        r@.len() == store.edges@.len(),
        forall|i: int|
            0 <= i < r@.len() ==> edge_from_row(
                #[trigger] r@[i],
                store.edges@[i],
                store.edge_props@,
                true,
            ),
{
    let mut out: Vec<DbEdge> = Vec::new();
    let mut i: usize = 0;
    while i < store.edges.len()
        invariant
            0 <= i <= store.edges@.len(),
            out@.len() == i,
            forall|j: int|
                0 <= j < i ==> edge_from_row(
                    #[trigger] out@[j],
                    store.edges@[j],
                    store.edge_props@,
                    true,
                ),
        decreases store.edges@.len() - i,
    {
        let row = &store.edges[i];
        let es = get_edge_props(store, &row.id);
        out.push(
            DbEdge {
                id: row.id.clone(),
                edge_type: row.edge_type.clone(),
                from_node: row.from_node.clone(),
                to_node: row.to_node.clone(),
                directed: row.directed,
                props: Some(es),
                created_at: row.created_at.clone(),
                updated_at: row.updated_at.clone(),
            },
        );
        i = i + 1;
    }
    out
}

} // verus!
