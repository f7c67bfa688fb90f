//! The node repository: create, list, fetch, and existence checks for
//! nodes, composing the identifier generator and the property store.
//!
//! Creation is atomic: the node row and all its property rows enter the
//! store together, or, on any failure, nothing does.

use vstd::prelude::*;

use crate::errors::GraphError;
use crate::ids::new_id;
use crate::props::{
    build_prop_rows, entries_match_rows, entries_normalized, prop_row_built, props_outcome,
    read_props_entries, PropEntry,
};
use crate::store::{
    clone_string_vec, find_node_index, has_node, lemma_filter_push, lemma_has_node_push,
    lemma_node_index_is, node_index_of, props_of, GraphStore, NodeRow, PropRow,
};
use crate::time::current_timestamp;

verus! {

/// A fully materialized node, as returned to callers.
#[derive(Debug)]
pub struct DbNode {
    /// The node's id.
    pub id: String,
    /// The node's labels, insertion order preserved.
    pub labels: Vec<String>,
    /// The node's properties as key/JSON-text pairs, when requested.
    pub props: Option<Vec<PropEntry>>,
    /// When the node was created, as RFC 3339 text.
    pub created_at: String,
    /// When the node was last changed, as RFC 3339 text.
    pub updated_at: String,
}

/// What a create-node call supplies.
pub struct CreateNodeParams {
    /// The node's labels, in order.
    pub labels: Vec<String>,
    /// The node's initial properties, as raw key/value texts.
    pub props: Vec<PropEntry>,
}

/// What a get-node call supplies.
pub struct GetNodeParams {
    /// The id to look up.
    pub id: String,
    /// Whether to populate the node's properties.
    pub with_props: bool,
}

/// What a list-nodes call supplies.
pub struct ListNodesParams;

/// How a returned node mirrors a stored row: same id, labels and
/// timestamps, and, when requested, exactly the owner's stored properties
/// in table order.
pub open spec fn node_from_row(
    node: DbNode,
    row: NodeRow,
    prop_rows: Seq<PropRow>,
    with_props: bool,
) -> bool {
    &&& node.id == row.id
    &&& node.labels@ == row.labels@
    &&& node.created_at == row.created_at
    &&& node.updated_at == row.updated_at
    &&& if with_props {
        node.props matches Some(es) && entries_match_rows(es@, props_of(prop_rows, row.id@))
    } else {
        node.props is None
    }
}

/// What a successful node creation does: the id is fresh, the supplied
/// properties are clean, and the new store is the old one plus one node
/// row and one property row per supplied property, all normalized and
/// timestamped with the node's creation instant.  Nothing else changes.
pub open spec fn create_node_ok(
    pre: GraphStore,
    post: GraphStore,
    node: DbNode,
    params: CreateNodeParams,
) -> bool {
    let id = node.id@;
    let now = node.created_at@;
    &&& !has_node(pre.nodes@, id)
    &&& props_outcome(params.props@) is None
    &&& node.labels@ == params.labels@
    &&& node.updated_at@ == now
    &&& node.props matches Some(es) && entries_normalized(es@, params.props@)
    &&& post.nodes@.len() == pre.nodes@.len() + 1
    &&& post.nodes@.drop_last() == pre.nodes@
    &&& post.nodes@.last().id@ == id
    &&& post.nodes@.last().labels@ == params.labels@
    &&& post.nodes@.last().created_at@ == now
    &&& post.nodes@.last().updated_at@ == now
    &&& post.node_props@.len() == pre.node_props@.len() + params.props@.len()
    &&& post.node_props@.take(pre.node_props@.len() as int) == pre.node_props@
    &&& forall|k: int|
        0 <= k < params.props@.len() ==> prop_row_built(
            #[trigger] post.node_props@[pre.node_props@.len() + k],
            id,
            params.props@[k],
            now,
        )
    &&& post.edges == pre.edges
    &&& post.edge_props == pre.edge_props
    &&& post.version == pre.version
}

/// Create a node under a caller-supplied id and timestamp.  This is the
/// whole creation logic; [`create_node`] only feeds it a fresh random id
/// and the current time.  Fails, leaving the store untouched, when the id
/// is already taken or the supplied properties are not clean.
#[verifier::loop_isolation(false)]
pub fn create_node_with_id(
    store: &mut GraphStore,
    id: &String,
    now: &String,
    params: &CreateNodeParams,
) -> (r: Result<DbNode, GraphError>)
    requires
        old(store).wf(),
    ensures
        final(store).wf(),
        match r {
            Ok(node) => node.id == *id && node.created_at == *now && create_node_ok(
                *old(store),
                *final(store),
                node,
                *params,
            ),
            Err(e) => *final(store) == *old(store) && (if has_node(old(store).nodes@, id@) {
                e == GraphError::IdCollision
            } else {
                props_outcome(params.props@) == Some(e)
            }),
        },
{
    if crate::store::check_node_exists(store, id) {
        return Err(GraphError::IdCollision);
    }
    let rows = match build_prop_rows(id, &params.props, now) {
        Ok(rs) => rs,
        Err(e) => {
            return Err(e);
        }
    };
    let node_row = NodeRow {
        id: id.clone(),
        labels: clone_string_vec(&params.labels),
        created_at: now.clone(),
        updated_at: now.clone(),
    };
    store.nodes.push(node_row);
    let ghost nodes_after = store.nodes@;
    let ghost props_before = store.node_props@;
    let mut es: Vec<PropEntry> = Vec::new();
    let mut k: usize = 0;
    while k < rows.len()
        invariant
            0 <= k <= rows@.len(),
            store.nodes@ == nodes_after,
            store.node_props@ == props_before + rows@.take(k as int),
            store.edges == old(store).edges,
            store.edge_props == old(store).edge_props,
            store.version == old(store).version,
            es@.len() == k,
            forall|j: int|
                0 <= j < k ==> (#[trigger] es@[j]).key == rows@[j].key && es@[j].value
                    == rows@[j].value,
        decreases rows@.len() - k,
    {
        es.push(PropEntry { key: rows[k].key.clone(), value: rows[k].value.clone() });
        store.node_props.push(rows[k].copy_row());
        proof {
            assert((props_before + rows@.take(k as int)).push(rows@[k as int]) =~= props_before
                + rows@.take(k + 1));
        }
        k = k + 1;
    }
    proof {
        assert(rows@.take(rows@.len() as int) =~= rows@);
        assert(store.node_props@ == props_before + rows@);
        assert(store.node_props@.take(props_before.len() as int) =~= props_before);
        assert(nodes_after.drop_last() =~= old(store).nodes@);
        // Uniqueness of node ids: the new row's id was not present before.
        assert forall|i: int, j: int|
            0 <= i < j < store.nodes@.len() implies store.nodes@[i].id@ != store.nodes@[j].id@ by {
            if j == store.nodes@.len() - 1 {
                assert(!has_node(old(store).nodes@, id@));
                assert(store.nodes@[i] == old(store).nodes@[i]);
                if store.nodes@[i].id@ == id@ {
                    assert(has_node(old(store).nodes@, id@));
                }
            }
        }
        // No old property row is owned by the fresh id, so pairs stay unique.
        assert forall|i: int|
            0 <= i < props_before.len() implies (#[trigger] props_before[i]).owner_id@ != id@ by {
            if props_before[i].owner_id@ == id@ {
                assert(has_node(old(store).nodes@, id@));
            }
        }
        // Edge endpoints and old property owners still resolve after the push.
        assert forall|i: int| 0 <= i < store.edges@.len() implies has_node(
            store.nodes@,
            #[trigger] store.edges@[i].from_node@,
        ) && has_node(store.nodes@, store.edges@[i].to_node@) by {
            lemma_has_node_push(old(store).nodes@, nodes_after.last(), store.edges@[i].from_node@);
            lemma_has_node_push(old(store).nodes@, nodes_after.last(), store.edges@[i].to_node@);
            assert(old(store).nodes@.push(nodes_after.last()) =~= nodes_after);
        }
        assert forall|i: int| 0 <= i < store.node_props@.len() implies has_node(
            store.nodes@,
            #[trigger] store.node_props@[i].owner_id@,
        ) by {
            lemma_has_node_push(
                old(store).nodes@,
                nodes_after.last(),
                store.node_props@[i].owner_id@,
            );
            assert(old(store).nodes@.push(nodes_after.last()) =~= nodes_after);
            if i < props_before.len() {
                assert(store.node_props@[i] == props_before[i]);
            } else {
                assert(store.node_props@[i] == rows@[i - props_before.len()]);
                assert(prop_row_built(
                    rows@[i - props_before.len()],
                    id@,
                    params.props@[i - props_before.len()],
                    now@,
                ));
            }
        }
        assert(store.wf());
    }
    let node = DbNode {
        id: id.clone(),
        labels: clone_string_vec(&params.labels),
        props: Some(es),
        created_at: now.clone(),
        updated_at: now.clone(),
    };
    proof {
        assert(entries_normalized(es@, params.props@));
        assert(create_node_ok(*old(store), *store, node, *params));
    }
    Ok(node)
}

/// Create a node: generate an id and a timestamp, then, atomically, insert
/// the node row and all its property rows.  Any failure (a duplicate or
/// empty property key, or an id collision) leaves no trace in the store.
/// Returns the fully materialized node.
pub fn create_node(store: &mut GraphStore, params: &CreateNodeParams) -> (r: Result<
    DbNode,
    GraphError,
>)
    requires
        old(store).wf(),
    ensures
        final(store).wf(),
        match r {
            Ok(node) => {
                &&& create_node_ok(*old(store), *final(store), node, *params)
                &&& node.id@.len() == 38
                &&& node.id@[0] == 'n'
                &&& node.id@[1] == '-'
            },
            Err(e) => *final(store) == *old(store) && (e == GraphError::IdCollision || props_outcome(
                params.props@,
            ) == Some(e)),
        },
        props_outcome(params.props@) is Some ==> r is Err,
{
    let id = new_id("n");
    proof {
        reveal_strlit("n");
        assert(id@[0] == id@.subrange(0, 1)[0]);
    }
    let now = current_timestamp();
    create_node_with_id(store, &id, &now, params)
}

/// Read all properties of one node as key/JSON-text pairs, in table order.
pub fn get_node_props(store: &GraphStore, node_id: &String) -> (r: Vec<PropEntry>)
    ensures
        entries_match_rows(r@, props_of(store.node_props@, node_id@)),
{
    read_props_entries(&store.node_props, node_id)
}

/// Fetch one node by id; properties are populated only when requested.
/// Fails with `NotFound` exactly when no row matches.
pub fn get_node(store: &GraphStore, params: &GetNodeParams) -> (r: Result<DbNode, GraphError>)
    requires
        store.wf(),
    ensures
        match r {
            Ok(node) => has_node(store.nodes@, params.id@) && node_from_row(
                node,
                store.nodes@[node_index_of(store.nodes@, params.id@)],
                store.node_props@,
                params.with_props,
            ),
            Err(e) => e == GraphError::NotFound && !has_node(store.nodes@, params.id@),
        },
{
    match find_node_index(&store.nodes, &params.id) {
        None => Err(GraphError::NotFound),
        Some(i) => {
            proof {
                lemma_node_index_is(store.nodes@, params.id@, i as int);
            }
            let props = if params.with_props {
                Some(get_node_props(store, &params.id))
            } else {
                None
            };
            let row = &store.nodes[i];
            Ok(
                DbNode {
                    id: row.id.clone(),
                    labels: clone_string_vec(&row.labels),
                    props,
                    created_at: row.created_at.clone(),
                    updated_at: row.updated_at.clone(),
                },
            )
        }
    }
}

/// Round trip: after a successful creation, the created node's row holds
/// exactly the labels that were supplied, and its stored properties are
/// exactly the supplied ones, normalized, in supply order — so a fetch by
/// the new id with properties included returns them unchanged.
pub proof fn lemma_create_then_get_node(
    pre: GraphStore,
    post: GraphStore,
    node: DbNode,
    params: CreateNodeParams,
)
    requires
        pre.wf(),
        post.wf(),
        create_node_ok(pre, post, node, params),
    ensures
        has_node(post.nodes@, node.id@),
        post.nodes@[node_index_of(post.nodes@, node.id@)].labels@ == params.labels@,
        props_of(post.node_props@, node.id@).len() == params.props@.len(),
        forall|k: int|
            0 <= k < params.props@.len() ==> {
                let row = #[trigger] props_of(post.node_props@, node.id@)[k];
                &&& row.key@ == crate::props::norm_key_spec(params.props@[k].key@)
                &&& row.value@ == crate::props::norm_value_spec(params.props@[k].value@)
            },
{
    let id = node.id@;
    let n = post.nodes@.len() - 1;
    assert(post.nodes@[n].id@ == id);
    lemma_node_index_is(post.nodes@, id, n);
    let oldp = pre.node_props@;
    let all = post.node_props@;
    let newrows = all.skip(oldp.len() as int);
    assert(all =~= oldp + newrows);
    Seq::filter_distributes_over_add(oldp, newrows, crate::store::owner_pred(id));
    assert forall|j: int| 0 <= j < oldp.len() implies !(crate::store::owner_pred(id)(
        #[trigger] oldp[j],
    )) by {
        assert(all.take(oldp.len() as int) =~= oldp);
        if oldp[j].owner_id@ == id {
            assert(has_node(pre.nodes@, id));
        }
    }
    crate::store::lemma_filter_none(oldp, crate::store::owner_pred(id));
    assert forall|j: int| 0 <= j < newrows.len() implies crate::store::owner_pred(id)(
        #[trigger] newrows[j],
    ) by {
        assert(newrows[j] == all[oldp.len() + j]);
        assert(prop_row_built(all[oldp.len() + j], id, params.props@[j], node.created_at@));
    }
    crate::store::lemma_filter_all(newrows, crate::store::owner_pred(id));
    assert(props_of(all, id) =~= newrows);
    assert forall|k: int| 0 <= k < params.props@.len() implies {
        let row = #[trigger] props_of(post.node_props@, node.id@)[k];
        &&& row.key@ == crate::props::norm_key_spec(params.props@[k].key@)
        &&& row.value@ == crate::props::norm_value_spec(params.props@[k].value@)
    } by {
        assert(props_of(all, id)[k] == newrows[k]);
        assert(newrows[k] == all[oldp.len() + k]);
        assert(prop_row_built(all[oldp.len() + k], id, params.props@[k], node.created_at@));
    }
}

/// What an update-node call supplies.
pub struct UpdateNodeParams {
    /// The node's id.
    pub id: String,
    /// Labels to add; adding a label the node already carries is a no-op.
    pub add_labels: Vec<String>,
    /// Labels to remove; removing an absent label is a no-op.
    pub remove_labels: Vec<String>,
    /// Properties to set, as raw key/value texts.
    pub set_props: Vec<PropEntry>,
    /// Property keys to remove; removing an absent key is a no-op.
    pub remove_props: Vec<String>,
}

/// Whether a label text occurs in a label list.
pub open spec fn label_in(labels: Seq<Seq<char>>, l: Seq<char>) -> bool {
    exists|i: int| 0 <= i < labels.len() && labels[i] == l
}

/// The predicate keeping the labels that are not being removed.
pub open spec fn keep_label(removes: Seq<Seq<char>>) -> spec_fn(Seq<char>) -> bool {
    |l: Seq<char>| !label_in(removes, l)
}

/// Appending the requested labels in order, skipping any the list already
/// carries.
pub open spec fn add_labels_spec(base: Seq<Seq<char>>, adds: Seq<Seq<char>>) -> Seq<Seq<char>>
    decreases adds.len(),
{
    if adds.len() == 0 {
        base
    } else {
        let prev = add_labels_spec(base, adds.drop_last());
        if label_in(prev, adds.last()) {
            prev
        } else {
            prev.push(adds.last())
        }
    }
}

/// The label list after an update: removals first (removing an absent
/// label changes nothing), then additions in order (adding a present
/// label changes nothing); surviving labels keep their relative order.
pub open spec fn updated_labels_spec(
    labels: Seq<Seq<char>>,
    removes: Seq<Seq<char>>,
    adds: Seq<Seq<char>>,
) -> Seq<Seq<char>> {
    add_labels_spec(labels.filter(keep_label(removes)), adds)
}

/// Whether a label list contains the given label.
fn vec_has_label(v: &Vec<String>, l: &String) -> (r: bool)
    ensures
        r == label_in(v.deep_view(), l@),
{
    let mut i: usize = 0;
    while i < v.len()
        invariant
            0 <= i <= v@.len(),
            forall|k: int| 0 <= k < i ==> v.deep_view()[k] != l@,
        decreases v@.len() - i,
    {
        if v[i] == *l {
            proof {
                assert(v.deep_view()[i as int] == l@);
            }
            return true;
        }
        i = i + 1;
    }
    false
}

/// Apply label removals and additions to a label list.
#[verifier::loop_isolation(false)]
fn apply_label_changes(base: &Vec<String>, removes: &Vec<String>, adds: &Vec<String>) -> (r: Vec<
    String,
>)
    ensures
        r.deep_view() == updated_labels_spec(base.deep_view(), removes.deep_view(), adds.deep_view()),
{
    let mut out: Vec<String> = Vec::new();
    let mut i: usize = 0;
    while i < base.len()
        invariant
            0 <= i <= base@.len(),
            out.deep_view() == base.deep_view().take(i as int).filter(
                keep_label(removes.deep_view()),
            ),
        decreases base@.len() - i,
    {
        proof {
            lemma_filter_push(
                base.deep_view().take(i as int),
                base.deep_view()[i as int],
                keep_label(removes.deep_view()),
            );
            assert(base.deep_view().take(i as int).push(base.deep_view()[i as int])
                =~= base.deep_view().take(i + 1));
        }
        if !vec_has_label(removes, &base[i]) {
            let ghost prev = out.deep_view();
            out.push(base[i].clone());
            proof {
                assert(out.deep_view() =~= prev.push(base.deep_view()[i as int]));
            }
        }
        i = i + 1;
    }
    proof {
        assert(base.deep_view().take(base@.len() as int) =~= base.deep_view());
    }
    let ghost fbase = out.deep_view();
    let mut k: usize = 0;
    while k < adds.len()
        invariant
            0 <= k <= adds@.len(),
            out.deep_view() == add_labels_spec(fbase, adds.deep_view().take(k as int)),
        decreases adds@.len() - k,
    {
        proof {
            assert(adds.deep_view().take(k + 1).drop_last() =~= adds.deep_view().take(k as int));
            assert(adds.deep_view().take(k + 1).last() == adds.deep_view()[k as int]);
        }
        if !vec_has_label(&out, &adds[k]) {
            let ghost prev = out.deep_view();
            out.push(adds[k].clone());
            proof {
                assert(out.deep_view() =~= prev.push(adds.deep_view()[k as int]));
            }
        }
        k = k + 1;
    }
    proof {
        assert(adds.deep_view().take(adds@.len() as int) =~= adds.deep_view());
    }
    out
}

/// Whether two label lists read the same.
fn string_vecs_view_equal(a: &Vec<String>, b: &Vec<String>) -> (r: bool)
    ensures
        r == (a.deep_view() == b.deep_view()),
{
    if a.len() != b.len() {
        proof {
            assert(a.deep_view().len() != b.deep_view().len());
        }
        return false;
    }
    let mut i: usize = 0;
    while i < a.len()
        invariant
            0 <= i <= a@.len(),
            a@.len() == b@.len(),
            forall|k: int| 0 <= k < i ==> a.deep_view()[k] == b.deep_view()[k],
        decreases a@.len() - i,
    {
        if !(a[i] == b[i]) {
            proof {
                assert(a.deep_view()[i as int] != b.deep_view()[i as int]);
            }
            return false;
        }
        i = i + 1;
    }
    proof {
        assert(a.deep_view() =~= b.deep_view());
    }
    true
}

/// Whether an update request actually changes the node: its labels read
/// differently afterwards, some property is set, or some removed key was
/// present.  Only then is the node's update timestamp refreshed.
pub open spec fn update_node_effective(pre: GraphStore, params: UpdateNodeParams) -> bool {
    let row = pre.nodes@[node_index_of(pre.nodes@, params.id@)];
    ||| updated_labels_spec(
        row.labels.deep_view(),
        params.remove_labels.deep_view(),
        params.add_labels.deep_view(),
    ) != row.labels.deep_view()
    ||| params.set_props@.len() > 0
    ||| exists|k: int|
        0 <= k < params.remove_props@.len() && crate::store::has_prop(
            pre.node_props@,
            params.id@,
            crate::props::norm_key_spec(params.remove_props@[k]@),
        )
}

/// Update one node: adjust its label set idempotently, set and remove
/// properties under the same normalization, duplicate-key and atomicity
/// rules as creation, and refresh the update timestamp exactly when
/// something effectively changed.  Property sets are applied before
/// property removals.  Returns the updated node with its properties
/// populated.  Fails with `NotFound` exactly when the id matches nothing,
/// and with the property verdict's error when the set batch is not clean;
/// every failure leaves the store untouched.
#[verifier::loop_isolation(false)]
pub fn update_node(store: &mut GraphStore, params: &UpdateNodeParams) -> (r: Result<
    DbNode,
    GraphError,
>)
    requires
        old(store).wf(),
    ensures
        final(store).wf(),
        has_node(old(store).nodes@, params.id@) && props_outcome(params.set_props@) is Some
            ==> r is Err,
        match r {
            Ok(node) => {
                let id = params.id@;
                let idx = node_index_of(old(store).nodes@, id);
                let now = final(store).nodes@[idx].updated_at@;
                &&& has_node(old(store).nodes@, id)
                &&& props_outcome(params.set_props@) is None
                &&& final(store).nodes@.len() == old(store).nodes@.len()
                &&& (forall|j: int|
                    0 <= j < old(store).nodes@.len() && j != idx ==> final(store).nodes@[j] == old(store).nodes@[j])
                &&& final(store).nodes@[idx].id == old(store).nodes@[idx].id
                &&& final(store).nodes@[idx].labels.deep_view() == updated_labels_spec(
                    old(store).nodes@[idx].labels.deep_view(),
                    params.remove_labels.deep_view(),
                    params.add_labels.deep_view(),
                )
                &&& final(store).nodes@[idx].created_at == old(store).nodes@[idx].created_at
                &&& (!update_node_effective(*old(store), *params) ==> *final(store) == *old(store))
                &&& final(store).node_props@.filter(crate::store::not_owned_by(id)) == old(store).node_props@.filter(crate::store::not_owned_by(id))
                &&& (forall|k: int|
                    0 <= k < params.set_props@.len() && !crate::props::removes_mention(
                        params.remove_props@,
                        crate::props::norm_key_spec(#[trigger] params.set_props@[k].key@),
                    ) ==> crate::props::set_applied(
                        old(store).node_props@,
                        final(store).node_props@,
                        id,
                        params.set_props@[k],
                        now,
                    ))
                &&& (forall|k: int|
                    0 <= k < params.remove_props@.len() ==> !crate::store::has_prop(
                        final(store).node_props@,
                        id,
                        crate::props::norm_key_spec(#[trigger] params.remove_props@[k]@),
                    ))
                &&& (forall|j: int|
                    0 <= j < old(store).node_props@.len() && (#[trigger] old(store).node_props@[j]).owner_id@ == id && !crate::props::sets_mention(
                        params.set_props@,
                        old(store).node_props@[j].key@,
                    ) && !crate::props::removes_mention(
                        params.remove_props@,
                        old(store).node_props@[j].key@,
                    ) ==> crate::store::has_prop(
                        final(store).node_props@,
                        id,
                        old(store).node_props@[j].key@,
                    ) && crate::store::prop_at(
                        final(store).node_props@,
                        id,
                        old(store).node_props@[j].key@,
                    ) == old(store).node_props@[j])
                &&& (forall|j: int|
                    0 <= j < final(store).node_props@.len() && (#[trigger] final(store).node_props@[j]).owner_id@ == id ==> crate::store::has_prop(
                        old(store).node_props@,
                        id,
                        final(store).node_props@[j].key@,
                    ) || crate::props::sets_mention(
                        params.set_props@,
                        final(store).node_props@[j].key@,
                    ))
                &&& final(store).edges == old(store).edges
                &&& final(store).edge_props == old(store).edge_props
                &&& final(store).version == old(store).version
                &&& node_from_row(
                    node,
                    final(store).nodes@[idx],
                    final(store).node_props@,
                    true,
                )
            },
            Err(e) => {
                &&& *final(store) == *old(store)
                &&& (e == GraphError::NotFound <==> !has_node(old(store).nodes@, params.id@))
                &&& (e != GraphError::NotFound ==> props_outcome(params.set_props@) == Some(e))
            },
        },
{
    let i = match find_node_index(&store.nodes, &params.id) {
        None => {
            return Err(GraphError::NotFound);
        }
        Some(i) => i,
    };
    proof {
        lemma_node_index_is(store.nodes@, params.id@, i as int);
    }
    let now = current_timestamp();
    let rows_norm = match build_prop_rows(&params.id, &params.set_props, &now) {
        Ok(rs) => rs,
        Err(e) => {
            proof {
                crate::props::lemma_props_outcome_kind(params.set_props@);
            }
            return Err(e);
        }
    };
    // Normalize the removal keys.
    let mut rem_keys: Vec<String> = Vec::new();
    let mut u: usize = 0;
    while u < params.remove_props.len()
        invariant
            0 <= u <= params.remove_props@.len(),
            rem_keys@.len() == u,
            forall|j: int|
                0 <= j < u ==> (#[trigger] rem_keys@[j])@ == crate::props::norm_key_spec(
                    params.remove_props@[j]@,
                ),
        decreases params.remove_props@.len() - u,
    {
        rem_keys.push(crate::text::trim_text(params.remove_props[u].as_str()));
        u = u + 1;
    }
    // Does any removal hit an existing row?
    let mut any_removed = false;
    u = 0;
    while u < rem_keys.len()
        invariant
            0 <= u <= rem_keys@.len(),
            any_removed == exists|j: int|
                0 <= j < u && crate::store::has_prop(
                    store.node_props@,
                    params.id@,
                    (#[trigger] rem_keys@[j])@,
                ),
        decreases rem_keys@.len() - u,
    {
        match crate::store::find_prop_index(&store.node_props, &params.id, &rem_keys[u]) {
            Some(ix) => {
                proof {
                    assert(crate::store::has_prop(store.node_props@, params.id@, rem_keys@[
                        u as int
                    ]@));
                }
                any_removed = true;
            }
            None => {}
        }
        u = u + 1;
    }
    // Compute the new label list.
    let new_labels = apply_label_changes(
        &store.nodes[i].labels,
        &params.remove_labels,
        &params.add_labels,
    );
    let labels_changed = !string_vecs_view_equal(&new_labels, &store.nodes[i].labels);
    let effective = labels_changed || params.set_props.len() > 0 || any_removed;
    proof {
        if any_removed {
            let j = choose|j: int|
                0 <= j < rem_keys@.len() && crate::store::has_prop(
                    store.node_props@,
                    params.id@,
                    rem_keys@[j]@,
                );
            assert(crate::store::has_prop(
                old(store).node_props@,
                params.id@,
                crate::props::norm_key_spec(params.remove_props@[j]@),
            ));
        }
        if exists|k: int|
            0 <= k < params.remove_props@.len() && crate::store::has_prop(
                old(store).node_props@,
                params.id@,
                crate::props::norm_key_spec((#[trigger] params.remove_props@[k])@),
            ) {
            let k = choose|k: int|
                0 <= k < params.remove_props@.len() && crate::store::has_prop(
                    old(store).node_props@,
                    params.id@,
                    crate::props::norm_key_spec(params.remove_props@[k]@),
                );
            assert(crate::store::has_prop(store.node_props@, params.id@, rem_keys@[k]@));
            assert(any_removed);
        }
        assert(effective == update_node_effective(*old(store), *params));
    }
    // Apply the property sets, in order.
    let ghost o_props = store.node_props@;
    let ghost id_v = params.id@;
    let ghost sets = params.set_props@;
    let mut t: usize = 0;
    while t < rows_norm.len()
        invariant
            0 <= t <= rows_norm@.len(),
            crate::store::prop_pairs_unique(store.node_props@),
            store.node_props@.filter(crate::store::not_owned_by(id_v)) == o_props.filter(
                crate::store::not_owned_by(id_v),
            ),
            store.node_props@.len() >= o_props.len(),
            forall|j: int|
                0 <= j < o_props.len() ==> (#[trigger] store.node_props@[j]).owner_id
                    == o_props[j].owner_id && store.node_props@[j].key == o_props[j].key,
            forall|j: int|
                0 <= j < o_props.len() && !(o_props[j].owner_id@ == id_v
                    && crate::props::sets_mention(sets.take(t as int), o_props[j].key@)) ==> (
                #[trigger] store.node_props@[j]) == o_props[j],
            forall|j: int|
                o_props.len() <= j < store.node_props@.len() ==> (
                #[trigger] store.node_props@[j]).owner_id@ == id_v && crate::props::sets_mention(
                    sets.take(t as int),
                    store.node_props@[j].key@,
                ),
            forall|k: int|
                0 <= k < t ==> crate::props::set_applied(
                    o_props,
                    store.node_props@,
                    id_v,
                    #[trigger] sets[k],
                    now@,
                ),
            forall|j: int|
                0 <= j < store.node_props@.len() ==> has_node(
                    store.nodes@,
                    (#[trigger] store.node_props@[j]).owner_id@,
                ) && crate::props::is_json_text(store.node_props@[j].value@),
            sets.len() == 0 ==> store.node_props == old(store).node_props,
            store.nodes == old(store).nodes,
            store.edges == old(store).edges,
            store.edge_props == old(store).edge_props,
            store.version == old(store).version,
        decreases rows_norm@.len() - t,
    {
        let ghost pre = store.node_props@;
        proof {
            assert(prop_row_built(rows_norm@[t as int], id_v, sets[t as int], now@));
        }
        let existed = crate::props::upsert_prop_row(
            &mut store.node_props,
            &params.id,
            &rows_norm[t].key,
            &rows_norm[t].value,
            &now,
        );
        proof {
            let kk = crate::props::norm_key_spec(sets[t as int].key@);
            // The batch's normalized keys are pairwise distinct.
            assert forall|k: int| 0 <= k < t implies crate::props::norm_key_spec(
                #[trigger] sets[k].key@,
            ) != kk by {
                assert(rows_norm@[k].key@ == crate::props::norm_key_spec(sets[k].key@));
            }
            assert(!crate::props::sets_mention(sets.take(t as int), kk));
            if existed {
                let pidx = crate::store::prop_index_of(pre, id_v, kk);
                assert(0 <= pidx < pre.len() && pre[pidx].owner_id@ == id_v && pre[pidx].key@
                    == kk);
                assert(pidx < o_props.len());
                assert(pre[pidx] == o_props[pidx]);
                crate::store::lemma_prop_index_is(o_props, id_v, kk, pidx);
                crate::store::lemma_prop_index_is(store.node_props@, id_v, kk, pidx);
                assert(store.node_props@ =~= pre.update(pidx, store.node_props@[pidx]));
                crate::store::lemma_filter_update_failing(
                    pre,
                    crate::store::not_owned_by(id_v),
                    pidx,
                    store.node_props@[pidx],
                );
                assert(crate::props::set_applied(
                    o_props,
                    store.node_props@,
                    id_v,
                    sets[t as int],
                    now@,
                ));
                assert forall|k: int| 0 <= k < t implies crate::props::set_applied(
                    o_props,
                    store.node_props@,
                    id_v,
                    #[trigger] sets[k],
                    now@,
                ) by {
                    let kk2 = crate::props::norm_key_spec(sets[k].key@);
                    let jk = crate::store::prop_index_of(pre, id_v, kk2);
                    assert(crate::store::has_prop(pre, id_v, kk2));
                    assert(0 <= jk < pre.len() && pre[jk].owner_id@ == id_v && pre[jk].key@
                        == kk2);
                    assert(jk != pidx);
                    crate::store::lemma_prop_index_is(store.node_props@, id_v, kk2, jk);
                }
            } else {
                assert(store.node_props@ =~= pre.push(store.node_props@.last()));
                lemma_filter_push(
                    pre,
                    store.node_props@.last(),
                    crate::store::not_owned_by(id_v),
                );
                if crate::store::has_prop(o_props, id_v, kk) {
                    let w = crate::store::prop_index_of(o_props, id_v, kk);
                    assert(pre[w].owner_id@ == id_v && pre[w].key@ == kk);
                    assert(crate::store::has_prop(pre, id_v, kk));
                }
                crate::store::lemma_prop_index_is(
                    store.node_props@,
                    id_v,
                    kk,
                    store.node_props@.len() - 1,
                );
                assert(crate::props::set_applied(
                    o_props,
                    store.node_props@,
                    id_v,
                    sets[t as int],
                    now@,
                ));
                assert forall|k: int| 0 <= k < t implies crate::props::set_applied(
                    o_props,
                    store.node_props@,
                    id_v,
                    #[trigger] sets[k],
                    now@,
                ) by {
                    let kk2 = crate::props::norm_key_spec(sets[k].key@);
                    let jk = crate::store::prop_index_of(pre, id_v, kk2);
                    assert(crate::store::has_prop(pre, id_v, kk2));
                    assert(0 <= jk < pre.len() && pre[jk].owner_id@ == id_v && pre[jk].key@
                        == kk2);
                    crate::store::lemma_prop_index_is(store.node_props@, id_v, kk2, jk);
                }
            }
            assert forall|k: int| 0 <= k < t + 1 implies crate::props::sets_mention(
                sets.take(t + 1),
                crate::props::norm_key_spec((#[trigger] sets[k]).key@),
            ) by {
                assert(sets.take(t + 1)[k] == sets[k]);
            }
        }
        t = t + 1;
    }
    // Apply the property removals, in order.
    let ghost p_props = store.node_props@;
    u = 0;
    while u < rem_keys.len()
        invariant
            0 <= u <= rem_keys@.len(),
            crate::store::prop_pairs_unique(store.node_props@),
            store.node_props@.filter(crate::store::not_owned_by(id_v)) == o_props.filter(
                crate::store::not_owned_by(id_v),
            ),
            forall|j: int|
                0 <= j < store.node_props@.len() ==> p_props.contains(
                    #[trigger] store.node_props@[j],
                ),
            forall|j: int|
                0 <= j < p_props.len() && !((#[trigger] p_props[j]).owner_id@ == id_v && (
                exists|k: int| 0 <= k < u && (#[trigger] rem_keys@[k])@ == p_props[j].key@))
                    ==> store.node_props@.contains(p_props[j]),
            forall|k: int|
                0 <= k < u ==> !crate::store::has_prop(
                    store.node_props@,
                    id_v,
                    (#[trigger] rem_keys@[k])@,
                ),
            forall|j: int|
                0 <= j < store.node_props@.len() ==> has_node(
                    store.nodes@,
                    (#[trigger] store.node_props@[j]).owner_id@,
                ) && crate::props::is_json_text(store.node_props@[j].value@),
            sets.len() == 0 && !any_removed ==> store.node_props == old(store).node_props,
            store.nodes == old(store).nodes,
            store.edges == old(store).edges,
            store.edge_props == old(store).edge_props,
            store.version == old(store).version,
        decreases rem_keys@.len() - u,
    {
        let ghost pre = store.node_props@;
        let existed = crate::props::remove_prop_row(&mut store.node_props, &params.id, &rem_keys[u]);
        proof {
            let rk = rem_keys@[u as int]@;
            if existed {
                let ix = crate::store::prop_index_of(pre, id_v, rk);
                assert(0 <= ix < pre.len() && pre[ix].owner_id@ == id_v && pre[ix].key@ == rk);
                pre.remove_ensures(ix);
                crate::store::lemma_filter_remove_failing(
                    pre,
                    crate::store::not_owned_by(id_v),
                    ix,
                );
                assert forall|j: int| 0 <= j < store.node_props@.len() implies pre.contains(
                    #[trigger] store.node_props@[j],
                ) by {
                    let j0: int = if j < ix { j } else { j + 1 };
                    assert(store.node_props@[j] == pre[j0]);
                }
                assert forall|j: int|
                    0 <= j < p_props.len() && !((#[trigger] p_props[j]).owner_id@ == id_v && (
                    exists|k: int| 0 <= k < u + 1 && (#[trigger] rem_keys@[k])@ == p_props[j].key@))
                    implies store.node_props@.contains(p_props[j]) by {
                    assert(pre.contains(p_props[j]));
                    let j2 = choose|j2: int| 0 <= j2 < pre.len() && pre[j2] == p_props[j];
                    assert(j2 != ix);
                    let j3: int = if j2 < ix { j2 } else { j2 - 1 };
                    assert(store.node_props@[j3] == pre[j2]);
                }
                assert forall|k: int| 0 <= k < u + 1 implies !crate::store::has_prop(
                    store.node_props@,
                    id_v,
                    (#[trigger] rem_keys@[k])@,
                ) by {
                    if crate::store::has_prop(store.node_props@, id_v, rem_keys@[k]@) {
                        let w = choose|w: int|
                            0 <= w < store.node_props@.len() && store.node_props@[w].owner_id@
                                == id_v && store.node_props@[w].key@ == rem_keys@[k]@;
                        let w0: int = if w < ix { w } else { w + 1 };
                        assert(pre[w0] == store.node_props@[w]);
                        if k < u {
                            assert(crate::store::has_prop(pre, id_v, rem_keys@[k]@));
                        } else {
                            assert(w0 != ix);
                            assert(!(pre[w0].owner_id@ == pre[ix].owner_id@ && pre[w0].key@
                                == pre[ix].key@));
                        }
                    }
                }
            }
        }
        u = u + 1;
    }
    // Refresh the node row when the update was effective.
    if effective {
        let row = store.nodes.remove(i);
        let updated = NodeRow {
            id: row.id,
            labels: new_labels,
            created_at: row.created_at,
            updated_at: now.clone(),
        };
        store.nodes.insert(i, updated);
        proof {
            assert(store.nodes@ =~= old(store).nodes@.update(i as int, store.nodes@[i as int]));
        }
    } else {
        proof {
            assert(store.nodes@[i as int].labels.deep_view() == new_labels.deep_view());
        }
    }
    proof {
        assert forall|j: int| 0 <= j < store.nodes@.len() implies (#[trigger] store.nodes@[j]).id@
            == old(store).nodes@[j].id@ by {}
        crate::store::lemma_has_node_same_ids(old(store).nodes@, store.nodes@);
        // Set entries not later removed are applied in the final table.
        assert forall|k: int|
            0 <= k < sets.len() && !crate::props::removes_mention(
                params.remove_props@,
                crate::props::norm_key_spec(#[trigger] sets[k].key@),
            ) implies crate::props::set_applied(
            o_props,
            store.node_props@,
            id_v,
            sets[k],
            now@,
        ) by {
            let kk = crate::props::norm_key_spec(sets[k].key@);
            assert(sets.take(sets.len() as int) =~= sets);
            assert(crate::props::set_applied(o_props, p_props, id_v, sets[k], now@));
            let jk = crate::store::prop_index_of(p_props, id_v, kk);
            assert(0 <= jk < p_props.len() && p_props[jk].owner_id@ == id_v && p_props[jk].key@
                == kk);
            // That row survived the removals: its key is not removed.
            assert forall|m: int| 0 <= m < rem_keys@.len() implies (#[trigger] rem_keys@[m])@
                != kk by {
                if rem_keys@[m]@ == kk {
                    assert(crate::props::removes_mention(params.remove_props@, kk));
                }
            }
            assert(store.node_props@.contains(p_props[jk]));
            let j2 = choose|j2: int|
                0 <= j2 < store.node_props@.len() && store.node_props@[j2] == p_props[jk];
            crate::store::lemma_prop_index_is(store.node_props@, id_v, kk, j2);
        }
        // Every removal key is absent, stated over the raw removal list.
        assert forall|k: int| 0 <= k < params.remove_props@.len() implies !crate::store::has_prop(
            store.node_props@,
            id_v,
            crate::props::norm_key_spec((#[trigger] params.remove_props@[k])@),
        ) by {
            assert(rem_keys@[k]@ == crate::props::norm_key_spec(params.remove_props@[k]@));
            assert(!crate::store::has_prop(store.node_props@, id_v, rem_keys@[k]@));
        }
        // Untouched old rows survive unchanged.
        assert forall|j: int|
            0 <= j < o_props.len() && (#[trigger] o_props[j]).owner_id@ == id_v
                && !crate::props::sets_mention(sets, o_props[j].key@)
                && !crate::props::removes_mention(params.remove_props@, o_props[j].key@) implies {
            &&& crate::store::has_prop(store.node_props@, id_v, o_props[j].key@)
            &&& crate::store::prop_at(store.node_props@, id_v, o_props[j].key@) == o_props[j]
        } by {
            assert(sets.take(sets.len() as int) =~= sets);
            assert(p_props[j] == o_props[j]);
            assert forall|m: int| 0 <= m < rem_keys@.len() implies (#[trigger] rem_keys@[m])@
                != o_props[j].key@ by {
                if rem_keys@[m]@ == o_props[j].key@ {
                    assert(crate::props::removes_mention(params.remove_props@, o_props[j].key@));
                }
            }
            assert(store.node_props@.contains(p_props[j]));
            let j2 = choose|j2: int|
                0 <= j2 < store.node_props@.len() && store.node_props@[j2] == p_props[j];
            crate::store::lemma_prop_index_is(store.node_props@, id_v, o_props[j].key@, j2);
        }
        // No invented keys.
        assert forall|j: int|
            0 <= j < store.node_props@.len() && (#[trigger] store.node_props@[j]).owner_id@
                == id_v implies crate::store::has_prop(o_props, id_v, store.node_props@[j].key@)
            || crate::props::sets_mention(sets, store.node_props@[j].key@) by {
            assert(p_props.contains(store.node_props@[j]));
            let j2 = choose|j2: int| 0 <= j2 < p_props.len() && p_props[j2] == store.node_props@[j];
            assert(sets.take(sets.len() as int) =~= sets);
            if j2 < o_props.len() {
                assert(p_props[j2].owner_id == o_props[j2].owner_id && p_props[j2].key
                    == o_props[j2].key);
                assert(crate::store::has_prop(o_props, id_v, store.node_props@[j].key@));
            }
        }
        // The whole store is untouched when nothing effective happened.
        if !effective {
            assert(rem_keys@.len() == params.remove_props@.len());
            assert(sets.len() == 0);
            assert(rows_norm@.len() == 0);
        }
    }
    let row2 = &store.nodes[i];
    let es = get_node_props(store, &params.id);
    Ok(
        DbNode {
            id: row2.id.clone(),
            labels: clone_string_vec(&row2.labels),
            props: Some(es),
            created_at: row2.created_at.clone(),
            updated_at: row2.updated_at.clone(),
        },
    )
}

/// Set one property on a node: the key is normalized and must not be
/// empty, the value is normalized, and an existing row under the key is
/// overwritten in place (keeping its creation timestamp) while a new key
/// appends a row.  The node's update timestamp is refreshed.  Fails with
/// `NotFound` exactly when the node id matches nothing, with `Validation`
/// exactly when the node exists but the normalized key is empty; every
/// failure leaves the store untouched.
#[verifier::rlimit(60)]
#[verifier::spinoff_prover]
pub fn set_node_prop(store: &mut GraphStore, node_id: &String, key: &String, value: &String) -> (r:
    Result<(), GraphError>)
    requires
        old(store).wf(),
    ensures
        final(store).wf(),
        match r {
            Ok(_) => {
                let kk = crate::props::norm_key_spec(key@);
                let vv = crate::props::norm_value_spec(value@);
                let idx = node_index_of(old(store).nodes@, node_id@);
                let now = final(store).nodes@[idx].updated_at@;
                &&& has_node(old(store).nodes@, node_id@)
                &&& kk.len() > 0
                &&& final(store).nodes@.len() == old(store).nodes@.len()
                &&& (forall|j: int|
                    0 <= j < old(store).nodes@.len() && j != idx ==> final(store).nodes@[j] == old(store).nodes@[j])
                &&& final(store).nodes@[idx].id == old(store).nodes@[idx].id
                &&& final(store).nodes@[idx].labels == old(store).nodes@[idx].labels
                &&& final(store).nodes@[idx].created_at == old(store).nodes@[idx].created_at
                &&& crate::store::has_prop(final(store).node_props@, node_id@, kk)
                &&& crate::store::prop_at(final(store).node_props@, node_id@, kk).value@ == vv
                &&& crate::store::prop_at(final(store).node_props@, node_id@, kk).updated_at@ == now
                &&& (crate::store::has_prop(old(store).node_props@, node_id@, kk) ==> {
                    let pidx = crate::store::prop_index_of(old(store).node_props@, node_id@, kk);
                    &&& final(store).node_props@.len() == old(store).node_props@.len()
                    &&& (forall|j: int|
                        0 <= j < old(store).node_props@.len() && j != pidx ==> final(store).node_props@[j] == old(store).node_props@[j])
                    &&& final(store).node_props@[pidx].created_at == old(store).node_props@[pidx].created_at
                })
                &&& (!crate::store::has_prop(old(store).node_props@, node_id@, kk) ==> {
                    &&& final(store).node_props@.len() == old(store).node_props@.len() + 1
                    &&& final(store).node_props@.drop_last() == old(store).node_props@
                    &&& final(store).node_props@.last().created_at@ == now
                })
                &&& final(store).edges == old(store).edges
                &&& final(store).edge_props == old(store).edge_props
                &&& final(store).version == old(store).version
            },
            Err(e) => {
                &&& *final(store) == *old(store)
                &&& (e == GraphError::NotFound <==> !has_node(old(store).nodes@, node_id@))
                &&& (e == GraphError::Validation <==> has_node(old(store).nodes@, node_id@)
                    && crate::props::norm_key_spec(key@).len() == 0)
            },
        },
{
    let i = match find_node_index(&store.nodes, node_id) {
        None => {
            return Err(GraphError::NotFound);
        }
        Some(i) => i,
    };
    proof {
        lemma_node_index_is(store.nodes@, node_id@, i as int);
    }
    let kk = crate::text::trim_text(key.as_str());
    if kk.unicode_len() == 0 {
        return Err(GraphError::Validation);
    }
    let vv = crate::props::normalize_value(value.as_str());
    let now = current_timestamp();
    let existed = crate::props::upsert_prop_row(&mut store.node_props, node_id, &kk, &vv, &now);
    let row = store.nodes.remove(i);
    let updated = NodeRow {
        id: row.id,
        labels: row.labels,
        created_at: row.created_at,
        updated_at: now.clone(),
    };
    store.nodes.insert(i, updated);
    proof {
        assert(store.nodes@ =~= old(store).nodes@.update(i as int, store.nodes@[i as int]));
        assert forall|j: int| 0 <= j < store.nodes@.len() implies (#[trigger] store.nodes@[j]).id@
            == old(store).nodes@[j].id@ by {}
        crate::store::lemma_has_node_same_ids(old(store).nodes@, store.nodes@);
        assert forall|a: int, b: int|
            0 <= a < b < store.nodes@.len() implies store.nodes@[a].id@ != store.nodes@[b].id@ by {
            assert(store.nodes@[a].id@ == old(store).nodes@[a].id@);
            assert(store.nodes@[b].id@ == old(store).nodes@[b].id@);
        }
        if existed {
            let pidx = crate::store::prop_index_of(old(store).node_props@, node_id@, kk@);
            assert forall|m: int| 0 <= m < store.node_props@.len() implies has_node(
                store.nodes@,
                (#[trigger] store.node_props@[m]).owner_id@,
            ) && crate::props::is_json_text(store.node_props@[m].value@) by {
                if m != pidx {
                    assert(store.node_props@[m] == old(store).node_props@[m]);
                } else {
                    assert(store.node_props@[m].owner_id@ == old(store).node_props@[m].owner_id@);
                }
            }
            crate::store::lemma_prop_index_is(store.node_props@, node_id@, kk@, pidx);
        } else {
            assert forall|m: int| 0 <= m < store.node_props@.len() implies has_node(
                store.nodes@,
                (#[trigger] store.node_props@[m]).owner_id@,
            ) && crate::props::is_json_text(store.node_props@[m].value@) by {
                if m < store.node_props@.len() - 1 {
                    assert(store.node_props@[m] == old(store).node_props@[m]);
                } else {
                    assert(store.node_props@[m].owner_id@ == node_id@);
                }
            }
            crate::store::lemma_prop_index_is(
                store.node_props@,
                node_id@,
                kk@,
                store.node_props@.len() - 1,
            );
        }
        assert(crate::store::node_ids_unique(store.nodes@));
        assert(crate::store::edge_ids_unique(store.edges@));
        assert(crate::store::prop_pairs_unique(store.node_props@));
        assert(crate::store::prop_pairs_unique(store.edge_props@));
        assert forall|k: int| 0 <= k < store.edges@.len() implies has_node(
            store.nodes@,
            #[trigger] store.edges@[k].from_node@,
        ) && has_node(store.nodes@, store.edges@[k].to_node@) by {
            assert(has_node(old(store).nodes@, store.edges@[k].from_node@));
            assert(has_node(old(store).nodes@, store.edges@[k].to_node@));
        }
        assert forall|k: int| 0 <= k < store.edge_props@.len() implies crate::store::has_edge(
            store.edges@,
            (#[trigger] store.edge_props@[k]).owner_id@,
        ) by {}
        assert forall|k: int| 0 <= k < store.node_props@.len() implies crate::props::is_json_text(
            (#[trigger] store.node_props@[k]).value@,
        ) by {
            assert(has_node(store.nodes@, store.node_props@[k].owner_id@)
                && crate::props::is_json_text(store.node_props@[k].value@));
        }
        assert(store.wf());
    }
    Ok(())
}

/// Delete one node: remove its row, all its property rows, every edge
/// touching it, and those edges' property rows, in one atomic operation.
/// Fails with `NotFound` exactly when the id matches nothing, leaving the
/// store untouched.
#[verifier::loop_isolation(false)]
pub fn delete_node(store: &mut GraphStore, id: &String) -> (r: Result<(), GraphError>)
    requires
        old(store).wf(),
    ensures
        final(store).wf(),
        match r {
            Ok(_) => {
                &&& has_node(old(store).nodes@, id@)
                &&& final(store).nodes@ == old(store).nodes@.remove(
                    node_index_of(old(store).nodes@, id@),
                )
                &&& !has_node(final(store).nodes@, id@)
                &&& final(store).node_props@ == old(store).node_props@.filter(
                    crate::store::not_owned_by(id@),
                )
                &&& final(store).edges@ == old(store).edges@.filter(crate::store::not_touching(id@))
                &&& final(store).edge_props@ == old(store).edge_props@.filter(
                    crate::store::owner_among(final(store).edges@),
                )
                &&& final(store).version == old(store).version
                &&& forall|i: int|
                    0 <= i < final(store).edges@.len()
                        ==> (#[trigger] final(store).edges@[i]).from_node@ != id@
                        && final(store).edges@[i].to_node@ != id@
                &&& forall|i: int|
                    0 <= i < final(store).node_props@.len()
                        ==> (#[trigger] final(store).node_props@[i]).owner_id@ != id@
                &&& forall|i: int|
                    0 <= i < final(store).edge_props@.len() ==> crate::store::has_edge(
                        final(store).edges@,
                        (#[trigger] final(store).edge_props@[i]).owner_id@,
                    )
            },
            Err(e) => e == GraphError::NotFound && !has_node(old(store).nodes@, id@)
                && *final(store) == *old(store),
        },
{
    let i = match find_node_index(&store.nodes, id) {
        None => {
            return Err(GraphError::NotFound);
        }
        Some(i) => i,
    };
    proof {
        lemma_node_index_is(store.nodes@, id@, i as int);
    }
    store.nodes.remove(i);
    proof {
        old(store).nodes@.remove_ensures(i as int);
        assert forall|a: int, b: int|
            0 <= a < b < store.nodes@.len() implies store.nodes@[a].id@ != store.nodes@[b].id@ by {
            let a0: int = if a < i { a } else { a + 1 };
            let b0: int = if b < i { b } else { b + 1 };
            assert(store.nodes@[a] == old(store).nodes@[a0]);
            assert(store.nodes@[b] == old(store).nodes@[b0]);
        }
        assert forall|j: int| 0 <= j < store.nodes@.len() implies (#[trigger] store.nodes@[j]).id@
            != id@ by {
            let j0: int = if j < i { j } else { j + 1 };
            assert(store.nodes@[j] == old(store).nodes@[j0]);
        }
        // Any node id other than the removed one still resolves.
        assert forall|x: Seq<char>|
            has_node(old(store).nodes@, x) && x != id@ implies #[trigger] has_node(
            store.nodes@,
            x,
        ) by {
            let k = choose|k: int| 0 <= k < old(store).nodes@.len() && old(store).nodes@[k].id@
                == x;
            assert(k != i);
            let k2: int = if k < i { k } else { k - 1 };
            assert(store.nodes@[k2] == old(store).nodes@[k]);
        }
    }
    // Drop the node's own property rows.
    let mut kept_props: Vec<PropRow> = Vec::new();
    let mut j: usize = 0;
    while j < store.node_props.len()
        invariant
            0 <= j <= store.node_props@.len(),
            kept_props@ == store.node_props@.take(j as int).filter(
                crate::store::not_owned_by(id@),
            ),
        decreases store.node_props@.len() - j,
    {
        proof {
            lemma_filter_push(
                store.node_props@.take(j as int),
                store.node_props@[j as int],
                crate::store::not_owned_by(id@),
            );
            assert(store.node_props@.take(j as int).push(store.node_props@[j as int])
                =~= store.node_props@.take(j + 1));
        }
        if !(store.node_props[j].owner_id == *id) {
            kept_props.push(store.node_props[j].copy_row());
        }
        j = j + 1;
    }
    proof {
        assert(store.node_props@.take(store.node_props@.len() as int) =~= store.node_props@);
    }
    store.node_props = kept_props;
    // Drop every edge touching the node.
    let mut kept_edges: Vec<crate::store::EdgeRow> = Vec::new();
    let mut k: usize = 0;
    while k < store.edges.len()
        invariant
            0 <= k <= store.edges@.len(),
            kept_edges@ == store.edges@.take(k as int).filter(crate::store::not_touching(id@)),
        decreases store.edges@.len() - k,
    {
        proof {
            lemma_filter_push(
                store.edges@.take(k as int),
                store.edges@[k as int],
                crate::store::not_touching(id@),
            );
            assert(store.edges@.take(k as int).push(store.edges@[k as int]) =~= store.edges@.take(
                k + 1,
            ));
        }
        if !(store.edges[k].from_node == *id) && !(store.edges[k].to_node == *id) {
            kept_edges.push(store.edges[k].copy_row());
        }
        k = k + 1;
    }
    proof {
        assert(store.edges@.take(store.edges@.len() as int) =~= store.edges@);
    }
    store.edges = kept_edges;
    // Drop the property rows of the dropped edges.
    let mut kept_eprops: Vec<PropRow> = Vec::new();
    let mut m: usize = 0;
    while m < store.edge_props.len()
        invariant
            0 <= m <= store.edge_props@.len(),
            kept_eprops@ == store.edge_props@.take(m as int).filter(
                crate::store::owner_among(store.edges@),
            ),
        decreases store.edge_props@.len() - m,
    {
        proof {
            lemma_filter_push(
                store.edge_props@.take(m as int),
                store.edge_props@[m as int],
                crate::store::owner_among(store.edges@),
            );
            assert(store.edge_props@.take(m as int).push(store.edge_props@[m as int])
                =~= store.edge_props@.take(m + 1));
        }
        if crate::store::check_edge_exists(store, &store.edge_props[m].owner_id) {
            kept_eprops.push(store.edge_props[m].copy_row());
        }
        m = m + 1;
    }
    proof {
        assert(store.edge_props@.take(store.edge_props@.len() as int) =~= store.edge_props@);
    }
    store.edge_props = kept_eprops;
    proof {
        let oldnp = old(store).node_props@;
        let olde = old(store).edges@;
        let oldep = old(store).edge_props@;
        assert forall|a: int, b: int|
            0 <= a < b < store.node_props@.len() implies !((
            #[trigger] store.node_props@[a]).owner_id@ == (
            #[trigger] store.node_props@[b]).owner_id@ && store.node_props@[a].key@
            == store.node_props@[b].key@) by {
            crate::store::lemma_filter_distinct_by(
                oldnp,
                crate::store::not_owned_by(id@),
                |r: PropRow| (r.owner_id@, r.key@),
                a,
                b,
            );
        }
        assert forall|a: int, b: int|
            0 <= a < b < store.edges@.len() implies store.edges@[a].id@ != store.edges@[b].id@ by {
            crate::store::lemma_filter_distinct_by(
                olde,
                crate::store::not_touching(id@),
                |e: crate::store::EdgeRow| e.id@,
                a,
                b,
            );
        }
        assert forall|a: int, b: int|
            0 <= a < b < store.edge_props@.len() implies !((
            #[trigger] store.edge_props@[a]).owner_id@ == (
            #[trigger] store.edge_props@[b]).owner_id@ && store.edge_props@[a].key@
            == store.edge_props@[b].key@) by {
            crate::store::lemma_filter_distinct_by(
                oldep,
                crate::store::owner_among(store.edges@),
                |r: PropRow| (r.owner_id@, r.key@),
                a,
                b,
            );
        }
        // Kept node property rows: not the deleted node's, owner resolves, JSON intact.
        assert forall|n: int| 0 <= n < store.node_props@.len() implies has_node(
            store.nodes@,
            (#[trigger] store.node_props@[n]).owner_id@,
        ) && crate::props::is_json_text(store.node_props@[n].value@) by {
            crate::store::lemma_filter_member(oldnp, crate::store::not_owned_by(id@), n);
            let w = choose|w: int| 0 <= w < oldnp.len() && oldnp[w] == store.node_props@[n];
            assert(has_node(old(store).nodes@, store.node_props@[n].owner_id@));
        }
        // Kept edges: endpoints differ from the deleted id and still resolve.
        assert forall|n: int| 0 <= n < store.edges@.len() implies has_node(
            store.nodes@,
            (#[trigger] store.edges@[n]).from_node@,
        ) && has_node(store.nodes@, store.edges@[n].to_node@) by {
            crate::store::lemma_filter_member(olde, crate::store::not_touching(id@), n);
            let w = choose|w: int| 0 <= w < olde.len() && olde[w] == store.edges@[n];
            assert(olde[w].from_node@ == store.edges@[n].from_node@);
            assert(olde[w].to_node@ == store.edges@[n].to_node@);
            assert(has_node(old(store).nodes@, store.edges@[n].from_node@));
            assert(has_node(old(store).nodes@, store.edges@[n].to_node@));
        }
        // Kept edge property rows: owner resolves by construction, JSON intact.
        assert forall|n: int| 0 <= n < store.edge_props@.len() implies crate::store::has_edge(
            store.edges@,
            (#[trigger] store.edge_props@[n]).owner_id@,
        ) && crate::props::is_json_text(store.edge_props@[n].value@) by {
            crate::store::lemma_filter_member(
                oldep,
                crate::store::owner_among(store.edges@),
                n,
            );
            let w = choose|w: int| 0 <= w < oldep.len() && oldep[w] == store.edge_props@[n];
        }
        assert(store.wf());
    }
    Ok(())
}

/// Remove one property from a node; the key is normalized first, and a
/// key the node does not carry is a no-op.  The node's update timestamp
/// is refreshed exactly when a row was actually removed.  Fails with
/// `NotFound` exactly when the node id matches nothing.
#[verifier::rlimit(30)]
#[verifier::spinoff_prover]
pub fn delete_node_prop(store: &mut GraphStore, node_id: &String, key: &String) -> (r: Result<
    bool,
    GraphError,
>)
    requires
        old(store).wf(),
    ensures
        final(store).wf(),
        match r {
            Ok(existed) => {
                let kk = crate::props::norm_key_spec(key@);
                &&& has_node(old(store).nodes@, node_id@)
                &&& existed == crate::store::has_prop(old(store).node_props@, node_id@, kk)
                &&& (existed ==> final(store).node_props@ == old(store).node_props@.remove(
                    crate::store::prop_index_of(old(store).node_props@, node_id@, kk),
                ))
                &&& (!existed ==> *final(store) == *old(store))
                &&& !crate::store::has_prop(final(store).node_props@, node_id@, kk)
                &&& final(store).edges == old(store).edges
                &&& final(store).edge_props == old(store).edge_props
                &&& final(store).version == old(store).version
                &&& final(store).nodes@.len() == old(store).nodes@.len()
                &&& (existed ==> {
                    let idx = node_index_of(old(store).nodes@, node_id@);
                    &&& forall|j: int|
                        0 <= j < old(store).nodes@.len() && j != idx ==> final(store).nodes@[j]
                            == old(store).nodes@[j]
                    &&& final(store).nodes@[idx].id == old(store).nodes@[idx].id
                    &&& final(store).nodes@[idx].labels == old(store).nodes@[idx].labels
                    &&& final(store).nodes@[idx].created_at == old(store).nodes@[idx].created_at
                })
            },
            Err(e) => e == GraphError::NotFound && !has_node(old(store).nodes@, node_id@)
                && *final(store) == *old(store),
        },
{
    let i = match find_node_index(&store.nodes, node_id) {
        None => {
            return Err(GraphError::NotFound);
        }
        Some(i) => i,
    };
    proof {
        lemma_node_index_is(store.nodes@, node_id@, i as int);
    }
    let kk = crate::text::trim_text(key.as_str());
    let existed = crate::props::remove_prop_row(&mut store.node_props, node_id, &kk);
    if existed {
        let now = current_timestamp();
        let row = store.nodes.remove(i);
        let updated = NodeRow {
            id: row.id,
            labels: row.labels,
            created_at: row.created_at,
            updated_at: now,
        };
        store.nodes.insert(i, updated);
        proof {
            assert(store.nodes@ =~= old(store).nodes@.update(i as int, store.nodes@[i as int]));
            assert forall|j: int| 0 <= j < store.nodes@.len() implies (
            #[trigger] store.nodes@[j]).id@ == old(store).nodes@[j].id@ by {}
            crate::store::lemma_has_node_same_ids(old(store).nodes@, store.nodes@);
            assert forall|m: int| 0 <= m < store.node_props@.len() implies has_node(
                store.nodes@,
                (#[trigger] store.node_props@[m]).owner_id@,
            ) && crate::props::is_json_text(store.node_props@[m].value@) by {
                let idx = crate::store::prop_index_of(old(store).node_props@, node_id@, kk@);
                old(store).node_props@.remove_ensures(idx);
                let m0: int = if m < idx {
                    m
                } else {
                    m + 1
                };
                assert(store.node_props@[m] == old(store).node_props@[m0]);
            }
            assert forall|a: int, b: int|
                0 <= a < b < store.nodes@.len() implies store.nodes@[a].id@
                != store.nodes@[b].id@ by {
                assert(store.nodes@[a].id@ == old(store).nodes@[a].id@);
                assert(store.nodes@[b].id@ == old(store).nodes@[b].id@);
            }
            assert forall|k: int| 0 <= k < store.edges@.len() implies has_node(
                store.nodes@,
                #[trigger] store.edges@[k].from_node@,
            ) && has_node(store.nodes@, store.edges@[k].to_node@) by {
                assert(has_node(old(store).nodes@, store.edges@[k].from_node@));
                assert(has_node(old(store).nodes@, store.edges@[k].to_node@));
            }
            assert forall|k: int| 0 <= k < store.node_props@.len()
                implies crate::props::is_json_text(
                (#[trigger] store.node_props@[k]).value@,
            ) by {
                assert(has_node(store.nodes@, store.node_props@[k].owner_id@)
                    && crate::props::is_json_text(store.node_props@[k].value@));
            }
            assert(store.wf());
        }
    } else {
        proof {
            assert(*store == *old(store));
        }
    }
    Ok(existed)
}

/// List all nodes, each with its properties populated, in table order.
pub fn list_nodes(store: &GraphStore, params: &ListNodesParams) -> (r: Vec<DbNode>)
    ensures
        r@.len() == store.nodes@.len(),
        forall|i: int|
            0 <= i < r@.len() ==> node_from_row(
                #[trigger] r@[i],
                store.nodes@[i],
                store.node_props@,
                true,
            ),
{
    let mut out: Vec<DbNode> = Vec::new();
    let mut i: usize = 0;
    while i < store.nodes.len()
        invariant
            0 <= i <= store.nodes@.len(),
            out@.len() == i,
            forall|j: int|
                0 <= j < i ==> node_from_row(
                    #[trigger] out@[j],
                    store.nodes@[j],
                    store.node_props@,
                    true,
                ),
        decreases store.nodes@.len() - i,
    {
        let row = &store.nodes[i];
        let es = get_node_props(store, &row.id);
        out.push(
            DbNode {
                id: row.id.clone(),
                labels: clone_string_vec(&row.labels),
                props: Some(es),
                created_at: row.created_at.clone(),
                updated_at: row.updated_at.clone(),
            },
        );
        i = i + 1;
    }
    out
}

} // verus!
