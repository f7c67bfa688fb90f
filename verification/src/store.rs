//! The storage model.
//!
//! The backing store is a relational file with five tables: a metadata
//! table holding the migration version, the node and edge tables, and one
//! property table per entity kind.  [`GraphStore`] models the contents of
//! that file as plain values; every repository operation is verified
//! against it, and the surrounding shell mirrors each successful operation
//! onto the real file.

use vstd::prelude::*;

use crate::props::is_json_text;

verus! {

/// One row of the node table: id (primary key), labels (kept in insertion
/// order), and the two timestamps, stored as RFC 3339 text.
pub struct NodeRow {
    /// The node's id, assigned once at creation.
    pub id: String,
    /// The node's labels, insertion order preserved.
    pub labels: Vec<String>,
    /// When the row was created.
    pub created_at: String,
    /// When the row was last changed.
    pub updated_at: String,
}

/// One row of a property table: the owning entity's id, the key (unique
/// per owner), and the value as JSON text.  The node and edge property
/// tables share this shape; their id columns are both modeled by
/// `owner_id`.
pub struct PropRow {
    /// The id of the owning node or edge.
    pub owner_id: String,
    /// The property key; `(owner_id, key)` is unique within a table.
    pub key: String,
    /// The property value, always one well-formed JSON document.
    pub value: String,
    /// When the row was created.
    pub created_at: String,
    /// When the row was last changed.
    pub updated_at: String,
}

/// One row of the edge table.
pub struct EdgeRow {
    /// The edge's id, assigned once at creation.
    pub id: String,
    /// The edge's type.
    pub edge_type: String,
    /// The source node's id; always an existing node.
    pub from_node: String,
    /// The target node's id; always an existing node.
    pub to_node: String,
    /// Whether the edge is directed.
    pub directed: bool,
    /// When the row was created.
    pub created_at: String,
    /// When the row was last changed.
    pub updated_at: String,
}

impl PropRow {
    /// An equal copy of the row.
    pub fn copy_row(&self) -> (r: Self)
        ensures
            r == *self,
    {
        PropRow {
            owner_id: self.owner_id.clone(),
            key: self.key.clone(),
            value: self.value.clone(),
            created_at: self.created_at.clone(),
            updated_at: self.updated_at.clone(),
        }
    }
}

impl EdgeRow {
    /// An equal copy of the row.
    pub fn copy_row(&self) -> (r: Self)
        ensures
            r == *self,
    {
        EdgeRow {
            id: self.id.clone(),
            edge_type: self.edge_type.clone(),
            from_node: self.from_node.clone(),
            to_node: self.to_node.clone(),
            directed: self.directed,
            created_at: self.created_at.clone(),
            updated_at: self.updated_at.clone(),
        }
    }
}

/// An equal copy of a vector of strings.
pub fn clone_string_vec(v: &Vec<String>) -> (r: Vec<String>)
    ensures
        r@ == v@,
{
    let mut r: Vec<String> = Vec::new();
    let mut i: usize = 0;
    while i < v.len()
        invariant
            0 <= i <= v.len(),
            r@ == v@.take(i as int),
        decreases v.len() - i,
    {
        r.push(v[i].clone());
        proof {
            assert(v@.take(i as int).push(v@[i as int]) =~= v@.take(i + 1));
        }
        i = i + 1;
    }
    proof {
        assert(v@.take(v@.len() as int) =~= v@);
    }
    r
}

/// Whether some row of the node table carries the given id.
pub open spec fn has_node(rows: Seq<NodeRow>, id: Seq<char>) -> bool {
    exists|i: int| 0 <= i < rows.len() && rows[i].id@ == id
}

/// The index of the node row carrying the given id (unique when the store
/// is well-formed).
pub open spec fn node_index_of(rows: Seq<NodeRow>, id: Seq<char>) -> int {
    choose|i: int| 0 <= i < rows.len() && rows[i].id@ == id
}

/// Whether some row of the edge table carries the given id.
pub open spec fn has_edge(rows: Seq<EdgeRow>, id: Seq<char>) -> bool {
    exists|i: int| 0 <= i < rows.len() && rows[i].id@ == id
}

/// The index of the edge row carrying the given id (unique when the store
/// is well-formed).
pub open spec fn edge_index_of(rows: Seq<EdgeRow>, id: Seq<char>) -> int {
    choose|i: int| 0 <= i < rows.len() && rows[i].id@ == id
}

/// No two node rows share an id.
pub open spec fn node_ids_unique(rows: Seq<NodeRow>) -> bool {
    forall|i: int, j: int| 0 <= i < j < rows.len() ==> rows[i].id@ != rows[j].id@
}

/// No two edge rows share an id.
pub open spec fn edge_ids_unique(rows: Seq<EdgeRow>) -> bool {
    forall|i: int, j: int| 0 <= i < j < rows.len() ==> rows[i].id@ != rows[j].id@
}

/// No two property rows share an `(owner, key)` pair.
pub open spec fn prop_pairs_unique(rows: Seq<PropRow>) -> bool {
    forall|i: int, j: int|
        0 <= i < j < rows.len() ==> !(rows[i].owner_id@ == rows[j].owner_id@ && rows[i].key@
            == rows[j].key@)
}

/// Whether the given owner has a property row under the given key.
pub open spec fn has_prop(rows: Seq<PropRow>, owner: Seq<char>, key: Seq<char>) -> bool {
    exists|i: int| 0 <= i < rows.len() && rows[i].owner_id@ == owner && rows[i].key@ == key
}

/// The index of the property row of the given owner and key (unique when
/// the store is well-formed).
pub open spec fn prop_index_of(rows: Seq<PropRow>, owner: Seq<char>, key: Seq<char>) -> int {
    choose|i: int| 0 <= i < rows.len() && rows[i].owner_id@ == owner && rows[i].key@ == key
}

/// The row of the given owner and key (meaningful when present).
pub open spec fn prop_at(rows: Seq<PropRow>, owner: Seq<char>, key: Seq<char>) -> PropRow {
    rows[prop_index_of(rows, owner, key)]
}

/// In a table with unique pairs, the chosen index of a pair is the index
/// of any row that carries it.
pub proof fn lemma_prop_index_is(rows: Seq<PropRow>, owner: Seq<char>, key: Seq<char>, i: int)
    requires
        prop_pairs_unique(rows),
        0 <= i < rows.len(),
        rows[i].owner_id@ == owner,
        rows[i].key@ == key,
    ensures
        has_prop(rows, owner, key),
        prop_index_of(rows, owner, key) == i,
        prop_at(rows, owner, key) == rows[i],
{
    assert(has_prop(rows, owner, key));
    let j = prop_index_of(rows, owner, key);
    if i < j {
        assert(!(rows[i].owner_id@ == rows[j].owner_id@ && rows[i].key@ == rows[j].key@));
    } else if j < i {
        assert(!(rows[j].owner_id@ == rows[i].owner_id@ && rows[j].key@ == rows[i].key@));
    }
}

/// The predicate selecting the property rows of every other owner.
pub open spec fn not_owned_by(owner: Seq<char>) -> spec_fn(PropRow) -> bool {
    |r: PropRow| r.owner_id@ != owner
}

/// The predicate selecting the property rows of one owner.
pub open spec fn owner_pred(owner: Seq<char>) -> spec_fn(PropRow) -> bool {
    |r: PropRow| r.owner_id@ == owner
}

/// The property rows belonging to one owner, in table order.
pub open spec fn props_of(rows: Seq<PropRow>, owner: Seq<char>) -> Seq<PropRow> {
    rows.filter(owner_pred(owner))
}

/// The predicate selecting the edges that touch neither endpoint of a
/// node being removed.
pub open spec fn not_touching(id: Seq<char>) -> spec_fn(EdgeRow) -> bool {
    |e: EdgeRow| e.from_node@ != id && e.to_node@ != id
}

/// The predicate selecting the property rows whose owning edge is in the
/// given table.
pub open spec fn owner_among(edges: Seq<EdgeRow>) -> spec_fn(PropRow) -> bool {
    |r: PropRow| has_edge(edges, r.owner_id@)
}

/// Replace one node row in place.
pub(crate) fn replace_node_row(rows: &mut Vec<NodeRow>, i: usize, row: NodeRow)
    requires
        i < old(rows)@.len(),
    ensures
        final(rows)@ == old(rows)@.update(i as int, row),
{
    rows.remove(i);
    rows.insert(i, row);
    proof {
        assert(rows@ =~= old(rows)@.update(i as int, rows@[i as int]));
    }
}

/// Replace one edge row in place.
pub(crate) fn replace_edge_row(rows: &mut Vec<EdgeRow>, i: usize, row: EdgeRow)
    requires
        i < old(rows)@.len(),
    ensures
        final(rows)@ == old(rows)@.update(i as int, row),
{
    rows.remove(i);
    rows.insert(i, row);
    proof {
        assert(rows@ =~= old(rows)@.update(i as int, rows@[i as int]));
    }
}

/// Two node tables whose rows carry the same ids resolve the same ids.
pub proof fn lemma_has_node_same_ids(a: Seq<NodeRow>, b: Seq<NodeRow>)
    requires
        a.len() == b.len(),
        forall|i: int| 0 <= i < a.len() ==> a[i].id@ == b[i].id@,
    ensures
        forall|id: Seq<char>| #[trigger] has_node(a, id) <==> #[trigger] has_node(b, id),
{
    assert forall|id: Seq<char>| #[trigger] has_node(a, id) <==> #[trigger] has_node(b, id) by {
        if has_node(a, id) {
            let i = choose|i: int| 0 <= i < a.len() && a[i].id@ == id;
            assert(b[i].id@ == id);
        }
        if has_node(b, id) {
            let i = choose|i: int| 0 <= i < b.len() && b[i].id@ == id;
            assert(a[i].id@ == id);
        }
    }
}

/// Two edge tables whose rows carry the same ids resolve the same ids.
pub proof fn lemma_has_edge_same_ids(a: Seq<EdgeRow>, b: Seq<EdgeRow>)
    requires
        a.len() == b.len(),
        forall|i: int| 0 <= i < a.len() ==> a[i].id@ == b[i].id@,
    ensures
        forall|id: Seq<char>| #[trigger] has_edge(a, id) <==> #[trigger] has_edge(b, id),
{
    assert forall|id: Seq<char>| #[trigger] has_edge(a, id) <==> #[trigger] has_edge(b, id) by {
        if has_edge(a, id) {
            let i = choose|i: int| 0 <= i < a.len() && a[i].id@ == id;
            assert(b[i].id@ == id);
        }
        if has_edge(b, id) {
            let i = choose|i: int| 0 <= i < b.len() && b[i].id@ == id;
            assert(a[i].id@ == id);
        }
    }
}

/// Appending a node row finds an id exactly when the old table had it or
/// the new row carries it.
pub proof fn lemma_has_node_push(rows: Seq<NodeRow>, x: NodeRow, id: Seq<char>)
    ensures
        has_node(rows.push(x), id) <==> (has_node(rows, id) || x.id@ == id),
{
    if has_node(rows, id) {
        let i = choose|i: int| 0 <= i < rows.len() && rows[i].id@ == id;
        assert(rows.push(x)[i].id@ == id);
    }
    if x.id@ == id {
        assert(rows.push(x)[rows.len() as int].id@ == id);
    }
    if has_node(rows.push(x), id) {
        let i = choose|i: int| 0 <= i < rows.push(x).len() && rows.push(x)[i].id@ == id;
        if i < rows.len() {
            assert(rows[i].id@ == id);
        }
    }
}

/// Appending an edge row finds an id exactly when the old table had it or
/// the new row carries it.
pub proof fn lemma_has_edge_push(rows: Seq<EdgeRow>, x: EdgeRow, id: Seq<char>)
    ensures
        has_edge(rows.push(x), id) <==> (has_edge(rows, id) || x.id@ == id),
{
    if has_edge(rows, id) {
        let i = choose|i: int| 0 <= i < rows.len() && rows[i].id@ == id;
        assert(rows.push(x)[i].id@ == id);
    }
    if x.id@ == id {
        assert(rows.push(x)[rows.len() as int].id@ == id);
    }
    if has_edge(rows.push(x), id) {
        let i = choose|i: int| 0 <= i < rows.push(x).len() && rows.push(x)[i].id@ == id;
        if i < rows.len() {
            assert(rows[i].id@ == id);
        }
    }
}

/// Every element of a filtered sequence is an element of the original
/// that satisfies the predicate.
pub proof fn lemma_filter_member<A>(s: Seq<A>, pred: spec_fn(A) -> bool, j: int)
    requires
        0 <= j < s.filter(pred).len(),
    ensures
        s.contains(s.filter(pred)[j]),
        pred(s.filter(pred)[j]),
    decreases s.len(),
{
    reveal(Seq::filter);
    if s.len() > 0 {
        let d = s.drop_last();
        if pred(s.last()) && j == s.filter(pred).len() - 1 {
            assert(s.filter(pred)[j] == s.last());
            assert(s[s.len() - 1] == s.last());
        } else {
            lemma_filter_member(d, pred, j);
            let i = choose|i: int| 0 <= i < d.len() && d[i] == d.filter(pred)[j];
            assert(s[i] == d.filter(pred)[j]);
        }
    }
}

/// Filtering keeps any projection of the elements distinct.
pub proof fn lemma_filter_distinct_by<A, K>(s: Seq<A>, pred: spec_fn(A) -> bool, key: spec_fn(A) -> K, i: int, j: int)
    requires
        forall|a: int, b: int| 0 <= a < b < s.len() ==> key(s[a]) != key(s[b]),
        0 <= i < j < s.filter(pred).len(),
    ensures
        key(s.filter(pred)[i]) != key(s.filter(pred)[j]),
    decreases s.len(),
{
    reveal(Seq::filter);
    let d = s.drop_last();
    assert(forall|a: int, b: int| 0 <= a < b < d.len() ==> key(#[trigger] d[a]) != key(#[trigger] d[b]));
    if pred(s.last()) && j == s.filter(pred).len() - 1 {
        assert(s.filter(pred)[j] == s.last());
        lemma_filter_member(d, pred, i);
        let a = choose|a: int| 0 <= a < d.len() && d[a] == d.filter(pred)[i];
        assert(key(s[a]) != key(s[s.len() - 1]));
    } else {
        lemma_filter_distinct_by(d, pred, key, i, j);
    }
}

/// A filter that rejects every element yields the empty sequence.
pub proof fn lemma_filter_none<A>(s: Seq<A>, pred: spec_fn(A) -> bool)
    requires
        forall|i: int| 0 <= i < s.len() ==> !pred(#[trigger] s[i]),
    ensures
        s.filter(pred) == Seq::<A>::empty(),
    decreases s.len(),
{
    reveal(Seq::filter);
    if s.len() > 0 {
        lemma_filter_none(s.drop_last(), pred);
    }
}

/// A filter that accepts every element yields the sequence itself.
pub proof fn lemma_filter_all<A>(s: Seq<A>, pred: spec_fn(A) -> bool)
    requires
        forall|i: int| 0 <= i < s.len() ==> pred(#[trigger] s[i]),
    ensures
        s.filter(pred) == s,
    decreases s.len(),
{
    reveal(Seq::filter);
    if s.len() > 0 {
        lemma_filter_all(s.drop_last(), pred);
        assert(s.drop_last().push(s.last()) =~= s);
    }
}

/// Removing an element the filter rejects leaves the filtered sequence
/// unchanged.
pub proof fn lemma_filter_remove_failing<A>(s: Seq<A>, pred: spec_fn(A) -> bool, i: int)
    requires
        0 <= i < s.len(),
        !pred(s[i]),
    ensures
        s.remove(i).filter(pred) == s.filter(pred),
{
    let a = s.subrange(0, i);
    let b = s.subrange(i + 1, s.len() as int);
    let mid = seq![s[i]];
    assert(s =~= a + (mid + b));
    Seq::filter_distributes_over_add(a, mid + b, pred);
    Seq::filter_distributes_over_add(mid, b, pred);
    reveal(Seq::filter);
    assert(Seq::<A>::empty().filter(pred) =~= Seq::<A>::empty());
    assert(mid.drop_last() =~= Seq::<A>::empty());
    assert(mid.last() == s[i]);
    assert(mid.filter(pred) =~= Seq::<A>::empty());
    assert(s.remove(i) =~= a + b);
    Seq::filter_distributes_over_add(a, b, pred);
    assert(s.remove(i).filter(pred) =~= s.filter(pred));
}

/// Updating an element the filter rejects with another it also rejects
/// leaves the filtered sequence unchanged.
pub proof fn lemma_filter_update_failing<A>(s: Seq<A>, pred: spec_fn(A) -> bool, i: int, x: A)
    requires
        0 <= i < s.len(),
        !pred(s[i]),
        !pred(x),
    ensures
        s.update(i, x).filter(pred) == s.filter(pred),
{
    let a = s.subrange(0, i);
    let b = s.subrange(i + 1, s.len() as int);
    let mid = seq![s[i]];
    let midx = seq![x];
    assert(s =~= a + (mid + b));
    assert(s.update(i, x) =~= a + (midx + b));
    Seq::filter_distributes_over_add(a, mid + b, pred);
    Seq::filter_distributes_over_add(mid, b, pred);
    Seq::filter_distributes_over_add(a, midx + b, pred);
    Seq::filter_distributes_over_add(midx, b, pred);
    reveal(Seq::filter);
    assert(Seq::<A>::empty().filter(pred) =~= Seq::<A>::empty());
    assert(mid.drop_last() =~= Seq::<A>::empty());
    assert(mid.last() == s[i]);
    assert(mid.filter(pred) =~= Seq::<A>::empty());
    assert(midx.drop_last() =~= Seq::<A>::empty());
    assert(midx.last() == x);
    assert(midx.filter(pred) =~= Seq::<A>::empty());
    assert(s.update(i, x).filter(pred) =~= s.filter(pred));
}

/// Filtering one more element keeps the filtered prefix and appends the
/// element exactly when it satisfies the predicate.
pub proof fn lemma_filter_push<A>(s: Seq<A>, x: A, pred: spec_fn(A) -> bool)
    ensures
        s.push(x).filter(pred) == if pred(x) {
            s.filter(pred).push(x)
        } else {
            s.filter(pred)
        },
{
    reveal(Seq::filter);
    assert(s.push(x).drop_last() =~= s);
    assert(s.push(x).last() == x);
}

/// The modeled contents of the storage file.
pub struct GraphStore {
    /// The stored migration version; `None` models an absent metadata row.
    pub version: Option<i64>,
    /// The node table.
    pub nodes: Vec<NodeRow>,
    /// The node property table.
    pub node_props: Vec<PropRow>,
    /// The edge table.
    pub edges: Vec<EdgeRow>,
    /// The edge property table.
    pub edge_props: Vec<PropRow>,
}

impl GraphStore {
    /// The store's invariants: ids are primary keys, property rows are
    /// keyed by `(owner, key)`, every edge endpoint names an existing
    /// node, no property row is orphaned, and every stored property value
    /// is well-formed JSON text.
    pub open spec fn wf(self) -> bool {
        &&& node_ids_unique(self.nodes@)
        &&& edge_ids_unique(self.edges@)
        &&& prop_pairs_unique(self.node_props@)
        &&& prop_pairs_unique(self.edge_props@)
        &&& forall|i: int|
            0 <= i < self.edges@.len() ==> has_node(self.nodes@, #[trigger] self.edges@[i].from_node@)
                && has_node(self.nodes@, self.edges@[i].to_node@)
        &&& forall|i: int|
            0 <= i < self.node_props@.len() ==> has_node(
                self.nodes@,
                #[trigger] self.node_props@[i].owner_id@,
            )
        &&& forall|i: int|
            0 <= i < self.edge_props@.len() ==> has_edge(
                self.edges@,
                #[trigger] self.edge_props@[i].owner_id@,
            )
        &&& forall|i: int|
            0 <= i < self.node_props@.len() ==> is_json_text(#[trigger] self.node_props@[i].value@)
        &&& forall|i: int|
            0 <= i < self.edge_props@.len() ==> is_json_text(#[trigger] self.edge_props@[i].value@)
    }

    /// A model of a storage file that does not exist yet: no metadata row
    /// and no table contents.
    pub fn empty() -> (r: Self)
        ensures
            r.version is None,
            r.nodes@.len() == 0,
            r.node_props@.len() == 0,
            r.edges@.len() == 0,
            r.edge_props@.len() == 0,
            r.wf(),
    {
        GraphStore {
            version: None,
            nodes: Vec::new(),
            node_props: Vec::new(),
            edges: Vec::new(),
            edge_props: Vec::new(),
        }
    }
}

/// Find the node row with the given id.
pub(crate) fn find_node_index(rows: &Vec<NodeRow>, id: &String) -> (r: Option<usize>)
    ensures
        match r {
            Some(i) => i < rows@.len() && rows@[i as int].id@ == id@,
            None => !has_node(rows@, id@),
        },
{
    let mut i: usize = 0;
    while i < rows.len()
        invariant
            0 <= i <= rows.len(),
            forall|k: int| 0 <= k < i ==> rows@[k].id@ != id@,
        decreases rows.len() - i,
    {
        if rows[i].id == *id {
            return Some(i);
        }
        i = i + 1;
    }
    None
}

/// Find the edge row with the given id.
pub(crate) fn find_edge_index(rows: &Vec<EdgeRow>, id: &String) -> (r: Option<usize>)
    ensures
        match r {
            Some(i) => i < rows@.len() && rows@[i as int].id@ == id@,
            None => !has_edge(rows@, id@),
        },
{
    let mut i: usize = 0;
    while i < rows.len()
        invariant
            0 <= i <= rows.len(),
            forall|k: int| 0 <= k < i ==> rows@[k].id@ != id@,
        decreases rows.len() - i,
    {
        if rows[i].id == *id {
            return Some(i);
        }
        i = i + 1;
    }
    None
}

/// Find the property row of the given owner and key.
pub(crate) fn find_prop_index(rows: &Vec<PropRow>, owner: &String, key: &String) -> (r: Option<
    usize,
>)
    ensures
        match r {
            Some(i) => i < rows@.len() && rows@[i as int].owner_id@ == owner@ && rows@[i as int].key@
                == key@,
            None => !has_prop(rows@, owner@, key@),
        },
{
    let mut i: usize = 0;
    while i < rows.len()
        invariant
            0 <= i <= rows.len(),
            forall|k: int|
                0 <= k < i ==> !(rows@[k].owner_id@ == owner@ && rows@[k].key@ == key@),
        decreases rows.len() - i,
    {
        if rows[i].owner_id == *owner && rows[i].key == *key {
            return Some(i);
        }
        i = i + 1;
    }
    None
}

/// In a table with unique ids, the chosen index of an id is the index of
/// any row that carries it.
pub proof fn lemma_node_index_is(rows: Seq<NodeRow>, id: Seq<char>, i: int)
    requires
        node_ids_unique(rows),
        0 <= i < rows.len(),
        rows[i].id@ == id,
    ensures
        has_node(rows, id),
        node_index_of(rows, id) == i,
{
    assert(has_node(rows, id));
    let j = node_index_of(rows, id);
    if i < j {
        assert(rows[i].id@ != rows[j].id@);
    } else if j < i {
        assert(rows[j].id@ != rows[i].id@);
    }
}

/// In a table with unique ids, the chosen index of an id is the index of
/// any row that carries it.
pub proof fn lemma_edge_index_is(rows: Seq<EdgeRow>, id: Seq<char>, i: int)
    requires
        edge_ids_unique(rows),
        0 <= i < rows.len(),
        rows[i].id@ == id,
    ensures
        has_edge(rows, id),
        edge_index_of(rows, id) == i,
{
    assert(has_edge(rows, id));
    let j = edge_index_of(rows, id);
    if i < j {
        assert(rows[i].id@ != rows[j].id@);
    } else if j < i {
        assert(rows[j].id@ != rows[i].id@);
    }
}

/// Check whether a node with the given id exists.  No side effects.
pub fn check_node_exists(store: &GraphStore, id: &String) -> (r: bool)
    ensures
        r == has_node(store.nodes@, id@),
{
    match find_node_index(&store.nodes, id) {
        Some(i) => {
            proof {
                assert(has_node(store.nodes@, id@));
            }
            true
        }
        None => false,
    }
}

/// Check whether an edge with the given id exists.  No side effects.
pub fn check_edge_exists(store: &GraphStore, id: &String) -> (r: bool)
    ensures
        r == has_edge(store.edges@, id@),
{
    match find_edge_index(&store.edges, id) {
        Some(i) => {
            proof {
                assert(has_edge(store.edges@, id@));
            }
            true
        }
        None => false,
    }
}

} // verus!
