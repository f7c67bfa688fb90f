//! The property store: the logic shared by nodes and edges for writing and
//! reading a flat key-to-JSON-value mapping attached to an owning entity.
//!
//! Keys are normalized once, at write time, by a single stated rule:
//! surrounding whitespace is trimmed and case is preserved, for nodes and
//! edges alike.  Values are normalized at write time too: a text that
//! parses as JSON is stored verbatim, any other text is stored as the JSON
//! string literal denoting it.  Reading returns what was stored.

use vstd::prelude::*;

use crate::errors::GraphError;
use crate::store::PropRow;
use crate::text::{first_index_of, find_first, trim_spec, trim_text};

verus! {

/// Whether a text is one well-formed JSON document.
pub uninterp spec fn is_json_text(s: Seq<char>) -> bool;

/// The JSON string literal denoting a text.
pub uninterp spec fn json_string_lit(s: Seq<char>) -> Seq<char>;

/// Relies on `serde_json::from_str::<serde_json::Value>`: whether a text
/// parses as JSON is a function of its characters alone.
#[verifier::external_body]
pub(crate) fn json_parses(s: &str) -> (b: bool)
    ensures
        b == is_json_text(s@),
{
    serde_json::from_str::<serde_json::Value>(s).is_ok()
}

/// Relies on `serde_json::to_string` applied to a string value: the JSON
/// string literal denoting the text, which serde_json documents to be a
/// well-formed JSON document; the result depends on the characters alone.
/// Serializing a plain string value cannot fail.
#[verifier::external_body]
fn json_quote(s: &str) -> (r: String)
    ensures
        r@ == json_string_lit(s@),
        is_json_text(r@),
{
    serde_json::to_string(&serde_json::Value::String(s.to_string())).unwrap()
}

/// The key-normalization rule: trim surrounding whitespace, preserve case.
pub open spec fn norm_key_spec(k: Seq<char>) -> Seq<char> {
    trim_spec(k)
}

/// The value-normalization rule: JSON text is kept verbatim, any other
/// text becomes the JSON string literal denoting it.
pub open spec fn norm_value_spec(v: Seq<char>) -> Seq<char> {
    if is_json_text(v) {
        v
    } else {
        json_string_lit(v)
    }
}

/// Normalize one property value for storage.
pub fn normalize_value(v: &str) -> (r: String)
    ensures
        r@ == norm_value_spec(v@),
        is_json_text(r@),
{
    if json_parses(v) {
        v.to_owned()
    } else {
        json_quote(v)
    }
}

/// One property handed to a create or update operation: the raw key and
/// the raw value text, before normalization.
#[derive(Debug)]
pub struct PropEntry {
    /// The property key, as supplied by the caller.
    pub key: String,
    /// The property value text, as supplied by the caller.
    pub value: String,
}

/// The verdict on a list of supplied properties, scanned in order: the
/// first entry whose normalized key is empty yields a validation failure,
/// the first entry repeating an earlier normalized key yields a
/// duplicate-key failure, and a clean list yields nothing.
pub open spec fn props_outcome(props: Seq<PropEntry>) -> Option<GraphError>
    decreases props.len(),
{
    if props.len() == 0 {
        None
    } else {
        match props_outcome(props.drop_last()) {
            Some(e) => Some(e),
            None => {
                let k = norm_key_spec(props.last().key@);
                if k.len() == 0 {
                    Some(GraphError::Validation)
                } else if exists|j: int|
                    0 <= j < props.len() - 1 && norm_key_spec(props[j].key@) == k {
                    Some(GraphError::DuplicateKey)
                } else {
                    None
                }
            }
        }
    }
}

/// A property verdict, when there is one, is always a validation or
/// duplicate-key failure.
pub proof fn lemma_props_outcome_kind(props: Seq<PropEntry>)
    ensures
        props_outcome(props) matches Some(e) ==> (e == GraphError::Validation || e
            == GraphError::DuplicateKey),
    decreases props.len(),
{
    if props.len() > 0 {
        lemma_props_outcome_kind(props.drop_last());
    }
}

/// A list whose normalized keys are all nonempty never draws the
/// validation verdict.
proof fn lemma_outcome_not_validation(props: Seq<PropEntry>)
    requires
        forall|k: int|
            0 <= k < props.len() ==> norm_key_spec((#[trigger] props[k]).key@).len() > 0,
    ensures
        props_outcome(props) != Some(GraphError::Validation),
    decreases props.len(),
{
    if props.len() > 0 {
        assert forall|k: int|
            0 <= k < props.drop_last().len() implies norm_key_spec(
            (#[trigger] props.drop_last()[k]).key@,
        ).len() > 0 by {
            assert(props.drop_last()[k] == props[k]);
        }
        lemma_outcome_not_validation(props.drop_last());
        assert(norm_key_spec(props.last().key@).len() > 0);
    }
}

/// A list that repeats a normalized key never passes the verdict.
proof fn lemma_outcome_some_on_dup(props: Seq<PropEntry>, k1: int, k2: int)
    requires
        0 <= k1 < k2 < props.len(),
        norm_key_spec(props[k1].key@) == norm_key_spec(props[k2].key@),
    ensures
        props_outcome(props) is Some,
    decreases props.len(),
{
    if props_outcome(props.drop_last()) is Some {
        // The verdict of the prefix is carried forward.
    } else if k2 < props.len() - 1 {
        lemma_outcome_some_on_dup(props.drop_last(), k1, k2);
    } else {
        // The repeated key is the last entry's: either it is empty, or
        // the earlier occurrence witnesses a duplicate.
        let k = norm_key_spec(props.last().key@);
        assert(props.last() == props[props.len() - 1]);
        if k.len() > 0 {
            assert(0 <= k1 < props.len() - 1 && norm_key_spec(props[k1].key@) == k);
        }
    }
}

/// Two supplied properties that normalize to the same key can never pass
/// the verdict, and when no supplied key normalizes to empty the verdict
/// is precisely the duplicate-key error.  With the create and update
/// contracts — which return the verdict's error and leave the store
/// untouched — this pins the atomicity of a duplicate-key failure.
pub proof fn lemma_duplicate_key_verdict(props: Seq<PropEntry>, k1: int, k2: int)
    requires
        0 <= k1 < k2 < props.len(),
        norm_key_spec(props[k1].key@) == norm_key_spec(props[k2].key@),
    ensures
        props_outcome(props) is Some,
        (forall|k: int|
            0 <= k < props.len() ==> norm_key_spec((#[trigger] props[k]).key@).len() > 0)
            ==> props_outcome(props) == Some(GraphError::DuplicateKey),
{
    lemma_outcome_some_on_dup(props, k1, k2);
    if forall|k: int|
        0 <= k < props.len() ==> norm_key_spec((#[trigger] props[k]).key@).len() > 0 {
        lemma_outcome_not_validation(props);
        lemma_props_outcome_kind(props);
    }
}

/// Once a prefix of the supplied properties is at fault, the whole list
/// is, with the same verdict.
proof fn lemma_props_outcome_prefix(props: Seq<PropEntry>, m: int)
    requires
        0 <= m <= props.len(),
        props_outcome(props.take(m)) is Some,
    ensures
        props_outcome(props) == props_outcome(props.take(m)),
    decreases props.len() - m,
{
    if m == props.len() {
        assert(props.take(m) =~= props);
    } else {
        assert(props.take(m + 1).drop_last() =~= props.take(m));
        lemma_props_outcome_prefix(props, m + 1);
    }
}

/// How one stored property row relates to the entry that produced it.
pub open spec fn prop_row_built(
    row: PropRow,
    owner: Seq<char>,
    entry: PropEntry,
    now: Seq<char>,
) -> bool {
    &&& row.owner_id@ == owner
    &&& row.key@ == norm_key_spec(entry.key@)
    &&& row.value@ == norm_value_spec(entry.value@)
    &&& row.created_at@ == now
    &&& row.updated_at@ == now
}

/// Build the property rows for one create operation: one row per supplied
/// entry, keys and values normalized, both timestamps set to `now`.
/// Fails without producing anything when a normalized key is empty or
/// repeats an earlier one, so the owning operation stays atomic.
pub(crate) fn build_prop_rows(owner: &String, props: &Vec<PropEntry>, now: &String) -> (r: Result<
    Vec<PropRow>,
    GraphError,
>)
    ensures
        match r {
            Ok(rows) => {
                &&& props_outcome(props@) is None
                &&& rows@.len() == props@.len()
                &&& forall|i: int|
                    0 <= i < props@.len() ==> prop_row_built(
                        #[trigger] rows@[i],
                        owner@,
                        props@[i],
                        now@,
                    )
                &&& forall|i: int, j: int|
                    0 <= i < j < rows@.len() ==> rows@[i].key@ != rows@[j].key@
                &&& forall|i: int| 0 <= i < rows@.len() ==> is_json_text(#[trigger] rows@[i].value@)
            },
            Err(e) => props_outcome(props@) == Some(e),
        },
{
    let mut rows: Vec<PropRow> = Vec::new();
    let mut i: usize = 0;
    while i < props.len()
        invariant
            0 <= i <= props.len(),
            props_outcome(props@.take(i as int)) is None,
            rows@.len() == i,
            forall|k: int|
                0 <= k < i ==> prop_row_built(#[trigger] rows@[k], owner@, props@[k], now@),
            forall|k: int, l: int| 0 <= k < l < i ==> rows@[k].key@ != rows@[l].key@,
            forall|k: int| 0 <= k < i ==> is_json_text(#[trigger] rows@[k].value@),
        decreases props.len() - i,
    {
        let key = trim_text(props[i].key.as_str());
        proof {
            assert(props@.take(i + 1).drop_last() =~= props@.take(i as int));
            assert(props@.take(i + 1).last() == props@[i as int]);
        }
        if key.unicode_len() == 0 {
            proof {
                assert(props_outcome(props@.take(i + 1)) == Some(GraphError::Validation));
                lemma_props_outcome_prefix(props@, i + 1);
            }
            return Err(GraphError::Validation);
        }
        let mut j: usize = 0;
        while j < rows.len()
            invariant
                0 <= j <= rows@.len(),
                rows@.len() == i < props@.len(),
                props_outcome(props@.take(i as int)) is None,
                key@ == norm_key_spec(props@[i as int].key@),
                key@.len() > 0,
                forall|k: int|
                    0 <= k < i ==> prop_row_built(#[trigger] rows@[k], owner@, props@[k], now@),
                forall|k: int| 0 <= k < j ==> rows@[k].key@ != key@,
            decreases rows@.len() - j,
        {
            if rows[j].key == key {
                proof {
                    assert(props@.take(i + 1).drop_last() =~= props@.take(i as int));
                    assert(props@.take(i + 1).last() == props@[i as int]);
                    assert(norm_key_spec(props@[j as int].key@) == rows@[j as int].key@);
                    assert(0 <= j < i && norm_key_spec(props@.take(i + 1)[j as int].key@) == key@);
                    assert(props_outcome(props@.take(i + 1).drop_last()) is None);
                    assert(norm_key_spec(props@.take(i + 1).last().key@) == key@);
                    assert(key@.len() > 0);
                    assert(exists|jj: int|
                        0 <= jj < props@.take(i + 1).len() - 1 && norm_key_spec(
                            #[trigger] props@.take(i + 1)[jj].key@,
                        ) == key@);
                    assert(props_outcome(props@.take(i + 1)) == Some(GraphError::DuplicateKey));
                    lemma_props_outcome_prefix(props@, i + 1);
                }
                return Err(GraphError::DuplicateKey);
            }
            j = j + 1;
        }
        proof {
            assert forall|jj: int| 0 <= jj < i implies norm_key_spec(
                #[trigger] props@.take(i + 1)[jj].key@,
            ) != key@ by {
                assert(rows@[jj].key@ == norm_key_spec(props@[jj].key@));
                assert(rows@[jj].key@ != key@);
            }
            assert(props_outcome(props@.take(i + 1)) is None);
        }
        let val = normalize_value(props[i].value.as_str());
        rows.push(
            PropRow {
                owner_id: owner.clone(),
                key,
                value: val,
                created_at: now.clone(),
                updated_at: now.clone(),
            },
        );
        i = i + 1;
    }
    proof {
        assert(props@.take(props@.len() as int) =~= props@);
    }
    Ok(rows)
}

/// Whether some entry of a set-properties batch normalizes to the given
/// key.
pub open spec fn sets_mention(sets: Seq<PropEntry>, key: Seq<char>) -> bool {
    exists|k: int| 0 <= k < sets.len() && norm_key_spec(sets[k].key@) == key
}

/// Whether some entry of a remove-properties list normalizes to the given
/// key.
pub open spec fn removes_mention(removes: Seq<String>, key: Seq<char>) -> bool {
    exists|k: int| 0 <= k < removes.len() && norm_key_spec(removes[k]@) == key
}

/// How one applied set-entry shows up in the new table: the normalized
/// key carries the normalized value, freshly stamped, and keeps its
/// creation instant when the key already existed.
pub open spec fn set_applied(
    old_rows: Seq<PropRow>,
    new_rows: Seq<PropRow>,
    owner: Seq<char>,
    entry: PropEntry,
    now: Seq<char>,
) -> bool {
    let kk = norm_key_spec(entry.key@);
    &&& crate::store::has_prop(new_rows, owner, kk)
    &&& crate::store::prop_at(new_rows, owner, kk).owner_id@ == owner
    &&& crate::store::prop_at(new_rows, owner, kk).key@ == kk
    &&& crate::store::prop_at(new_rows, owner, kk).value@ == norm_value_spec(entry.value@)
    &&& crate::store::prop_at(new_rows, owner, kk).updated_at@ == now
    &&& crate::store::prop_at(new_rows, owner, kk).created_at@ == (if crate::store::has_prop(
        old_rows,
        owner,
        kk,
    ) {
        crate::store::prop_at(old_rows, owner, kk).created_at@
    } else {
        now
    })
}

/// How the entries returned by a create operation mirror the supplied
/// ones after normalization.
pub open spec fn entries_normalized(es: Seq<PropEntry>, props: Seq<PropEntry>) -> bool {
    &&& es.len() == props.len()
    &&& forall|k: int|
        0 <= k < props.len() ==> (#[trigger] es[k]).key@ == norm_key_spec(props[k].key@)
            && es[k].value@ == norm_value_spec(props[k].value@)
}

/// How a sequence of returned entries mirrors a sequence of stored rows.
pub open spec fn entries_match_rows(entries: Seq<PropEntry>, rows: Seq<PropRow>) -> bool {
    &&& entries.len() == rows.len()
    &&& forall|i: int|
        0 <= i < rows.len() ==> (#[trigger] entries[i]).key@ == rows[i].key@ && entries[i].value@
            == rows[i].value@
}

/// Read all properties of one owner: the stored rows, in table order,
/// returned as key/value pairs of JSON text.
pub(crate) fn read_props_entries(rows: &Vec<PropRow>, owner: &String) -> (r: Vec<PropEntry>)
    ensures
        entries_match_rows(r@, crate::store::props_of(rows@, owner@)),
{
    let mut out: Vec<PropEntry> = Vec::new();
    let mut i: usize = 0;
    while i < rows.len()
        invariant
            0 <= i <= rows.len(),
            entries_match_rows(out@, crate::store::props_of(rows@.take(i as int), owner@)),
        decreases rows.len() - i,
    {
        proof {
            crate::store::lemma_filter_push(
                rows@.take(i as int),
                rows@[i as int],
                crate::store::owner_pred(owner@),
            );
            assert(rows@.take(i as int).push(rows@[i as int]) =~= rows@.take(i + 1));
        }
        if rows[i].owner_id == *owner {
            out.push(PropEntry { key: rows[i].key.clone(), value: rows[i].value.clone() });
        }
        i = i + 1;
    }
    proof {
        assert(rows@.take(rows@.len() as int) =~= rows@);
    }
    out
}

/// Insert or update one property row; the key and value are already
/// normalized.  An existing `(owner, key)` row keeps its place and its
/// creation timestamp and takes the new value; otherwise a fresh row is
/// appended with both timestamps set to `now`.
pub(crate) fn upsert_prop_row(
    rows: &mut Vec<PropRow>,
    owner: &String,
    key: &String,
    value: &String,
    now: &String,
) -> (existed: bool)
    requires
        crate::store::prop_pairs_unique(old(rows)@),
    ensures
        crate::store::prop_pairs_unique(final(rows)@),
        existed == crate::store::has_prop(old(rows)@, owner@, key@),
        existed ==> {
            let idx = crate::store::prop_index_of(old(rows)@, owner@, key@);
            &&& final(rows)@.len() == old(rows)@.len()
            &&& forall|j: int|
                0 <= j < old(rows)@.len() && j != idx ==> final(rows)@[j] == old(rows)@[j]
            &&& final(rows)@[idx].owner_id == old(rows)@[idx].owner_id
            &&& final(rows)@[idx].key == old(rows)@[idx].key
            &&& final(rows)@[idx].value == *value
            &&& final(rows)@[idx].created_at == old(rows)@[idx].created_at
            &&& final(rows)@[idx].updated_at == *now
        },
        !existed ==> {
            &&& final(rows)@.len() == old(rows)@.len() + 1
            &&& final(rows)@.drop_last() == old(rows)@
            &&& final(rows)@.last().owner_id == *owner
            &&& final(rows)@.last().key == *key
            &&& final(rows)@.last().value == *value
            &&& final(rows)@.last().created_at == *now
            &&& final(rows)@.last().updated_at == *now
        },
{
    match crate::store::find_prop_index(rows, owner, key) {
        Some(i) => {
            proof {
                crate::store::lemma_prop_index_is(rows@, owner@, key@, i as int);
            }
            let row = rows.remove(i);
            let updated = PropRow {
                owner_id: row.owner_id,
                key: row.key,
                value: value.clone(),
                created_at: row.created_at,
                updated_at: now.clone(),
            };
            rows.insert(i, updated);
            proof {
                assert(rows@ =~= old(rows)@.update(i as int, rows@[i as int]));
                assert forall|a: int, b: int|
                    0 <= a < b < rows@.len() implies !(rows@[a].owner_id@ == rows@[b].owner_id@
                    && rows@[a].key@ == rows@[b].key@) by {
                    assert(rows@[a].owner_id@ == old(rows)@[a].owner_id@ && rows@[a].key@ == old(
                        rows,
                    )@[a].key@);
                    assert(rows@[b].owner_id@ == old(rows)@[b].owner_id@ && rows@[b].key@ == old(
                        rows,
                    )@[b].key@);
                }
            }
            true
        }
        None => {
            rows.push(
                PropRow {
                    owner_id: owner.clone(),
                    key: key.clone(),
                    value: value.clone(),
                    created_at: now.clone(),
                    updated_at: now.clone(),
                },
            );
            proof {
                assert forall|a: int, b: int|
                    0 <= a < b < rows@.len() implies !(rows@[a].owner_id@ == rows@[b].owner_id@
                    && rows@[a].key@ == rows@[b].key@) by {
                    if b == rows@.len() - 1 {
                        if rows@[a].owner_id@ == owner@ && rows@[a].key@ == key@ {
                            assert(crate::store::has_prop(old(rows)@, owner@, key@));
                        }
                    }
                }
            }
            false
        }
    }
}

/// Remove one property row by owner and (already normalized) key; absent
/// keys are a no-op.  Afterwards the pair is certainly absent.
pub(crate) fn remove_prop_row(rows: &mut Vec<PropRow>, owner: &String, key: &String) -> (existed:
    bool)
    requires
        crate::store::prop_pairs_unique(old(rows)@),
    ensures
        crate::store::prop_pairs_unique(final(rows)@),
        existed == crate::store::has_prop(old(rows)@, owner@, key@),
        existed ==> final(rows)@ == old(rows)@.remove(
            crate::store::prop_index_of(old(rows)@, owner@, key@),
        ),
        !existed ==> *final(rows) == *old(rows),
        !crate::store::has_prop(final(rows)@, owner@, key@),
{
    match crate::store::find_prop_index(rows, owner, key) {
        Some(i) => {
            proof {
                crate::store::lemma_prop_index_is(rows@, owner@, key@, i as int);
                old(rows)@.remove_ensures(i as int);
            }
            rows.remove(i);
            proof {
                assert forall|a: int, b: int|
                    0 <= a < b < rows@.len() implies !(rows@[a].owner_id@ == rows@[b].owner_id@
                    && rows@[a].key@ == rows@[b].key@) by {
                    let a0: int = if a < i { a } else { a + 1 };
                    let b0: int = if b < i { b } else { b + 1 };
                    assert(rows@[a] == old(rows)@[a0]);
                    assert(rows@[b] == old(rows)@[b0]);
                }
                assert forall|j: int| 0 <= j < rows@.len() implies !((#[trigger] rows@[j]).owner_id@
                    == owner@ && rows@[j].key@ == key@) by {
                    let j0: int = if j < i { j } else { j + 1 };
                    assert(rows@[j] == old(rows)@[j0]);
                    if j0 != i {
                        assert(!(old(rows)@[j0].owner_id@ == old(rows)@[i as int].owner_id@ && old(
                            rows,
                        )@[j0].key@ == old(rows)@[i as int].key@));
                    }
                }
            }
            true
        }
        None => false,
    }
}

/// Split a raw `key=value` command argument at its first equals sign.
///
/// The key is the trimmed text before the sign and must be nonempty; the
/// value is everything after it, kept verbatim (it is normalized later, at
/// write time).  An argument without an equals sign, or with an all-space
/// key, is malformed.
pub fn parse_prop_arg(arg: &str) -> (r: Result<PropEntry, GraphError>)
    ensures
        match r {
            Ok(p) => first_index_of(arg@, '=') matches Some(i) && p.key@ == trim_spec(
                arg@.take(i),
            ) && p.key@.len() > 0 && p.value@ == arg@.skip(i + 1),
            Err(e) => {
                &&& e == GraphError::Validation
                &&& (first_index_of(arg@, '=') matches Some(i) ==> trim_spec(arg@.take(i)).len()
                    == 0)
            },
        },
{
    let n = arg.unicode_len();
    match find_first(arg, '=') {
        Some(i) => {
            let key_part = arg.substring_char(0, i);
            proof {
                assert(key_part@ =~= arg@.take(i as int));
            }
            let key = trim_text(key_part);
            if key.unicode_len() == 0 {
                return Err(GraphError::Validation);
            }
            let value_part = arg.substring_char(i + 1, n);
            proof {
                assert(value_part@ =~= arg@.skip(i + 1));
            }
            Ok(PropEntry { key, value: value_part.to_owned() })
        }
        None => Err(GraphError::Validation),
    }
}

} // verus!
