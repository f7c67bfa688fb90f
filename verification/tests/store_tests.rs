//! Tests for the graph store: creation, lookup, traversal, updates, and
//! deletion against an in-memory model of the storage file.

use graphctl::edges::{create_edge, delete_edge, delete_edge_prop, get_edge, list_edges,
    set_edge_prop, update_edge, CreateEdgeParams, GetEdgeParams, ListEdgesParams, UpdateEdgeParams};
use graphctl::errors::{Endpoint, GraphError};
use graphctl::migrate::{init_db, SCHEMA_VERSION};
use graphctl::nodes::{create_node, delete_node, delete_node_prop, get_node, list_nodes,
    set_node_prop, update_node, CreateNodeParams, GetNodeParams, ListNodesParams, UpdateNodeParams};
use graphctl::props::PropEntry;
use graphctl::store::{check_edge_exists, check_node_exists, GraphStore};
use graphctl::traverse::{get_node_edges_in, get_node_edges_out};

fn fresh_store() -> GraphStore {
    let mut store = GraphStore::empty();
    init_db(&mut store);
    store
}

fn prop(key: &str, value: &str) -> PropEntry {
    PropEntry { key: key.to_string(), value: value.to_string() }
}

fn make_node(store: &mut GraphStore, labels: &[&str]) -> String {
    let params = CreateNodeParams {
        labels: labels.iter().map(|l| l.to_string()).collect(),
        props: Vec::new(),
    };
    create_node(store, &params).unwrap().id
}

#[test]
fn create_then_get_round_trip() {
    let mut store = fresh_store();
    let params = CreateNodeParams {
        labels: vec!["Person".to_string()],
        props: vec![prop("name", "Ada")],
    };
    let node = create_node(&mut store, &params).unwrap();
    let fetched = get_node(&store, &GetNodeParams { id: node.id.clone(), with_props: true })
        .unwrap();
    assert_eq!(fetched.labels, vec!["Person".to_string()]);
    let props = fetched.props.unwrap();
    assert_eq!(props.len(), 1);
    assert_eq!(props[0].key, "name");
    // "Ada" is not JSON, so it is stored as the JSON string literal.
    assert_eq!(props[0].value, "\"Ada\"");
    let decoded: serde_json::Value = serde_json::from_str(&props[0].value).unwrap();
    assert_eq!(decoded, serde_json::Value::String("Ada".to_string()));
}

#[test]
fn create_node_keeps_json_values_verbatim() {
    let mut store = fresh_store();
    let params = CreateNodeParams {
        labels: Vec::new(),
        props: vec![prop("count", "7"), prop("flag", "true"), prop("note", "hello world")],
    };
    let node = create_node(&mut store, &params).unwrap();
    let fetched = get_node(&store, &GetNodeParams { id: node.id, with_props: true }).unwrap();
    let props = fetched.props.unwrap();
    assert_eq!(props[0].value, "7");
    assert_eq!(props[1].value, "true");
    assert_eq!(props[2].value, "\"hello world\"");
}

#[test]
fn create_node_trims_property_keys() {
    let mut store = fresh_store();
    let params = CreateNodeParams { labels: Vec::new(), props: vec![prop("  name \t", "1")] };
    let node = create_node(&mut store, &params).unwrap();
    let fetched = get_node(&store, &GetNodeParams { id: node.id, with_props: true }).unwrap();
    assert_eq!(fetched.props.unwrap()[0].key, "name");

    // Unicode whitespace is trimmed too, and two keys that trim to the
    // same text count as duplicates.
    let params2 = CreateNodeParams {
        labels: Vec::new(),
        props: vec![prop("\u{00A0}city\u{00A0}", "1")],
    };
    let node2 = create_node(&mut store, &params2).unwrap();
    let fetched2 = get_node(&store, &GetNodeParams { id: node2.id, with_props: true }).unwrap();
    assert_eq!(fetched2.props.unwrap()[0].key, "city");
    let params3 = CreateNodeParams {
        labels: Vec::new(),
        props: vec![prop("city", "1"), prop("\u{2003}city", "2")],
    };
    assert_eq!(create_node(&mut store, &params3).unwrap_err(), GraphError::DuplicateKey);
}

#[test]
fn duplicate_property_key_is_atomic() {
    let mut store = fresh_store();
    let params = CreateNodeParams {
        labels: vec!["Person".to_string()],
        props: vec![prop("k", "1"), prop("k ", "2")],
    };
    let err = create_node(&mut store, &params).unwrap_err();
    assert_eq!(err, GraphError::DuplicateKey);
    assert!(list_nodes(&store, &ListNodesParams).is_empty());
    assert!(store.node_props.is_empty());
}

#[test]
fn empty_property_key_is_rejected() {
    let mut store = fresh_store();
    let params = CreateNodeParams { labels: Vec::new(), props: vec![prop("   ", "1")] };
    assert_eq!(create_node(&mut store, &params).unwrap_err(), GraphError::Validation);
    assert!(store.nodes.is_empty());
}

#[test]
fn edge_requires_existing_endpoints() {
    let mut store = fresh_store();
    let b = make_node(&mut store, &["Person"]);
    let params = CreateEdgeParams {
        edge_type: "knows".to_string(),
        from_node: "missing-id".to_string(),
        to_node: b.clone(),
        directed: true,
        props: Vec::new(),
    };
    let err = create_edge(&mut store, &params).unwrap_err();
    assert_eq!(err, GraphError::Reference(Endpoint::From));
    assert!(store.edges.is_empty());
    assert!(store.edge_props.is_empty());

    let params2 = CreateEdgeParams {
        edge_type: "knows".to_string(),
        from_node: b,
        to_node: "missing-id".to_string(),
        directed: true,
        props: Vec::new(),
    };
    assert_eq!(
        create_edge(&mut store, &params2).unwrap_err(),
        GraphError::Reference(Endpoint::To)
    );
    assert!(store.edges.is_empty());
}

#[test]
fn undirected_edge_is_symmetric() {
    let mut store = fresh_store();
    let a = make_node(&mut store, &["A"]);
    let b = make_node(&mut store, &["B"]);
    let edge = create_edge(
        &mut store,
        &CreateEdgeParams {
            edge_type: "knows".to_string(),
            from_node: a.clone(),
            to_node: b.clone(),
            directed: false,
            props: Vec::new(),
        },
    )
    .unwrap();
    assert!(get_node_edges_out(&store, &a).contains(&edge.id));
    assert!(get_node_edges_in(&store, &b).contains(&edge.id));
    assert!(get_node_edges_out(&store, &b).contains(&edge.id));
    assert!(get_node_edges_in(&store, &a).contains(&edge.id));
}

#[test]
fn directed_edge_is_asymmetric() {
    let mut store = fresh_store();
    let a = make_node(&mut store, &["A"]);
    let b = make_node(&mut store, &["B"]);
    let edge = create_edge(
        &mut store,
        &CreateEdgeParams {
            edge_type: "knows".to_string(),
            from_node: a.clone(),
            to_node: b.clone(),
            directed: true,
            props: Vec::new(),
        },
    )
    .unwrap();
    assert!(get_node_edges_out(&store, &a).contains(&edge.id));
    assert!(!get_node_edges_in(&store, &a).contains(&edge.id));
    assert!(get_node_edges_in(&store, &b).contains(&edge.id));
    assert!(!get_node_edges_out(&store, &b).contains(&edge.id));
}

#[test]
fn self_loop_appears_once_per_query() {
    let mut store = fresh_store();
    let a = make_node(&mut store, &["A"]);
    let edge = create_edge(
        &mut store,
        &CreateEdgeParams {
            edge_type: "self".to_string(),
            from_node: a.clone(),
            to_node: a.clone(),
            directed: false,
            props: Vec::new(),
        },
    )
    .unwrap();
    let outgoing = get_node_edges_out(&store, &a);
    assert_eq!(outgoing, vec![edge.id.clone()]);
    let incoming = get_node_edges_in(&store, &a);
    assert_eq!(incoming, vec![edge.id]);
}

#[test]
fn migration_is_idempotent() {
    let mut store = GraphStore::empty();
    assert_eq!(store.version, None);
    let steps = init_db(&mut store);
    assert_eq!(store.version, Some(SCHEMA_VERSION));
    assert_eq!(steps.len(), 1);
    assert_eq!(steps[0].ordinal, SCHEMA_VERSION);
    assert_eq!(steps[0].statements.len(), 4);
    let steps_again = init_db(&mut store);
    assert_eq!(store.version, Some(SCHEMA_VERSION));
    assert!(steps_again.is_empty());
}

#[test]
fn delete_node_cascades() {
    let mut store = fresh_store();
    let a = create_node(
        &mut store,
        &CreateNodeParams { labels: vec!["A".to_string()], props: vec![prop("p", "1")] },
    )
    .unwrap()
    .id;
    let b = make_node(&mut store, &["B"]);
    let edge = create_edge(
        &mut store,
        &CreateEdgeParams {
            edge_type: "knows".to_string(),
            from_node: a.clone(),
            to_node: b.clone(),
            directed: true,
            props: vec![prop("since", "2020")],
        },
    )
    .unwrap();
    delete_node(&mut store, &a).unwrap();
    assert!(!check_node_exists(&store, &a));
    assert!(check_node_exists(&store, &b));
    assert!(!check_edge_exists(&store, &edge.id));
    assert!(store.edges.is_empty());
    assert!(store.node_props.is_empty());
    assert!(store.edge_props.is_empty());
    assert_eq!(delete_node(&mut store, &a).unwrap_err(), GraphError::NotFound);
}

#[test]
fn delete_edge_keeps_nodes() {
    let mut store = fresh_store();
    let a = make_node(&mut store, &["A"]);
    let b = make_node(&mut store, &["B"]);
    let edge = create_edge(
        &mut store,
        &CreateEdgeParams {
            edge_type: "knows".to_string(),
            from_node: a.clone(),
            to_node: b.clone(),
            directed: true,
            props: vec![prop("since", "2020")],
        },
    )
    .unwrap();
    delete_edge(&mut store, &edge.id).unwrap();
    assert!(!check_edge_exists(&store, &edge.id));
    assert!(store.edge_props.is_empty());
    assert!(check_node_exists(&store, &a));
    assert!(check_node_exists(&store, &b));
    assert_eq!(delete_edge(&mut store, &edge.id).unwrap_err(), GraphError::NotFound);
}

#[test]
fn get_node_not_found() {
    let store = fresh_store();
    let err = get_node(&store, &GetNodeParams { id: "n-missing".to_string(), with_props: false })
        .unwrap_err();
    assert_eq!(err, GraphError::NotFound);
}

#[test]
fn get_edge_not_found() {
    let store = fresh_store();
    let err = get_edge(&store, &GetEdgeParams { id: "e-missing".to_string(), with_props: false })
        .unwrap_err();
    assert_eq!(err, GraphError::NotFound);
}

#[test]
fn get_node_without_props() {
    let mut store = fresh_store();
    let a = create_node(
        &mut store,
        &CreateNodeParams { labels: Vec::new(), props: vec![prop("p", "1")] },
    )
    .unwrap()
    .id;
    let fetched = get_node(&store, &GetNodeParams { id: a, with_props: false }).unwrap();
    assert!(fetched.props.is_none());
}

#[test]
fn list_nodes_and_edges() {
    let mut store = fresh_store();
    let a = make_node(&mut store, &["A"]);
    let b = make_node(&mut store, &["B"]);
    create_edge(
        &mut store,
        &CreateEdgeParams {
            edge_type: "knows".to_string(),
            from_node: a,
            to_node: b,
            directed: true,
            props: Vec::new(),
        },
    )
    .unwrap();
    assert_eq!(list_nodes(&store, &ListNodesParams).len(), 2);
    let edges = list_edges(&store, &ListEdgesParams);
    assert_eq!(edges.len(), 1);
    assert_eq!(edges[0].edge_type, "knows");
}

#[test]
fn update_node_labels_are_idempotent() {
    let mut store = fresh_store();
    let a = make_node(&mut store, &["Person", "Admin"]);
    let updated = update_node(
        &mut store,
        &UpdateNodeParams {
            id: a.clone(),
            add_labels: vec!["Admin".to_string(), "Owner".to_string()],
            remove_labels: vec!["Ghost".to_string()],
            set_props: Vec::new(),
            remove_props: Vec::new(),
        },
    )
    .unwrap();
    assert_eq!(
        updated.labels,
        vec!["Person".to_string(), "Admin".to_string(), "Owner".to_string()]
    );
    let updated2 = update_node(
        &mut store,
        &UpdateNodeParams {
            id: a,
            add_labels: Vec::new(),
            remove_labels: vec!["Person".to_string()],
            set_props: Vec::new(),
            remove_props: Vec::new(),
        },
    )
    .unwrap();
    assert_eq!(updated2.labels, vec!["Admin".to_string(), "Owner".to_string()]);
}

#[test]
fn update_node_sets_and_removes_props() {
    let mut store = fresh_store();
    let a = create_node(
        &mut store,
        &CreateNodeParams { labels: Vec::new(), props: vec![prop("keep", "1"), prop("drop", "2")] },
    )
    .unwrap()
    .id;
    let updated = update_node(
        &mut store,
        &UpdateNodeParams {
            id: a,
            add_labels: Vec::new(),
            remove_labels: Vec::new(),
            set_props: vec![prop("keep", "10"), prop("new", "true")],
            remove_props: vec!["drop".to_string()],
        },
    )
    .unwrap();
    let props = updated.props.unwrap();
    let find = |k: &str| props.iter().find(|p| p.key == k).map(|p| p.value.clone());
    assert_eq!(find("keep"), Some("10".to_string()));
    assert_eq!(find("new"), Some("true".to_string()));
    assert_eq!(find("drop"), None);
}

#[test]
fn update_node_duplicate_set_key_fails_atomically() {
    let mut store = fresh_store();
    let a = create_node(
        &mut store,
        &CreateNodeParams { labels: Vec::new(), props: vec![prop("p", "1")] },
    )
    .unwrap()
    .id;
    let err = update_node(
        &mut store,
        &UpdateNodeParams {
            id: a.clone(),
            add_labels: Vec::new(),
            remove_labels: Vec::new(),
            set_props: vec![prop("x", "1"), prop(" x", "2")],
            remove_props: Vec::new(),
        },
    )
    .unwrap_err();
    assert_eq!(err, GraphError::DuplicateKey);
    let fetched = get_node(&store, &GetNodeParams { id: a, with_props: true }).unwrap();
    let props = fetched.props.unwrap();
    assert_eq!(props.len(), 1);
    assert_eq!(props[0].key, "p");
    assert_eq!(props[0].value, "1");
}

#[test]
fn set_and_delete_single_node_prop() {
    let mut store = fresh_store();
    let a = make_node(&mut store, &["A"]);
    set_node_prop(&mut store, &a, &"color".to_string(), &"red".to_string()).unwrap();
    let fetched = get_node(&store, &GetNodeParams { id: a.clone(), with_props: true }).unwrap();
    assert_eq!(fetched.props.unwrap()[0].value, "\"red\"");
    set_node_prop(&mut store, &a, &"color".to_string(), &"blue".to_string()).unwrap();
    let fetched2 = get_node(&store, &GetNodeParams { id: a.clone(), with_props: true }).unwrap();
    let props2 = fetched2.props.unwrap();
    assert_eq!(props2.len(), 1);
    assert_eq!(props2[0].value, "\"blue\"");
    assert!(delete_node_prop(&mut store, &a, &"color".to_string()).unwrap());
    assert!(!delete_node_prop(&mut store, &a, &"color".to_string()).unwrap());
    let fetched3 = get_node(&store, &GetNodeParams { id: a, with_props: true }).unwrap();
    assert!(fetched3.props.unwrap().is_empty());
}

#[test]
fn update_edge_fields_and_props() {
    let mut store = fresh_store();
    let a = make_node(&mut store, &["A"]);
    let b = make_node(&mut store, &["B"]);
    let c = make_node(&mut store, &["C"]);
    let edge = create_edge(
        &mut store,
        &CreateEdgeParams {
            edge_type: "knows".to_string(),
            from_node: a.clone(),
            to_node: b,
            directed: true,
            props: Vec::new(),
        },
    )
    .unwrap();
    let updated = update_edge(
        &mut store,
        &UpdateEdgeParams {
            id: edge.id.clone(),
            edge_type: Some("likes".to_string()),
            from_node: None,
            to_node: Some(c.clone()),
            set_directed: false,
            set_undirected: true,
            set_props: vec![prop("w", "2")],
            remove_props: Vec::new(),
        },
    )
    .unwrap();
    assert_eq!(updated.edge_type, "likes");
    assert_eq!(updated.from_node, a);
    assert_eq!(updated.to_node, c);
    assert!(!updated.directed);
    assert_eq!(updated.props.unwrap()[0].value, "2");
}

#[test]
fn update_edge_revalidates_endpoints() {
    let mut store = fresh_store();
    let a = make_node(&mut store, &["A"]);
    let b = make_node(&mut store, &["B"]);
    let edge = create_edge(
        &mut store,
        &CreateEdgeParams {
            edge_type: "knows".to_string(),
            from_node: a,
            to_node: b.clone(),
            directed: true,
            props: Vec::new(),
        },
    )
    .unwrap();
    let err = update_edge(
        &mut store,
        &UpdateEdgeParams {
            id: edge.id.clone(),
            edge_type: None,
            from_node: Some("n-missing".to_string()),
            to_node: None,
            set_directed: false,
            set_undirected: false,
            set_props: Vec::new(),
            remove_props: Vec::new(),
        },
    )
    .unwrap_err();
    assert_eq!(err, GraphError::Reference(Endpoint::From));
    let err2 = update_edge(
        &mut store,
        &UpdateEdgeParams {
            id: edge.id,
            edge_type: None,
            from_node: None,
            to_node: None,
            set_directed: true,
            set_undirected: true,
            set_props: Vec::new(),
            remove_props: Vec::new(),
        },
    )
    .unwrap_err();
    assert_eq!(err2, GraphError::Validation);
}

#[test]
fn set_and_delete_single_edge_prop() {
    let mut store = fresh_store();
    let a = make_node(&mut store, &["A"]);
    let b = make_node(&mut store, &["B"]);
    let edge = create_edge(
        &mut store,
        &CreateEdgeParams {
            edge_type: "knows".to_string(),
            from_node: a,
            to_node: b,
            directed: true,
            props: Vec::new(),
        },
    )
    .unwrap();
    set_edge_prop(&mut store, &edge.id, &"w".to_string(), &"3".to_string()).unwrap();
    let fetched = get_edge(&store, &GetEdgeParams { id: edge.id.clone(), with_props: true })
        .unwrap();
    assert_eq!(fetched.props.unwrap()[0].value, "3");
    assert!(delete_edge_prop(&mut store, &edge.id, &"w".to_string()).unwrap());
    let fetched2 = get_edge(&store, &GetEdgeParams { id: edge.id, with_props: true }).unwrap();
    assert!(fetched2.props.unwrap().is_empty());
}
