//! Tests for the identifier generator, argument parsing, configuration
//! paths, connection planning, and the random key generator.

use graphctl::conf::{db_type_from_selection, get_config_dir, get_config_file, get_db_dir,
    get_db_file, Config, DBType, DbConfig};
use graphctl::connect::{connect_to_db, ConnectPlan};
use graphctl::errors::GraphError;
use graphctl::ids::new_id;
use graphctl::migrate::{migrations_v1, EDGES_DDL, EDGE_PROPS_DDL, NODES_DDL, NODE_PROPS_DDL};
use graphctl::props::parse_prop_arg;
use graphctl::secrets::generate_random_hex_string;

#[test]
fn test_new_id() {
    let id = new_id("node");
    assert_eq!(id.len(), 4 + 1 + 36);
    assert_eq!(&id[0..4], "node");
}

#[test]
fn new_id_has_prefix_and_fixed_length() {
    let id = new_id("n");
    assert_eq!(id.len(), 1 + 1 + 36);
    assert!(id.starts_with("n-"));
    let other = new_id("n");
    assert_ne!(id, other);
}

#[test]
fn parse_prop_arg_splits_at_first_equals() {
    let p = parse_prop_arg("name=Ada").unwrap();
    assert_eq!(p.key, "name");
    assert_eq!(p.value, "Ada");
    let q = parse_prop_arg(" spaced = a=b ").unwrap();
    assert_eq!(q.key, "spaced");
    assert_eq!(q.value, " a=b ");
}

#[test]
fn parse_prop_arg_rejects_malformed_input() {
    assert_eq!(parse_prop_arg("noequals").unwrap_err(), GraphError::Validation);
    assert_eq!(parse_prop_arg("  =v").unwrap_err(), GraphError::Validation);
    assert_eq!(parse_prop_arg("").unwrap_err(), GraphError::Validation);
}

#[test]
fn parse_prop_arg_keeps_empty_value() {
    let p = parse_prop_arg("k=").unwrap();
    assert_eq!(p.key, "k");
    assert_eq!(p.value, "");
}

#[test]
fn config_paths_are_derived_from_the_directory() {
    let dir = "/home/someone/.graphctl".to_string();
    assert_eq!(get_config_file(&dir), "/home/someone/.graphctl/config.toml");
    assert_eq!(get_db_dir(&dir), "/home/someone/.graphctl/data");
    assert_eq!(get_db_file(&dir), "/home/someone/.graphctl/data/graph.db");
}

#[test]
fn config_dir_prefers_the_explicit_argument() {
    assert_eq!(get_config_dir(Some("/tmp/cfg".to_string())), Some("/tmp/cfg".to_string()));
}

#[test]
fn config_new_uses_local_defaults() {
    let config = Config::new(Some("/tmp/cfg".to_string())).unwrap();
    assert_eq!(config.conf_dir, "/tmp/cfg");
    assert_eq!(config.db.db_type, DBType::Local);
    assert!(config.db.remote_db_path.is_none());
    assert!(!config.db.encrypt_replica);
}

#[test]
fn connect_plan_for_local_store() {
    let config = Config {
        conf_dir: "/tmp/cfg".to_string(),
        db: DbConfig { db_type: DBType::Local, remote_db_path: None, encrypt_replica: true },
    };
    match connect_to_db(&config).unwrap() {
        ConnectPlan::Local { db_file, encrypt } => {
            assert_eq!(db_file, "/tmp/cfg/data/graph.db");
            assert!(encrypt);
        }
        _ => panic!("expected a local plan"),
    }
}

#[test]
fn connect_plan_for_remote_store() {
    let config = Config {
        conf_dir: "/tmp/cfg".to_string(),
        db: DbConfig {
            db_type: DBType::RemoteOnly,
            remote_db_path: Some("libsql://example".to_string()),
            encrypt_replica: false,
        },
    };
    match connect_to_db(&config).unwrap() {
        ConnectPlan::Remote { url } => assert_eq!(url, "libsql://example"),
        _ => panic!("expected a remote plan"),
    }
}

#[test]
fn connect_plan_rejects_missing_remote_path() {
    let config = Config {
        conf_dir: "/tmp/cfg".to_string(),
        db: DbConfig { db_type: DBType::RemoteOnly, remote_db_path: None, encrypt_replica: false },
    };
    assert_eq!(connect_to_db(&config).unwrap_err(), GraphError::Validation);
    let config2 = Config {
        conf_dir: "/tmp/cfg".to_string(),
        db: DbConfig {
            db_type: DBType::RemoteWithReplica,
            remote_db_path: None,
            encrypt_replica: false,
        },
    };
    assert_eq!(connect_to_db(&config2).unwrap_err(), GraphError::Validation);
}

#[test]
fn db_type_selection_mapping() {
    assert_eq!(db_type_from_selection(0), Some(DBType::Local));
    assert_eq!(db_type_from_selection(1), Some(DBType::RemoteWithReplica));
    assert_eq!(db_type_from_selection(2), Some(DBType::RemoteOnly));
    assert_eq!(db_type_from_selection(3), None);
}

#[test]
fn migrations_v1_returns_the_schema_ddl() {
    let statements = migrations_v1();
    assert_eq!(statements.len(), 4);
    assert_eq!(statements[0], NODES_DDL);
    assert_eq!(statements[1], NODE_PROPS_DDL);
    assert_eq!(statements[2], EDGES_DDL);
    assert_eq!(statements[3], EDGE_PROPS_DDL);
    for stmt in &statements {
        assert!(stmt.contains("CREATE TABLE IF NOT EXISTS"));
    }
}

#[test]
fn trimming_matches_unicode_whitespace() {
    // A key padded with a no-break space and an em space normalizes the
    // same way str::trim would normalize it.
    let arg = "\u{00A0}\u{2003}name\u{2003}=1";
    let p = parse_prop_arg(arg).unwrap();
    assert_eq!(p.key, "name");
    assert_eq!(p.key, "\u{00A0}\u{2003}name\u{2003}".trim());
}

#[test]
fn random_hex_string_is_64_hex_digits() {
    let s = generate_random_hex_string().unwrap();
    assert_eq!(s.len(), 64);
    assert!(s.chars().all(|c| c.is_ascii_hexdigit() && !c.is_ascii_uppercase()));
    let other = generate_random_hex_string().unwrap();
    assert_ne!(s, other);
}
