//! Connection planning: which store to open, where, and whether the local
//! file is encrypted.
//!
//! The core is agnostic to the topology; this module only turns a
//! configuration into an explicit plan.  Actually opening the connection
//! (and fetching the auth token or encryption key the plan calls for) is
//! the surrounding shell's work.

use vstd::prelude::*;

use crate::conf::{get_db_file, Config, DBType, DB_DIR_NAME, DB_FILE_NAME};
use crate::errors::GraphError;

verus! {

/// How to reach the backing store.
#[derive(Debug)]
pub enum ConnectPlan {
    /// Open the local storage file, optionally encrypted with the stored
    /// encryption key.
    Local {
        /// The path of the storage file.
        db_file: String,
        /// Whether the file is encrypted.
        encrypt: bool,
    },
    /// Connect to the remote store at the given URL, authenticated with
    /// the stored token.
    Remote {
        /// The remote store's URL.
        url: String,
    },
    /// Connect to the remote store and keep a local replica, optionally
    /// encrypted.
    RemoteReplica {
        /// The path of the replica file.
        db_file: String,
        /// The remote store's URL.
        url: String,
        /// Whether the replica is encrypted.
        encrypt: bool,
    },
}

/// Using the given configuration, decide how to connect to the store.
/// A remote topology without a remote path is rejected as malformed
/// configuration.
pub fn connect_to_db(config: &Config) -> (r: Result<ConnectPlan, GraphError>)
    ensures
        match r {
            Ok(plan) => match config.db.db_type {
                DBType::Local => plan matches ConnectPlan::Local { db_file, encrypt } && db_file@
                    == config.conf_dir@ + seq!['/'] + DB_DIR_NAME@ + seq!['/'] + DB_FILE_NAME@
                    && encrypt == config.db.encrypt_replica,
                DBType::RemoteOnly => config.db.remote_db_path matches Some(u) && (
                plan matches ConnectPlan::Remote { url } && url == u),
                DBType::RemoteWithReplica => config.db.remote_db_path matches Some(u) && (
                plan matches ConnectPlan::RemoteReplica { db_file, url, encrypt } && db_file@
                    == config.conf_dir@ + seq!['/'] + DB_DIR_NAME@ + seq!['/'] + DB_FILE_NAME@
                    && url == u && encrypt == config.db.encrypt_replica),
            },
            Err(e) => {
                &&& e == GraphError::Validation
                &&& config.db.db_type != DBType::Local
                &&& config.db.remote_db_path is None
            },
        },
{
    match config.db.db_type {
        DBType::Local => Ok(
            ConnectPlan::Local {
                db_file: get_db_file(&config.conf_dir),
                encrypt: config.db.encrypt_replica,
            },
        ),
        DBType::RemoteOnly => match &config.db.remote_db_path {
            Some(u) => Ok(ConnectPlan::Remote { url: u.clone() }),
            None => Err(GraphError::Validation),
        },
        DBType::RemoteWithReplica => match &config.db.remote_db_path {
            Some(u) => Ok(
                ConnectPlan::RemoteReplica {
                    db_file: get_db_file(&config.conf_dir),
                    url: u.clone(),
                    encrypt: config.db.encrypt_replica,
                },
            ),
            None => Err(GraphError::Validation),
        },
    }
}

} // verus!
