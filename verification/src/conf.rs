//! Application configuration: where the config file and the storage file
//! live, and which connection topology the store uses.
//!
//! Paths are handled as plain strings; reading and writing the config file
//! itself is I/O and belongs to the surrounding shell.

use vstd::prelude::*;

use crate::errors::GraphError;

verus! {

/// The name of the default config directory expected in the user's home
/// directory.
pub const CONFIG_DIR_NAME: &'static str = ".graphctl";

/// The name of the config file within the config directory.
pub const CONFIG_FILE_NAME: &'static str = "config.toml";

/// The name of the directory (within the config directory) where the
/// storage files are kept.
pub const DB_DIR_NAME: &'static str = "data";

/// The name of the main storage file.
pub const DB_FILE_NAME: &'static str = "graph.db";

/// Relies on `home::home_dir`: the user's home directory, if the platform
/// reports one.  The result depends on the environment, so nothing is
/// promised about it.
#[verifier::external_body]
fn home_dir_text() -> (r: Option<String>)
{
    home::home_dir().map(|p| p.to_string_lossy().into_owned())
}

/// Get the path to the app config directory: the directory passed in, or
/// else the default directory inside the user's home directory.
pub fn get_config_dir(config_dir: Option<String>) -> (r: Option<String>)
    ensures
        config_dir matches Some(cd) ==> r == Some(cd),
        config_dir is None ==> (r matches Some(d) ==> {
            &&& d@.len() >= CONFIG_DIR_NAME@.len() + 1
            &&& d@.subrange(d@.len() - CONFIG_DIR_NAME@.len() - 1, d@.len() as int)
                == seq!['/'] + CONFIG_DIR_NAME@
        }),
{
    match config_dir {
        Some(cd) => Some(cd),
        None => {
            match home_dir_text() {
                Some(home) => {
                    let mut d = home;
                    d.append("/");
                    d.append(CONFIG_DIR_NAME);
                    proof {
                        reveal_strlit("/");
                        reveal_strlit(".graphctl");
                        assert(d@.subrange(
                            d@.len() - CONFIG_DIR_NAME@.len() - 1,
                            d@.len() as int,
                        ) =~= seq!['/'] + CONFIG_DIR_NAME@);
                    }
                    Some(d)
                }
                None => None,
            }
        }
    }
}

/// Given a config directory, get the path to the config file.
pub fn get_config_file(config_dir: &String) -> (r: String)
    ensures
        r@ == config_dir@ + seq!['/'] + CONFIG_FILE_NAME@,
{
    let mut r = config_dir.clone();
    r.append("/");
    r.append(CONFIG_FILE_NAME);
    proof {
        reveal_strlit("/");
        assert(r@ =~= config_dir@ + seq!['/'] + CONFIG_FILE_NAME@);
    }
    r
}

/// Given a config directory, get the path to the storage directory.
pub fn get_db_dir(config_dir: &String) -> (r: String)
    ensures
        r@ == config_dir@ + seq!['/'] + DB_DIR_NAME@,
{
    let mut r = config_dir.clone();
    r.append("/");
    r.append(DB_DIR_NAME);
    proof {
        reveal_strlit("/");
        assert(r@ =~= config_dir@ + seq!['/'] + DB_DIR_NAME@);
    }
    r
}

/// Given a config directory, get the path to the main storage file.
pub fn get_db_file(config_dir: &String) -> (r: String)
    ensures
        r@ == config_dir@ + seq!['/'] + DB_DIR_NAME@ + seq!['/'] + DB_FILE_NAME@,
{
    let mut r = config_dir.clone();
    r.append("/");
    r.append(DB_DIR_NAME);
    r.append("/");
    r.append(DB_FILE_NAME);
    proof {
        reveal_strlit("/");
        assert(r@ =~= config_dir@ + seq!['/'] + DB_DIR_NAME@ + seq!['/'] + DB_FILE_NAME@);
    }
    r
}

/// The type/location of the backing store.
#[derive(Clone, Copy, Debug, PartialEq, Eq, Structural)]
pub enum DBType {
    /// A local storage file.
    Local,
    /// A remote store, reached over the network.
    RemoteOnly,
    /// A remote store with a local replica.
    RemoteWithReplica,
}

impl Default for DBType {
    fn default() -> (r: Self)
        ensures
            r == DBType::Local,
    {
        DBType::Local
    }
}

/// Map an interactive menu selection to a store type; the menu lists
/// local, remote-with-replica, and remote-only, in that order.  Any other
/// selection maps to nothing.
pub fn db_type_from_selection(selection: usize) -> (r: Option<DBType>)
    ensures
        r == (if selection == 0 {
            Some(DBType::Local)
        } else if selection == 1 {
            Some(DBType::RemoteWithReplica)
        } else if selection == 2 {
            Some(DBType::RemoteOnly)
        } else {
            None::<DBType>
        }),
{
    if selection == 0 {
        Some(DBType::Local)
    } else if selection == 1 {
        Some(DBType::RemoteWithReplica)
    } else if selection == 2 {
        Some(DBType::RemoteOnly)
    } else {
        None
    }
}

/// Configuration for the backing store.
#[derive(Clone, Debug)]
pub struct DbConfig {
    /// The type/location of store to use.
    pub db_type: DBType,

    /// If `db_type` is remote or remote-with-replica, the path to the
    /// remote store.
    pub remote_db_path: Option<String>,

    /// If `db_type` is local or remote-with-replica, whether the local
    /// file is encrypted.
    pub encrypt_replica: bool,
}

/// The application configuration.
#[derive(Clone, Debug)]
pub struct Config {
    /// The config directory all other paths are derived from.
    pub conf_dir: String,

    /// The store configuration.
    pub db: DbConfig,
}

impl Config {
    /// Build a fresh configuration with default store settings: a local,
    /// unencrypted storage file under the given (or default) config
    /// directory.  Fails only when no directory was passed in and the
    /// platform reports no home directory.
    pub fn new(config_dir: Option<String>) -> (r: Result<Self, GraphError>)
        ensures
            config_dir matches Some(cd) ==> r matches Ok(c) && c.conf_dir == cd,
            r matches Ok(c) ==> {
                &&& c.db.db_type == DBType::Local
                &&& c.db.remote_db_path is None
                &&& c.db.encrypt_replica == false
            },
            r matches Err(e) ==> e == GraphError::Connection && config_dir is None,
    {
        let conf_dir = match get_config_dir(config_dir) {
            Some(cd) => cd,
            None => {
                return Err(GraphError::Connection);
            }
        };
        Ok(Config {
            conf_dir,
            db: DbConfig { db_type: DBType::Local, remote_db_path: None, encrypt_replica: false },
        })
    }
}

} // verus!
