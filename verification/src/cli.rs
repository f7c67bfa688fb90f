//! The command layer's vocabulary: one exhaustive tagged union per command
//! group, plus the argument record each command carries.
//!
//! These are plain data types.  Translating the process's actual command
//! line into them, and rendering results back out, is the surrounding
//! shell's concern; dispatching on them is a compile-time-checked `match`.

use vstd::prelude::*;

verus! {

/// A full command invocation: one command plus the global options.
#[derive(Clone, Debug)]
pub struct Cli {
    /// The command to run.
    pub cmd: Commands,

    /// Path to the config directory; the default is derived from the
    /// user's home directory when absent.
    pub config_dir: Option<String>,
}

/// The top-level command groups.
#[derive(Clone, Debug)]
pub enum Commands {
    /// Create a node or edge in the graph.
    Create { cmd: CreateCmd },

    /// List nodes or edges from the graph.
    List { cmd: ListCmd },

    /// Get a node or edge from the graph.
    Get { cmd: GetCmd },

    /// Update a node or edge in the graph.
    Update { cmd: UpdateCmd },

    /// Delete a node or edge from the graph.
    Delete { cmd: DeleteCmd },

    /// Meta graph commands.
    Meta,

    /// Configure the CLI.
    Cfg { cmd: CfgCmd },
}

/// The create command group.
#[derive(Clone, Debug)]
pub enum CreateCmd {
    /// Create a node in the graph.
    Node(CreateNodeArgs),

    /// Create an edge in the graph.
    Edge(CreateEdgeArgs),
}

/// Arguments for creating a node.
#[derive(Clone, Debug)]
pub struct CreateNodeArgs {
    /// The node's labels.
    pub label: Vec<String>,

    /// Properties attached to the node, each as a raw `key=value` text.
    pub prop: Vec<String>,
}

/// Arguments for creating an edge.
#[derive(Clone, Debug)]
pub struct CreateEdgeArgs {
    /// The edge's type.
    pub edge_type: String,

    /// The edge's source node id.
    pub from_node: String,

    /// The edge's target node id.
    pub to_node: String,

    /// Whether the edge is directed.
    pub directed: bool,

    /// Properties attached to the edge, each as a raw `key=value` text.
    pub prop: Vec<String>,
}

/// The list command group.
#[derive(Clone, Debug)]
pub enum ListCmd {
    /// List nodes in the graph.
    Nodes(ListNodesArgs),

    /// List edges in the graph.
    Edges(ListEdgesArgs),
}

/// Arguments for listing nodes.
#[derive(Clone, Debug)]
pub struct ListNodesArgs {
    /// Keep only nodes carrying this label.
    pub has_label: Option<String>,

    /// Keep only nodes that have these property keys.
    pub has_prop: Vec<String>,

    /// Keep only nodes matching these `key=value` pairs.
    pub prop: Vec<String>,

    /// Ids of edges going out.
    pub edge_out: Vec<String>,

    /// Ids of edges coming in.
    pub edge_in: Vec<String>,

    /// Outgoing-edge filters, each `EDGE_TYPE=:NodeLabel` or
    /// `EDGE_TYPE=node-id`.
    pub edge_out_to: Vec<String>,

    /// Incoming-edge filters, each `EDGE_TYPE=:NodeLabel` or
    /// `EDGE_TYPE=node-id`.
    pub edge_in_from: Vec<String>,

    /// Count the nodes returned instead of printing them.
    pub count: bool,

    /// Limit the number of nodes returned.
    pub limit: Option<usize>,

    /// Output format.
    pub format: OutputFormat,
}

/// Arguments for listing edges.
#[derive(Clone, Debug)]
pub struct ListEdgesArgs {
    /// Keep only edges of this type.
    pub has_label: Option<String>,

    /// Keep only edges that have these property keys.
    pub has_prop: Vec<String>,

    /// Keep only edges matching these `key=value` pairs.
    pub prop: Vec<String>,

    /// Id of the source node.
    pub source_node: Option<String>,

    /// Id of the target node.
    pub target_node: Option<String>,

    /// Count the edges returned instead of printing them.
    pub count: bool,

    /// Limit the number of edges returned.
    pub limit: Option<usize>,

    /// Output format.
    pub format: OutputFormat,
}

/// The get command group.
#[derive(Clone, Debug)]
pub enum GetCmd {
    /// Get a node from the graph.
    Node(GetNodeArgs),

    /// Get an edge from the graph.
    Edge(GetEdgeArgs),
}

/// Arguments for fetching one node.
#[derive(Clone, Debug)]
pub struct GetNodeArgs {
    /// The node's id.
    pub id: String,

    /// Include the node's properties.
    pub props: bool,

    /// Include the node's incoming edges.
    pub edges_in: bool,

    /// Include the node's outgoing edges.
    pub edges_out: bool,
}

/// Arguments for fetching one edge.
#[derive(Clone, Debug)]
pub struct GetEdgeArgs {
    /// The edge's id.
    pub id: String,

    /// Include the edge's properties.
    pub props: bool,
}

/// The update command group.
#[derive(Clone, Debug)]
pub enum UpdateCmd {
    /// Update a node in the graph.
    Node(UpdateNodeArgs),

    /// Update an edge in the graph.
    Edge(UpdateEdgeArgs),
}

/// Arguments for updating a node.
#[derive(Clone, Debug)]
pub struct UpdateNodeArgs {
    /// The node's id.
    pub id: String,

    /// Labels to add to the node.
    pub add_label: Vec<String>,

    /// Labels to remove from the node.
    pub remove_label: Vec<String>,

    /// Properties to set on the node, each as a raw `key=value` text.
    pub set_prop: Vec<String>,

    /// Property keys to remove from the node.
    pub remove_prop: Vec<String>,
}

/// Arguments for updating an edge.
#[derive(Clone, Debug)]
pub struct UpdateEdgeArgs {
    /// The edge's id.
    pub id: String,

    /// Set the edge's type.
    pub edge_type: Option<String>,

    /// Set the edge's source node.
    pub from_node: Option<String>,

    /// Set the edge's target node.
    pub to_node: Option<String>,

    /// Mark the edge directed.
    pub set_directed: bool,

    /// Mark the edge undirected.
    pub set_undirected: bool,

    /// Properties to set on the edge, each as a raw `key=value` text.
    pub set_prop: Vec<String>,

    /// Property keys to remove from the edge.
    pub remove_prop: Vec<String>,
}

/// The delete command group.
#[derive(Clone, Debug)]
pub enum DeleteCmd {
    /// Delete a node from the graph.
    Node(DeleteNodeArgs),

    /// Delete an edge from the graph.
    Edge(DeleteEdgeArgs),
}

/// Arguments for deleting a node.
#[derive(Clone, Debug)]
pub struct DeleteNodeArgs {
    /// The node's id.
    pub id: String,
}

/// Arguments for deleting an edge.
#[derive(Clone, Debug)]
pub struct DeleteEdgeArgs {
    /// The edge's id.
    pub id: String,
}

/// The configuration command group.
#[derive(Clone, Debug)]
pub enum CfgCmd {
    /// Initialize the CLI's config directory and storage file.
    Init,

    /// Get the store type.
    GetDbType(GetDbTypeArgs),

    /// Set the store type.
    SetDbType(SetDbTypeArgs),

    /// Get the remote store URL.
    GetRemoteDbUrl(GetRemoteDbUrlArgs),

    /// Set the remote store URL.
    SetRemoteDbUrl(SetRemoteDbUrlArgs),

    /// Get the remote store auth token.
    GetRemoteDbToken(GetRemoteDbTokenArgs),

    /// Set the remote store auth token.
    SetRemoteDbToken(SetRemoteDbTokenArgs),

    /// Get the local storage encryption key.
    GetEncryptionKey(GetEncryptionKeyArgs),

    /// Set the local storage encryption key.
    SetEncryptionKey(SetEncryptionKeyArgs),
}

/// Arguments for reading the store type.
#[derive(Clone, Debug)]
pub struct GetDbTypeArgs;

/// Arguments for setting the store type.
#[derive(Clone, Debug)]
pub struct SetDbTypeArgs;

/// Arguments for reading the remote store URL.
#[derive(Clone, Debug)]
pub struct GetRemoteDbUrlArgs;

/// Arguments for setting the remote store URL.
#[derive(Clone, Debug)]
pub struct SetRemoteDbUrlArgs {
    /// The URL of the remote store.
    pub url: String,
}

/// Arguments for reading the remote store auth token.
#[derive(Clone, Debug)]
pub struct GetRemoteDbTokenArgs;

/// Arguments for setting the remote store auth token.
#[derive(Clone, Debug)]
pub struct SetRemoteDbTokenArgs {
    /// The auth token for the remote store.
    pub token: String,
}

/// Arguments for reading the local storage encryption key.
#[derive(Clone, Debug)]
pub struct GetEncryptionKeyArgs;

/// Arguments for setting the local storage encryption key.
#[derive(Clone, Debug)]
pub struct SetEncryptionKeyArgs {
    /// The encryption key for the local storage file.
    pub key: String,
}

/// How listed or fetched entities are rendered.
#[derive(Clone, Copy, Debug, PartialEq, Eq, Structural)]
pub enum OutputFormat {
    /// One JSON document.
    Json,
    /// Newline-delimited JSON.
    Ndjson,
    /// A table.
    Table,
}

impl Default for OutputFormat {
    fn default() -> (r: Self)
        ensures
            r == OutputFormat::Json,
    {
        OutputFormat::Json
    }
}

} // verus!
