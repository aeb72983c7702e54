//! The config model: the typed in-memory representation of the on-disk
//! kubeconfig document. Every field of the document is carried here, also
//! the ones no operation reads (certificate data, proxy settings), so that
//! a rewrite of the file loses nothing.

use vstd::prelude::*;

verus! {

/// KubeConfig holds the information needed to connect to remote Kubernetes
/// clusters as a given user.
#[derive(Debug, Clone, PartialEq)]
pub struct KubeConfig {
    /// The api version.
    pub api_version: String,
    /// The kind.
    pub kind: String,
    /// Clusters relates referable names to cluster configs.
    pub clusters: Vec<NamedCluster>,
    /// Contexts relates referable names to context configs.
    pub contexts: Vec<NamedContext>,
    /// The name of the context to use by default.
    pub current_context: String,
    /// Users relates referable names to user credentials.
    pub users: Vec<NamedUser>,
}

/// NamedUser relates a nickname to user information.
#[derive(Debug, Clone, PartialEq)]
pub struct NamedUser {
    /// The nickname for this User.
    pub name: String,
    /// The user information.
    pub user: User,
}

/// User contains information on the authenticated user.
#[derive(Debug, Clone, PartialEq)]
pub struct User {
    /// The user's sha256 bearer token.
    pub token: String,
}

/// NamedCluster relates a nickname to cluster information.
#[derive(Debug, Clone, PartialEq)]
pub struct NamedCluster {
    /// The nickname for this Cluster.
    pub name: String,
    /// The cluster information.
    pub cluster: Cluster,
}

/// Cluster contains information about how to communicate with a Kubernetes
/// cluster. All of it is opaque passthrough data to this library.
#[derive(Debug, Clone, PartialEq)]
pub struct Cluster {
    /// The address of the cluster (https://hostname:port).
    pub server: String,
    /// The name used to check the server certificate; when absent, the
    /// hostname used to contact the server is used.
    pub tls_server_name: Option<String>,
    /// Skips the validity check for the server's certificate.
    pub insecure_skip_verify: Option<bool>,
    /// The path to a cert file for the certificate authority.
    pub certificate_authority: Option<String>,
    /// PEM-encoded certificate authority certificates; overrides the path.
    pub certificate_authority_data: Option<Vec<u8>>,
    /// The URL of the proxy to use for all requests made by this client.
    pub proxy_url: Option<String>,
    /// Lets the client opt out of response compression for all requests.
    pub disable_compression: Option<bool>,
}

/// NamedContext relates a nickname to context information.
#[derive(Debug, Clone, PartialEq)]
pub struct NamedContext {
    /// The nickname for this Context.
    pub name: String,
    /// The context information.
    pub context: ClusterContext,
}

/// A context is a tuple of references to a cluster (how do I communicate
/// with a cluster), a user (how do I identify myself), and a namespace
/// (what subset of resources do I want to work with).
#[derive(Debug, Clone, PartialEq)]
pub struct ClusterContext {
    /// The name of the cluster for this context.
    pub cluster: String,
    /// The name of the user for this context.
    pub user: String,
    /// The default namespace to use on unspecified requests.
    pub namespace: Option<String>,
}

} // verus!
