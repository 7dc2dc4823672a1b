//! Shared platform types: the instance owner, collaborators, repositories,
//! access credentials, plugins, and the platform error taxonomy.
//!
//! Identifiers are 128-bit values and timestamps are seconds since the Unix
//! epoch, so that every field is a plain value the contracts can speak of.

use vstd::prelude::*;

verus! {

/// The instance owner; there is exactly one per deployment.
#[derive(Clone, Debug)]
pub struct Owner {
    pub username: String,
    pub email: String,
    pub instance_domain: String,
}

/// A collaborator: may contribute to repositories but not create them.
#[derive(Clone, Debug)]
pub struct Collaborator {
    pub id: u128,
    pub username: String,
    pub email: String,
    pub ssh_keys: Vec<SshKey>,
    pub api_tokens: Vec<ApiToken>,
}

/// Access level a collaborator holds on a repository.
#[derive(Clone, Copy, Debug, PartialEq, Eq, Structural)]
pub enum Permission {
    Read,
    Write,
    Admin,
}

/// A repository; every repository belongs to the instance owner.
#[derive(Clone, Debug)]
pub struct Repository {
    pub id: u128,
    pub name: String,
    pub description: Option<String>,
    pub is_private: bool,
    pub default_branch: String,
    pub collaborator_permissions: Vec<CollaboratorPermission>,
}

/// Grants one collaborator one permission on one repository.
#[derive(Clone, Copy, Debug)]
pub struct CollaboratorPermission {
    pub collaborator_id: u128,
    pub repository_id: u128,
    pub permission: Permission,
}

/// An SSH public key registered for git operations.
#[derive(Clone, Debug)]
pub struct SshKey {
    pub id: u128,
    pub name: String,
    pub public_key: String,
    pub fingerprint: String,
}

/// An API token for HTTPS git and API access; only the hash is stored.
#[derive(Clone, Debug)]
pub struct ApiToken {
    pub id: u128,
    pub name: String,
    pub token_hash: String,
    pub expires_at: Option<i64>,
}

/// Platform-level occurrences that plugins can subscribe to.
#[derive(Clone, Debug)]
pub enum Event {
    RepositoryCreated { repository: Repository },
    RepositoryDeleted { repository_id: u128 },
    Push { repository_id: u128, branch: String, commits: Vec<Commit>, pusher: String },
    PullRequestOpened {
        id: u128,
        repository_id: u128,
        from_branch: String,
        to_branch: String,
        author: String,
    },
    PullRequestMerged { id: u128, repository_id: u128 },
    TagCreated { repository_id: u128, tag: String, target_commit: String },
}

/// A single commit as carried inside push events.
#[derive(Clone, Debug)]
pub struct Commit {
    pub sha: String,
    pub message: String,
    pub author: String,
    pub timestamp: i64,
    pub parent_shas: Vec<String>,
}

/// Kinds of plugins the extension system distinguishes.
#[derive(Clone, Copy, Debug, PartialEq, Eq, Structural)]
pub enum PluginType {
    CiRunner,
    ReviewSystem,
    AiReviewer,
}

/// A registered plugin and where to reach it.
#[derive(Clone, Debug)]
pub struct Plugin {
    pub id: u128,
    pub name: String,
    pub plugin_type: PluginType,
    pub endpoint: String,
    pub health_check: String,
}

/// The platform error taxonomy.
#[derive(Clone, Debug)]
pub enum NimbusError {
    RepositoryNotFound(String),
    Unauthorized(String),
    InvalidGitOperation(String),
    PluginError(String),
    Internal(String),
}

impl NimbusError {
    /// The human-readable description of this error.
    pub fn message(&self) -> (r: String)
        ensures
            r@ == match *self {
                NimbusError::RepositoryNotFound(ref s) => "Repository not found: "@ + s@,
                NimbusError::Unauthorized(ref s) => "Unauthorized: "@ + s@,
                NimbusError::InvalidGitOperation(ref s) => "Invalid git operation: "@ + s@,
                NimbusError::PluginError(ref s) => "Plugin error: "@ + s@,
                NimbusError::Internal(ref s) => "Internal error: "@ + s@,
            },
    {
        match self {
            NimbusError::RepositoryNotFound(s) => {
                String::from_str("Repository not found: ").concat(s.as_str())
            },
            NimbusError::Unauthorized(s) => String::from_str("Unauthorized: ").concat(s.as_str()),
            NimbusError::InvalidGitOperation(s) => {
                String::from_str("Invalid git operation: ").concat(s.as_str())
            },
            NimbusError::PluginError(s) => String::from_str("Plugin error: ").concat(s.as_str()),
            NimbusError::Internal(s) => String::from_str("Internal error: ").concat(s.as_str()),
        }
    }
}

} // verus!
