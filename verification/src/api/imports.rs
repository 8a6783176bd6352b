//! Imports of repositories from other hosting platforms.

use vstd::prelude::*;

verus! {

/// Request body for starting a new import.
pub struct StartImportRequest {
    /// Source platform: "github" or "gitlab"
    pub platform: String,
    /// Source repository URL (e.g., https://github.com/user/repo)
    pub source_url: String,
    /// Target owner in IronForge
    pub target_owner: String,
    /// Target repository name (defaults to source repo name)
    pub target_name: Option<String>,
    /// API access token for the source platform
    pub auth_token: Option<String>,
    /// Whether to import the repository itself
    pub import_repo: bool,
    /// Whether to import issues
    pub import_issues: bool,
    /// Whether to import pull/merge requests
    pub import_pull_requests: bool,
    /// Whether to import wiki pages
    pub import_wiki: bool,
    /// Whether to import releases
    pub import_releases: bool,
    /// Whether to import labels
    pub import_labels: bool,
    /// Whether to import milestones
    pub import_milestones: bool,
}

/// The parts of a repository that are imported unless told otherwise.
pub fn default_true() -> (b: bool)
    ensures
        b,
{
    true
}

} // verus!
