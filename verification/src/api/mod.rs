//! Request and response types of the HTTP API, and the validation and
//! formatting rules its handlers apply.

pub mod admin;
pub mod ai;
pub mod archive;
pub mod artifacts;
pub mod attachments;
pub mod audit;
pub mod auth;
pub mod boards;
pub mod branch_protection;
pub mod ci;
pub mod ci_environments;
pub mod ci_oidc;
pub mod ci_retention;
pub mod ci_secrets;
pub mod collaborators;
pub mod deploy_keys;
pub mod imports;
pub mod issues;
pub mod labels;
pub mod lfs;
pub mod mfa;
pub mod mirrors;
pub mod notifications;
pub mod orgs;
pub mod packages;
pub mod pulls;
pub mod releases;
pub mod repo_content;
