//! Releases.

use vstd::prelude::*;

verus! {

/// Request body for creating a release.
pub struct CreateReleaseRequest {
    pub tag_name: String,
    pub title: String,
    pub body: Option<String>,
    pub target_commitish: Option<String>,
    pub is_draft: Option<bool>,
    pub is_prerelease: Option<bool>,
}

/// Request body for updating a release.
pub struct UpdateReleaseRequest {
    pub title: Option<String>,
    pub body: Option<String>,
    pub is_draft: Option<bool>,
    pub is_prerelease: Option<bool>,
}

} // verus!
