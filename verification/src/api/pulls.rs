//! Pull requests.

use vstd::prelude::*;

verus! {

/// The query of a pull-request list: the state filter.
pub struct ListQuery {
    pub state: Option<String>,
}

pub struct CreatePrRequest {
    pub title: String,
    pub body: Option<String>,
    /// Head branch reference. Supports "owner:branch" for fork PRs, or just "branch" for same-repo.
    pub head: String,
    pub base: String,
    pub draft: bool,
}

pub struct UpdatePrRequest {
    pub title: Option<String>,
    pub body: Option<String>,
    pub state: Option<String>,
    pub draft: Option<bool>,
}

pub struct MergePrRequest {
    /// merge / squash / rebase
    pub strategy: String,
}

pub struct EnableAutoMergeRequest {
    /// merge / squash / rebase
    pub strategy: String,
}

} // verus!
