//! Branch protection rules.

use vstd::prelude::*;

verus! {

pub struct CreateProtectionRequest {
    pub branch_name: String,
    pub require_pr: bool,
    pub require_status_check: bool,
    pub required_status_checks: Option<Vec<String>>,
    pub require_approval: bool,
    pub required_approvals: Option<i64>,
    pub allow_force_push: bool,
    pub allowed_push_user_ids: Option<Vec<i64>>,
}

pub struct UpdateProtectionRequest {
    pub require_pr: Option<bool>,
    pub require_status_check: Option<bool>,
    pub required_status_checks: Option<Vec<String>>,
    pub require_approval: Option<bool>,
    pub required_approvals: Option<i64>,
    pub allow_force_push: Option<bool>,
    pub allowed_push_user_ids: Option<Vec<i64>>,
}

} // verus!
