//! Organizations, members and teams.

use vstd::prelude::*;

verus! {

pub struct CreateOrgRequest {
    pub name: String,
    pub display_name: Option<String>,
    pub description: Option<String>,
    pub visibility: Option<String>,
}

pub struct UpdateOrgRequest {
    pub display_name: Option<String>,
    pub description: Option<String>,
    pub visibility: Option<String>,
}

pub struct AddOrgMemberRequest {
    pub user_id: i64,
    pub role: Option<String>,
}

pub struct CreateTeamRequest {
    pub name: String,
    pub description: Option<String>,
    pub permission: Option<String>,
}

pub struct AddTeamMemberRequest {
    pub user_id: i64,
    pub role: Option<String>,
}

} // verus!
