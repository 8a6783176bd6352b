//! Repository collaborators and their permissions.

use vstd::prelude::*;

verus! {

pub struct AddCollaboratorRequest {
    pub user_id: Option<i64>,
    pub username: Option<String>,
    pub email: Option<String>,
    /// read / write / admin
    pub permission: String,
}

pub struct UpdatePermissionRequest {
    pub permission: String,
}

/// The permission a collaborator gets unless told otherwise.
pub fn default_permission() -> (p: String)
    ensures
        p@ == "read"@,
{
    String::from_str("read")
}

} // verus!
