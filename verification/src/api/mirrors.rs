//! Pull mirrors.

use vstd::prelude::*;

verus! {

/// Request body for creating/updating a mirror.
pub struct CreateMirrorRequest {
    pub url: String,
    pub username: Option<String>,
    pub password: Option<String>,
    pub sync_interval_seconds: i64,
}

/// Request body for updating a mirror.
pub struct UpdateMirrorRequest {
    pub url: Option<String>,
    pub username: Option<String>,
    pub password: Option<String>,
    pub sync_interval_seconds: Option<i64>,
    pub status: Option<String>,
}

/// A mirror syncs daily unless told otherwise: the interval in seconds.
pub fn default_interval() -> (s: i64)
    ensures
        s == 86400,
{
    86400
}

} // verus!
