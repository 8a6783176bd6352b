//! Retention of CI artifacts and caches.

use vstd::prelude::*;

verus! {

#[derive(Debug)]
pub struct RetentionPolicyResponse {
    pub artifact_retention_days: i32,
    pub cache_retention_days: i32,
}

#[derive(Debug)]
pub struct RetentionPolicyRequest {
    pub artifact_retention_days: i32,
    pub cache_retention_days: i32,
}

#[derive(Debug, Default)]
pub struct CleanupResponse {
    pub artifacts_deleted: u64,
    pub caches_deleted: u64,
    pub failures: u64,
}

} // verus!
