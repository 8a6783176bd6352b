//! Deploy keys.

use vstd::prelude::*;

verus! {

#[derive(Debug)]
pub struct CreateDeployKeyRequest {
    pub title: String,
    pub public_key: String,
    pub read_only: bool,
}

/// Deploy keys are read-only unless told otherwise.
pub fn default_read_only() -> (b: bool)
    ensures
        b,
{
    true
}

} // verus!
