//! Issue labels.

use vstd::prelude::*;

verus! {

/// Request body for creating a label.
pub struct CreateLabelRequest {
    pub name: String,
    pub color: String,
    pub description: Option<String>,
}

/// Request body for updating a label.
pub struct UpdateLabelRequest {
    pub name: Option<String>,
    pub color: Option<String>,
    pub description: Option<String>,
}

} // verus!
