//! Project boards, their columns and cards.

use vstd::prelude::*;

verus! {

pub struct CreateBoardRequest {
    pub name: String,
    pub description: Option<String>,
}

pub struct UpdateBoardRequest {
    pub name: Option<String>,
    pub description: Option<String>,
}

pub struct CreateColumnRequest {
    pub name: String,
    pub color: Option<String>,
}

pub struct UpdateColumnRequest {
    pub name: Option<String>,
    pub color: Option<String>,
}

pub struct CreateCardRequest {
    pub issue_id: Option<i64>,
    pub note: Option<String>,
}

pub struct UpdateCardRequest {
    pub note: Option<String>,
    pub issue_id: Option<Option<i64>>,
}

pub struct MoveCardRequest {
    pub column_id: i64,
    pub position: i32,
}

pub struct ReorderCardsRequest {
    /// List of (card_id, new_position) pairs.
    pub positions: Vec<(i64, i32)>,
}

} // verus!
