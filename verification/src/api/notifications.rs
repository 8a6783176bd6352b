//! Notifications of a user.

use vstd::prelude::*;

verus! {

/// The query of a notification list: whether to list only unread ones
/// (the paging is the listing's own).
pub struct ListNotificationsQuery {
    pub unread_only: Option<bool>,
}

impl ListNotificationsQuery {
    /// Whether only unread notifications are listed: as asked, or not.
    pub fn only_unread(&self) -> (b: bool)
        ensures
            b == (self.unread_only == Some(true)),
    {
        match self.unread_only {
            Some(b) => b,
            None => false,
        }
    }
}

} // verus!
