//! Git LFS objects: who may download them.

use vstd::prelude::*;
use crate::text::{chars_of, parse_i64, spec_parse_i64};

verus! {

/// What a download of an LFS object comes to before it is read.
#[derive(Debug, Clone, PartialEq, Eq)]
pub enum LfsAccess {
    /// The download may proceed.
    Allowed,
    /// The request must authenticate; carries the reason.
    Unauthorized(String),
    /// The caller may not read the repository.
    Forbidden,
}

/// Objects of public repositories may be downloaded by anyone; for a
/// private one the request needs a token whose subject is a user id (and
/// that user must be able to read the repository, see `lfs_access`).
pub open spec fn spec_lfs_user(is_private: bool, subject: Option<Seq<char>>) -> Result<Option<i64>, Seq<char>> {
    if !is_private {
        Ok(None)
    } else {
        match subject {
            None => Err("authentication required"@),
            Some(s) => match spec_parse_i64(s) {
                None => Err("invalid token subject"@),
                Some(id) => Ok(Some(id)),
            },
        }
    }
}

/// The user a private download is made for: `Ok(None)` for a public
/// repository, `Ok(Some(id))` for the token's user, or the reason to refuse.
pub fn lfs_download_user(is_private: bool, subject: Option<&str>) -> (r: Result<Option<i64>, String>)
    ensures
        match (r, spec_lfs_user(
            is_private,
            match subject {
                Some(s) => Some(s@),
                None => None,
            },
        )) {
            (Ok(a), Ok(b)) => a == b,
            (Err(a), Err(b)) => a@ == b,
            _ => false,
        },
{
    if !is_private {
        return Ok(None);
    }
    match subject {
        None => Err(String::from_str("authentication required")),
        Some(s) => match parse_i64(chars_of(s).as_slice()) {
            None => Err(String::from_str("invalid token subject")),
            Some(id) => Ok(Some(id)),
        },
    }
}

/// The access decision once the user's read permission is known (it is
/// asked only for a private repository's user).
pub fn lfs_access(user: Result<Option<i64>, String>, can_read: bool) -> (a: LfsAccess)
    ensures
        match user {
            Ok(None) => a == LfsAccess::Allowed,
            Ok(Some(_)) => if can_read {
                a == LfsAccess::Allowed
            } else {
                a == LfsAccess::Forbidden
            },
            Err(m) => a == LfsAccess::Unauthorized(m),
        },
{
    match user {
        Ok(None) => LfsAccess::Allowed,
        Ok(Some(_)) => if can_read {
            LfsAccess::Allowed
        } else {
            LfsAccess::Forbidden
        },
        Err(m) => LfsAccess::Unauthorized(m),
    }
}

} // verus!
