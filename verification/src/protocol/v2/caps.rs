//! Protocol v2 capability names.

use vstd::prelude::*;

verus! {

/// Agent capability: identifies the server version.
pub const AGENT: &'static str = "agent";

/// Object format (sha1 for now).
pub const OBJECT_FORMAT: &'static str = "object-format";

/// List refs command.
pub const LS_REFS: &'static str = "ls-refs";

/// Fetch command.
pub const FETCH: &'static str = "fetch";

/// Fetch command with shallow/deepen and partial-clone filter support.
pub const FETCH_SHALLOW: &'static str = "fetch=shallow filter";

/// Server option capability.
pub const SERVER_OPTION: &'static str = "server-option";

/// Session identifier.
pub const SESSION_ID: &'static str = "session-id";

/// Object info command.
pub const OBJECT_INFO: &'static str = "object-info";

} // verus!
