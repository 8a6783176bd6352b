//! Server-side handlers of the Git smart protocols.

pub mod receive_pack;
pub mod upload_pack;
pub mod v2;
