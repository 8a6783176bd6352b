//! Verified core of a Git hosting service: the pkt-line wire format, sideband
//! framing, the decision logic of the receive-pack, upload-pack and protocol v2
//! services, and the request validation helpers of the HTTP API.

pub mod text;
pub mod cli_gateway;
pub mod ops;
pub mod refs;
pub mod json;
pub mod pkt_line;
pub mod sideband;
pub mod protocol;
pub mod api;
