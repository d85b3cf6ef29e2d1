//! Building blocks of a peer-to-peer file-transfer protocol stack: packet
//! framing and checksums, STUN address discovery, the signaling message set,
//! and the state machines of the datagram and relay transports.
//!
//! Nothing here touches a socket, a file or a clock. Those belong to the
//! caller, which feeds in what happened and carries out what is to be done.

pub mod checksum;
pub mod datagram;
pub mod error;
pub mod json;
pub mod packet;
pub mod plain_name;
pub mod relay;
pub mod session;
pub mod signaling;
pub mod stun;
pub mod text;
pub mod wire;
