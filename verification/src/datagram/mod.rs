//! The reliable transport over datagrams: a file is cut into numbered
//! packets, each is sent and acknowledged before the next (stop-and-wait),
//! and the receiver puts the accepted packets back together.

pub mod ack;
pub mod chunking;
pub mod reassembly;
pub mod receiver;
pub mod sender;
pub mod transfer;
