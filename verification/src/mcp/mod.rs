//! The protocol that the server speaks with its client.

pub mod framing;
pub mod rpc;
pub mod tools;
