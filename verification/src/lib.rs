//! A relay for peers that meet in rooms: the wire formats, the room registry,
//! the decisions of the transport actors and of the peers, the tokens that
//! name a room, and the encryption between peers, with their contracts.
pub mod actors;
pub mod config;
pub mod constant;
pub mod crypto;
pub mod error;
pub mod framing;
pub mod message;
pub mod peer;
pub mod registry;
pub mod session;
pub mod wire;
