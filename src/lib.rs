//! A small peer-to-peer control-plane node: a verified wire codec for the
//! node's four control messages, and the pure decision logic of a peer session
//! and of the registry that owns the sessions.

pub mod buffer;
pub mod cursor;
pub mod message;
pub mod lemmas;
pub mod state;
pub mod peer;
pub mod registry;
pub mod connection;
