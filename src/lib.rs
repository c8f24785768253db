//! Collaborative song-queue sessions: the authoritative per-session state,
//! the commands that change it, the wire packets that carry them, the flat
//! field map that mirrors a session in a key-value store, and the routed
//! fan-out of updates to the connections joined to a session.
pub mod connection;
pub mod decimal;
pub mod errors;
pub mod hub;
pub mod json;
pub mod packet;
pub mod song;
pub mod session;
pub mod store;
pub mod youtube;
