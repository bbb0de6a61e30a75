//! Room-based broadcast chat: rooms are created on first use, every message
//! published to a room is fanned out to the connections subscribed to it,
//! and a counter records each delivery.

pub mod broadcast;
pub mod laws;
pub mod ping;
pub mod pump;
pub mod room;
pub mod state;
pub mod tweet;
pub mod views;
