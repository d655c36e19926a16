//! Proximity-filtered broadcast chat: verified core.
//!
//! The library holds the state and the rules of a location-aware chat
//! server: the user record store, the connection registry, the command
//! dispatch that a pool of workers runs, and the proximity filter that
//! decides who receives a broadcast.  Coordinates are carried as
//! microdegrees (millionths of a degree) in plain integers, and
//! distances in metres, so that every step of the geometry is checked.
//!
//! The surrounding process (socket transport, JSON framing, threads and
//! locks) lives outside the library and hands it plain values.

pub mod auth;
pub mod dispatch;
pub mod geo;
pub mod registry;
pub mod store;
