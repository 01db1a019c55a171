//! Server-side core of a realtime coordination service for synchronized
//! media-playback rooms.
//!
//! The library holds the verified logic: the access policy, the wire
//! envelope and its codec, the per-connection state machine, the playback
//! coordinator, the room actor and its registry, and the session
//! supervisor's decision rules. Transport, timers and task plumbing live
//! outside the library and drive these state machines with plain values.

pub mod api_access;
pub mod config;
pub mod connection;
pub mod ids;
pub mod messages;
pub mod playback;
pub mod registry;
pub mod room;
pub mod session;
pub mod session_msgs;
pub mod utils;
pub mod wire;

use vstd::prelude::*;

verus! {

} // verus!
