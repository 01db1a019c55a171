//! Opaque 128-bit identifiers for sessions and rooms.
//!
//! Identifiers are unique by generation; nothing in the library defends
//! against the negligible chance of a collision.

use vstd::prelude::*;

verus! {

/// Relies on uuid::Uuid::new_v4 to draw a fresh random 128-bit identifier;
/// nothing can be promised of a random value.
#[verifier::external_body]
fn fresh_id_bits() -> u128 {
    uuid::Uuid::new_v4().as_u128()
}

/// Identifies one session for its whole lifetime.
#[derive(Debug, Clone, Copy, PartialEq, Eq, Hash, Structural)]
pub struct SessionId {
    pub bits: u128,
}

impl SessionId {
    pub fn fresh() -> SessionId {
        SessionId { bits: fresh_id_bits() }
    }
}

/// Identifies one room for its whole lifetime.
#[derive(Debug, Clone, Copy, PartialEq, Eq, Hash, Structural)]
pub struct RoomId {
    pub bits: u128,
}

impl RoomId {
    pub fn fresh() -> RoomId {
        RoomId { bits: fresh_id_bits() }
    }
}

} // verus!
