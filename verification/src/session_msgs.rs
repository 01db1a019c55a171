//! Messages that rooms and playbacks push into a session's inbox, and the
//! deliveries (target session plus message) that room-side operations emit.
//!
//! A room-side operation never sends anything itself: it returns the list
//! of deliveries it wants made, in order, and the caller performs them. A
//! delivery that fails because the target session is gone is reported back
//! as a leave or disconnect request; failure is data, not control flow.

use vstd::prelude::*;

use crate::ids::SessionId;
use crate::playback::{DisconnectReason, PlaybackInfo, PlaybackInfoV, PlaybackState, StopReason};
use crate::room::{RoomCloseReason, RoomState, RoomStateV};

verus! {

/// One message bound for a session's inbox.
#[derive(Debug, Clone, PartialEq, Eq)]
pub enum SessionMsg {
    RoomState(RoomState),
    RoomClosed(RoomCloseReason),
    PlaybackHosting,
    PlaybackAvailable(PlaybackInfo),
    PlaybackStarted,
    PlaybackConnected,
    PlaybackSync(PlaybackState),
    PlaybackStopped(StopReason),
    PlaybackDisconnected(DisconnectReason),
}

/// The mathematical content of a `SessionMsg`.
pub enum SessionMsgV {
    RoomState(RoomStateV),
    RoomClosed(RoomCloseReason),
    PlaybackHosting,
    PlaybackAvailable(PlaybackInfoV),
    PlaybackStarted,
    PlaybackConnected,
    PlaybackSync(PlaybackState),
    PlaybackStopped(StopReason),
    PlaybackDisconnected(DisconnectReason),
}

impl View for SessionMsg {
    type V = SessionMsgV;

    open spec fn view(&self) -> SessionMsgV {
        match self {
            SessionMsg::RoomState(s) => SessionMsgV::RoomState(s@),
            SessionMsg::RoomClosed(r) => SessionMsgV::RoomClosed(*r),
            SessionMsg::PlaybackHosting => SessionMsgV::PlaybackHosting,
            SessionMsg::PlaybackAvailable(i) => SessionMsgV::PlaybackAvailable(i@),
            SessionMsg::PlaybackStarted => SessionMsgV::PlaybackStarted,
            SessionMsg::PlaybackConnected => SessionMsgV::PlaybackConnected,
            SessionMsg::PlaybackSync(s) => SessionMsgV::PlaybackSync(*s),
            SessionMsg::PlaybackStopped(r) => SessionMsgV::PlaybackStopped(*r),
            SessionMsg::PlaybackDisconnected(r) => SessionMsgV::PlaybackDisconnected(*r),
        }
    }
}

/// One requested delivery: put `msg` into the inbox of session `target`.
#[derive(Debug, Clone, PartialEq, Eq)]
pub struct Delivery {
    pub target: SessionId,
    pub msg: SessionMsg,
}

/// The mathematical content of a `Delivery`.
pub struct DeliveryV {
    pub target: SessionId,
    pub msg: SessionMsgV,
}

impl View for Delivery {
    type V = DeliveryV;

    open spec fn view(&self) -> DeliveryV {
        DeliveryV { target: self.target, msg: self.msg@ }
    }
}

/// The views of a list of deliveries, in order.
pub open spec fn deliveries_view(s: Seq<Delivery>) -> Seq<DeliveryV> {
    Seq::new(s.len(), |i: int| s[i]@)
}

} // verus!
