//! The message catalogue of the wire protocol.
//!
//! Every message carries a timestamp and one tagged body. Each type here
//! has a mathematical view (`@`) in which text is a sequence of characters,
//! so that contracts and the codec can speak about message content without
//! depending on heap identity.

use vstd::prelude::*;

use crate::ids::{RoomId, SessionId};

verus! {

// ---------------------------------------------------------------------
// Connection-level bodies
// ---------------------------------------------------------------------

#[derive(Debug, Clone, PartialEq, Eq)]
pub struct ConnectionLoginMsgBodyV1 {
    pub username: String,
    pub api_key: Option<String>,
}

#[derive(Debug, Clone, Copy, PartialEq, Eq, Structural)]
pub enum ConnectionClosedReasonV1 {
    Unauthorized,
    ServerError,
    RoomClosed,
    Timeout,
    Unknown,
}

#[derive(Debug, Clone, PartialEq, Eq)]
pub struct ConnectionClosedMsgBodyV1 {
    pub reason: ConnectionClosedReasonV1,
    pub message: String,
}

#[derive(Debug, Clone, PartialEq, Eq)]
pub struct ConnectionClientErrorMsgBodyV1 {
    pub message: String,
}

// ---------------------------------------------------------------------
// Room-level bodies
// ---------------------------------------------------------------------

#[derive(Debug, Clone, PartialEq, Eq)]
pub struct RoomCreateMsgBodyV1 {
    pub name: String,
    pub password: String,
}

#[derive(Debug, Clone, PartialEq, Eq)]
pub struct RoomJoinMsgBodyV1 {
    pub id: RoomId,
    pub password: String,
}

#[derive(Debug, Clone, Copy, PartialEq, Eq, Structural)]
pub enum RoomUserRoleV1 {
    Host,
    Guest,
    Spectator,
}

#[derive(Debug, Clone, PartialEq, Eq)]
pub struct RoomUserV1 {
    pub id: SessionId,
    pub name: String,
    pub role: RoomUserRoleV1,
}

#[derive(Debug, Clone, Copy, PartialEq, Eq, Structural)]
pub struct RoomUserPermissionsV1 {
    pub can_host: bool,
    pub can_set_roles: bool,
    pub can_kick: bool,
    pub can_close: bool,
}

#[derive(Debug, Clone, PartialEq, Eq)]
pub struct PlaybackSourceV1 {
    pub title: String,
    pub page_href: String,
    pub frame_href: String,
    pub element_query: String,
}

#[derive(Debug, Clone, PartialEq, Eq)]
pub struct RoomPlaybackInfoV1 {
    pub host: String,
    pub source: Option<PlaybackSourceV1>,
}

#[derive(Debug, Clone, PartialEq, Eq)]
pub struct RoomStateMsgBodyV1 {
    pub id: RoomId,
    pub name: String,
    pub password: String,
    pub users: Vec<RoomUserV1>,
    pub playback_info: Option<RoomPlaybackInfoV1>,
}

#[derive(Debug, Clone, Copy, PartialEq, Eq, Structural)]
pub enum RoomDisconnectedReasonV1 {
    ClosedByHost,
    Unauthorized,
    ServerError,
}

#[derive(Debug, Clone, PartialEq, Eq)]
pub struct RoomDisconnectedMsgBodyV1 {
    pub reason: RoomDisconnectedReasonV1,
}

#[derive(Debug, Clone, Copy, PartialEq, Eq, Structural)]
pub struct RoomPermissionsMsgBodyV1 {
    pub role: RoomUserRoleV1,
    pub permissions: RoomUserPermissionsV1,
}

#[derive(Debug, Clone, Copy, PartialEq, Eq, Structural)]
pub struct RoomSetUserRoleMsgBodyV1 {
    pub user_id: SessionId,
    pub role: RoomUserRoleV1,
}

#[derive(Debug, Clone, Copy, PartialEq, Eq, Structural)]
pub struct RoomKickUserMsgBodyV1 {
    pub user_id: SessionId,
}

// ---------------------------------------------------------------------
// Playback-level bodies
// ---------------------------------------------------------------------

/// A playback position report. The position is held in milliseconds so
/// that the whole report is exact integer data.
#[derive(Debug, Clone, Copy, PartialEq, Eq, Structural)]
pub struct PlaybackStateV1 {
    pub timestamp: u64,
    pub playing: bool,
    pub time_millis: u64,
}

#[derive(Debug, Clone, Copy, PartialEq, Eq, Structural)]
pub enum PlaybackStopReasonV1 {
    HostError,
    StoppedByHost,
    Superseded,
}

#[derive(Debug, Clone, Copy, PartialEq, Eq, Structural)]
pub enum PlaybackDisconnectReasonV1 {
    User,
    Stopped(PlaybackStopReasonV1),
    SubscriberError,
}

#[derive(Debug, Clone, PartialEq, Eq)]
pub struct PlaybackAvailableMsgBodyV1 {
    pub info: RoomPlaybackInfoV1,
}

#[derive(Debug, Clone, PartialEq, Eq)]
pub struct PlaybackRequestStartMsgBodyV1 {
    pub source: PlaybackSourceV1,
}

#[derive(Debug, Clone, Copy, PartialEq, Eq, Structural)]
pub struct PlaybackSyncMsgBodyV1 {
    pub state: PlaybackStateV1,
}

#[derive(Debug, Clone, Copy, PartialEq, Eq, Structural)]
pub struct PlaybackStoppedMsgBodyV1 {
    pub reason: PlaybackStopReasonV1,
}

#[derive(Debug, Clone, Copy, PartialEq, Eq, Structural)]
pub struct PlaybackDisconnectedMsgBodyV1 {
    pub reason: PlaybackDisconnectReasonV1,
}

// ---------------------------------------------------------------------
// The tagged body and the envelope
// ---------------------------------------------------------------------

#[derive(Debug, Clone, PartialEq, Eq)]
pub enum MessageBody {
    ConnectionLoginV1(ConnectionLoginMsgBodyV1),
    ConnectionLoginAckV1,
    ConnectionPingV1,
    ConnectionPongV1,
    ConnectionClientErrorV1(ConnectionClientErrorMsgBodyV1),
    ConnectionClosedV1(ConnectionClosedMsgBodyV1),
    ConnectionKeepaliveV1,
    RoomCreateV1(RoomCreateMsgBodyV1),
    RoomCreateAckV1,
    RoomCloseV1,
    RoomCloseAckV1,
    RoomJoinV1(RoomJoinMsgBodyV1),
    RoomJoinAckV1,
    RoomLeaveV1,
    RoomLeaveAckV1,
    RoomDisconnectedV1(RoomDisconnectedMsgBodyV1),
    RoomRequestStateV1,
    RoomStateV1(RoomStateMsgBodyV1),
    RoomRequestPermissionsV1,
    RoomPermissionsV1(RoomPermissionsMsgBodyV1),
    RoomSetUserRoleV1(RoomSetUserRoleMsgBodyV1),
    RoomKickUserV1(RoomKickUserMsgBodyV1),
    PlaybackRequestHostV1,
    PlaybackHostingV1,
    PlaybackRequestConnectV1,
    PlaybackConnectedV1,
    PlaybackAvailableV1(PlaybackAvailableMsgBodyV1),
    PlaybackRequestStartV1(PlaybackRequestStartMsgBodyV1),
    PlaybackStartedV1,
    PlaybackSyncV1(PlaybackSyncMsgBodyV1),
    PlaybackRequestStopV1,
    PlaybackStoppedV1(PlaybackStoppedMsgBodyV1),
    PlaybackRequestDisconnectV1,
    PlaybackDisconnectedV1(PlaybackDisconnectedMsgBodyV1),
}

#[derive(Debug, Clone, PartialEq, Eq)]
pub struct Message {
    pub timestamp: u64,
    pub body: MessageBody,
}

impl Message {
    pub fn new(body: MessageBody) -> (m: Self)
        ensures
            m.body == body,
    {
        Message { timestamp: crate::utils::timestamp(), body }
    }

    pub fn new_with_timestamp(body: MessageBody, timestamp: u64) -> (m: Self)
        ensures
            m == (Message { timestamp, body }),
    {
        Message { timestamp, body }
    }
}

// ---------------------------------------------------------------------
// Views
// ---------------------------------------------------------------------

pub struct RoomUserView {
    pub id: SessionId,
    pub name: Seq<char>,
    pub role: RoomUserRoleV1,
}

pub struct PlaybackSourceView {
    pub title: Seq<char>,
    pub page_href: Seq<char>,
    pub frame_href: Seq<char>,
    pub element_query: Seq<char>,
}

pub struct PlaybackInfoView {
    pub host: Seq<char>,
    pub source: Option<PlaybackSourceView>,
}

pub struct RoomStateView {
    pub id: RoomId,
    pub name: Seq<char>,
    pub password: Seq<char>,
    pub users: Seq<RoomUserView>,
    pub playback_info: Option<PlaybackInfoView>,
}

/// The mathematical content of one message body.
pub enum BodyView {
    Login { username: Seq<char>, api_key: Option<Seq<char>> },
    LoginAck,
    Ping,
    Pong,
    ClientError { message: Seq<char> },
    Closed { reason: ConnectionClosedReasonV1, message: Seq<char> },
    Keepalive,
    RoomCreate { name: Seq<char>, password: Seq<char> },
    RoomCreateAck,
    RoomClose,
    RoomCloseAck,
    RoomJoin { id: RoomId, password: Seq<char> },
    RoomJoinAck,
    RoomLeave,
    RoomLeaveAck,
    RoomDisconnected { reason: RoomDisconnectedReasonV1 },
    RoomRequestState,
    RoomState { state: RoomStateView },
    RoomRequestPermissions,
    RoomPermissions { role: RoomUserRoleV1, permissions: RoomUserPermissionsV1 },
    RoomSetUserRole { user_id: SessionId, role: RoomUserRoleV1 },
    RoomKickUser { user_id: SessionId },
    PlaybackRequestHost,
    PlaybackHosting,
    PlaybackRequestConnect,
    PlaybackConnected,
    PlaybackAvailable { info: PlaybackInfoView },
    PlaybackRequestStart { source: PlaybackSourceView },
    PlaybackStarted,
    PlaybackSync { state: PlaybackStateV1 },
    PlaybackRequestStop,
    PlaybackStopped { reason: PlaybackStopReasonV1 },
    PlaybackRequestDisconnect,
    PlaybackDisconnected { reason: PlaybackDisconnectReasonV1 },
}

pub struct MessageView {
    pub timestamp: u64,
    pub body: BodyView,
}

pub open spec fn opt_string_view(s: Option<String>) -> Option<Seq<char>> {
    match s {
        None => None,
        Some(t) => Some(t@),
    }
}

impl View for RoomUserV1 {
    type V = RoomUserView;

    open spec fn view(&self) -> RoomUserView {
        RoomUserView { id: self.id, name: self.name@, role: self.role }
    }
}

impl View for PlaybackSourceV1 {
    type V = PlaybackSourceView;

    open spec fn view(&self) -> PlaybackSourceView {
        PlaybackSourceView {
            title: self.title@,
            page_href: self.page_href@,
            frame_href: self.frame_href@,
            element_query: self.element_query@,
        }
    }
}

pub open spec fn opt_source_view(s: Option<PlaybackSourceV1>) -> Option<PlaybackSourceView> {
    match s {
        None => None,
        Some(src) => Some(src@),
    }
}

impl View for RoomPlaybackInfoV1 {
    type V = PlaybackInfoView;

    open spec fn view(&self) -> PlaybackInfoView {
        PlaybackInfoView { host: self.host@, source: opt_source_view(self.source) }
    }
}

pub open spec fn opt_info_view(s: Option<RoomPlaybackInfoV1>) -> Option<PlaybackInfoView> {
    match s {
        None => None,
        Some(info) => Some(info@),
    }
}

pub open spec fn users_view(users: Seq<RoomUserV1>) -> Seq<RoomUserView> {
    Seq::new(users.len(), |i: int| users[i]@)
}

impl View for RoomStateMsgBodyV1 {
    type V = RoomStateView;

    open spec fn view(&self) -> RoomStateView {
        RoomStateView {
            id: self.id,
            name: self.name@,
            password: self.password@,
            users: users_view(self.users@),
            playback_info: opt_info_view(self.playback_info),
        }
    }
}

impl View for MessageBody {
    type V = BodyView;

    open spec fn view(&self) -> BodyView {
        match self {
            MessageBody::ConnectionLoginV1(b) => BodyView::Login {
                username: b.username@,
                api_key: opt_string_view(b.api_key),
            },
            MessageBody::ConnectionLoginAckV1 => BodyView::LoginAck,
            MessageBody::ConnectionPingV1 => BodyView::Ping,
            MessageBody::ConnectionPongV1 => BodyView::Pong,
            MessageBody::ConnectionClientErrorV1(b) => BodyView::ClientError {
                message: b.message@,
            },
            MessageBody::ConnectionClosedV1(b) => BodyView::Closed {
                reason: b.reason,
                message: b.message@,
            },
            MessageBody::ConnectionKeepaliveV1 => BodyView::Keepalive,
            MessageBody::RoomCreateV1(b) => BodyView::RoomCreate {
                name: b.name@,
                password: b.password@,
            },
            MessageBody::RoomCreateAckV1 => BodyView::RoomCreateAck,
            MessageBody::RoomCloseV1 => BodyView::RoomClose,
            MessageBody::RoomCloseAckV1 => BodyView::RoomCloseAck,
            MessageBody::RoomJoinV1(b) => BodyView::RoomJoin {
                id: b.id,
                password: b.password@,
            },
            MessageBody::RoomJoinAckV1 => BodyView::RoomJoinAck,
            MessageBody::RoomLeaveV1 => BodyView::RoomLeave,
            MessageBody::RoomLeaveAckV1 => BodyView::RoomLeaveAck,
            MessageBody::RoomDisconnectedV1(b) => BodyView::RoomDisconnected { reason: b.reason },
            MessageBody::RoomRequestStateV1 => BodyView::RoomRequestState,
            MessageBody::RoomStateV1(b) => BodyView::RoomState { state: b@ },
            MessageBody::RoomRequestPermissionsV1 => BodyView::RoomRequestPermissions,
            MessageBody::RoomPermissionsV1(b) => BodyView::RoomPermissions {
                role: b.role,
                permissions: b.permissions,
            },
            MessageBody::RoomSetUserRoleV1(b) => BodyView::RoomSetUserRole {
                user_id: b.user_id,
                role: b.role,
            },
            MessageBody::RoomKickUserV1(b) => BodyView::RoomKickUser { user_id: b.user_id },
            MessageBody::PlaybackRequestHostV1 => BodyView::PlaybackRequestHost,
            MessageBody::PlaybackHostingV1 => BodyView::PlaybackHosting,
            MessageBody::PlaybackRequestConnectV1 => BodyView::PlaybackRequestConnect,
            MessageBody::PlaybackConnectedV1 => BodyView::PlaybackConnected,
            MessageBody::PlaybackAvailableV1(b) => BodyView::PlaybackAvailable { info: b.info@ },
            MessageBody::PlaybackRequestStartV1(b) => BodyView::PlaybackRequestStart {
                source: b.source@,
            },
            MessageBody::PlaybackStartedV1 => BodyView::PlaybackStarted,
            MessageBody::PlaybackSyncV1(b) => BodyView::PlaybackSync { state: b.state },
            MessageBody::PlaybackRequestStopV1 => BodyView::PlaybackRequestStop,
            MessageBody::PlaybackStoppedV1(b) => BodyView::PlaybackStopped { reason: b.reason },
            MessageBody::PlaybackRequestDisconnectV1 => BodyView::PlaybackRequestDisconnect,
            MessageBody::PlaybackDisconnectedV1(b) => BodyView::PlaybackDisconnected {
                reason: b.reason,
            },
        }
    }
}

impl View for Message {
    type V = MessageView;

    open spec fn view(&self) -> MessageView {
        MessageView { timestamp: self.timestamp, body: self.body@ }
    }
}

/// The views of a list of bodies, in order.
pub open spec fn bodies_view(s: Seq<MessageBody>) -> Seq<BodyView> {
    Seq::new(s.len(), |i: int| s[i]@)
}

} // verus!
