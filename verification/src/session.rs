//! The session supervisor's decision rules: what one authenticated peer
//! may ask of the registry and of its room, and what goes back to the
//! peer and to other sessions.
//!
//! Each operation takes the registry by mutable reference and returns a
//! `SessionStep`: deliveries bound for session inboxes and replies bound
//! for this session's own peer. The transport loop around the library
//! performs both.

use vstd::prelude::*;

use crate::api_access::ApiPermissions;
use crate::ids::{RoomId, SessionId};
use crate::messages::{
    bodies_view, BodyView, ConnectionClientErrorMsgBodyV1, Message, MessageBody, PlaybackStoppedMsgBodyV1,
    PlaybackDisconnectedMsgBodyV1, PlaybackAvailableMsgBodyV1, PlaybackSyncMsgBodyV1,
    RoomDisconnectedMsgBodyV1, RoomDisconnectedReasonV1, RoomPermissionsMsgBodyV1,
    RoomUserPermissionsV1, RoomUserRoleV1,
};
use crate::playback::{
    DisconnectReason, PlaybackRequest, PlaybackSource, PlaybackState, SessionLink, SessionLinkV,
    StopReason,
};
use crate::playback::{spec_disconnect_reason_to_wire, spec_stop_reason_to_wire};
use crate::registry::{
    spec_close_room, spec_join_error_text, spec_join_room, spec_route_request, RoomManager,
};
use crate::room::{
    spec_broadcast_state, spec_role_permissions, spec_role_to_wire, spec_room_error_text,
    RoomCloseReason, RoomError, RoomRequest, RoomV, UserPermissions, UserRole, UserV,
};
use crate::session_msgs::{deliveries_view, Delivery, DeliveryV, SessionMsg};

verus! {

// ---------------------------------------------------------------------
// Small conversions
// ---------------------------------------------------------------------

pub open spec fn spec_role_from_wire(wire: RoomUserRoleV1) -> UserRole {
    match wire {
        RoomUserRoleV1::Host => UserRole::Host,
        RoomUserRoleV1::Guest => UserRole::Guest,
        RoomUserRoleV1::Spectator => UserRole::Spectator,
    }
}

pub open spec fn spec_perms_to_wire(p: UserPermissions) -> RoomUserPermissionsV1 {
    RoomUserPermissionsV1 {
        can_host: p.can_host,
        can_set_roles: p.can_set_roles,
        can_kick: p.can_kick,
        can_close: p.can_close,
    }
}

pub open spec fn spec_client_error(text: Seq<char>) -> BodyView {
    BodyView::ClientError { message: text }
}

// ---------------------------------------------------------------------
// The session and its step output
// ---------------------------------------------------------------------

/// The session's view of the room it belongs to.
#[derive(Debug, Clone, Copy, PartialEq, Eq, Structural)]
pub struct RoomMembership {
    pub id: RoomId,
    pub role: UserRole,
}

/// One authenticated peer: its identity, capabilities, current room and
/// last measured clock offset.
#[derive(Debug, Clone, PartialEq, Eq)]
pub struct Session {
    pub id: SessionId,
    pub username: String,
    pub permissions: ApiPermissions,
    pub room: Option<RoomMembership>,
    pub time_offset: i64,
}

/// The mathematical content of a `Session`.
pub struct SessionV {
    pub id: SessionId,
    pub username: Seq<char>,
    pub permissions: ApiPermissions,
    pub room: Option<RoomMembership>,
    pub time_offset: i64,
}

impl View for Session {
    type V = SessionV;

    open spec fn view(&self) -> SessionV {
        SessionV {
            id: self.id,
            username: self.username@,
            permissions: self.permissions,
            room: self.room,
            time_offset: self.time_offset,
        }
    }
}

/// The link a room keeps to this session.
pub open spec fn spec_link_of(s: SessionV) -> SessionLinkV {
    SessionLinkV { id: s.id, name: s.username, time_offset: s.time_offset }
}

/// What one decision step produces: deliveries bound for session
/// inboxes, and replies bound for this session's own peer, in order.
#[derive(Debug)]
pub struct SessionStep {
    pub deliveries: Vec<Delivery>,
    pub replies: Vec<MessageBody>,
}

/// The four observable results of one step: the session after it, the
/// registry after it, the deliveries, and the replies.
pub struct StepV {
    pub session: SessionV,
    pub rooms: Seq<RoomV>,
    pub deliveries: Seq<DeliveryV>,
    pub replies: Seq<BodyView>,
}

// ---------------------------------------------------------------------
// Spec twins of the session operations
// ---------------------------------------------------------------------

/// Leaving the current room, if any: the room processes the leave, the
/// session forgets its membership, and the peer gets a leave-ack. A room
/// that is already gone reads as a server-side disconnect.
pub open spec fn spec_session_leave(s: SessionV, rooms: Seq<RoomV>) -> StepV {
    match s.room {
        None => StepV { session: s, rooms, deliveries: Seq::empty(), replies: Seq::empty() },
        Some(m) => {
            let s2 = SessionV { room: None, ..s };
            match spec_route_request(rooms, m.id, RoomRequest::Leave(s.id)) {
                None => StepV {
                    session: s2,
                    rooms,
                    deliveries: Seq::empty(),
                    replies: seq![
                        BodyView::RoomDisconnected { reason: RoomDisconnectedReasonV1::ServerError },
                        BodyView::RoomLeaveAck,
                    ],
                },
                Some(step) => StepV {
                    session: s2,
                    rooms: step.0,
                    deliveries: step.1,
                    replies: seq![BodyView::RoomLeaveAck],
                },
            }
        },
    }
}

/// Routing one request to the session's current room. A vanished room
/// clears the membership and reads as a server-side disconnect; a
/// refused request is reported to the peer as a client error.
pub open spec fn spec_session_route(s: SessionV, rooms: Seq<RoomV>, req: RoomRequest) -> StepV
    recommends
        s.room is Some,
{
    let m = s.room->Some_0;
    match spec_route_request(rooms, m.id, req) {
        None => StepV {
            session: SessionV { room: None, ..s },
            rooms,
            deliveries: Seq::empty(),
            replies: seq![
                BodyView::RoomDisconnected { reason: RoomDisconnectedReasonV1::ServerError },
            ],
        },
        Some(step) => StepV {
            session: s,
            rooms: step.0,
            deliveries: step.1,
            replies: match step.2 {
                Ok(()) => Seq::empty(),
                Err(e) => seq![spec_client_error(spec_room_error_text(e))],
            },
        },
    }
}

/// A room created for this session: running, with the creator as its
/// only member and Host.
pub open spec fn spec_room_with_host(
    id: RoomId,
    name: Seq<char>,
    password: Seq<char>,
    session: SessionLinkV,
) -> RoomV {
    RoomV {
        id,
        running: true,
        name,
        password,
        users: seq![UserV { role: UserRole::Host, session }],
        playback: None,
    }
}

/// Creating a room: only a peer with the host capability may; the
/// session leaves its current room first, then enters the new room as
/// Host. `rid` stands for the freshly minted room identifier.
pub open spec fn spec_session_create(
    s: SessionV,
    rooms: Seq<RoomV>,
    name: Seq<char>,
    password: Seq<char>,
    rid: RoomId,
) -> StepV {
    if !s.permissions.host {
        StepV {
            session: s,
            rooms,
            deliveries: Seq::empty(),
            replies: seq![spec_client_error("Your account is not permitted to host rooms"@)],
        }
    } else {
        let l = spec_session_leave(s, rooms);
        let room = spec_room_with_host(rid, name, password, spec_link_of(l.session));
        StepV {
            session: SessionV {
                room: Some(RoomMembership { id: rid, role: UserRole::Host }),
                ..l.session
            },
            rooms: l.rooms.push(room),
            deliveries: l.deliveries + spec_broadcast_state(room),
            replies: l.replies + seq![BodyView::RoomCreateAck],
        }
    }
}

/// Joining a room: the session leaves its current room first, then
/// joins as Guest when the room exists and the password matches; any
/// refusal is reported to the peer.
pub open spec fn spec_session_join(
    s: SessionV,
    rooms: Seq<RoomV>,
    rid: RoomId,
    password: Seq<char>,
) -> StepV {
    let l = spec_session_leave(s, rooms);
    match spec_join_room(l.rooms, rid, password, spec_link_of(l.session)) {
        Err(e) => StepV {
            session: l.session,
            rooms: l.rooms,
            deliveries: l.deliveries,
            replies: l.replies + seq![spec_client_error(spec_join_error_text(e))],
        },
        Ok(step) => StepV {
            session: SessionV {
                room: Some(RoomMembership { id: rid, role: UserRole::Guest }),
                ..l.session
            },
            rooms: step.0,
            deliveries: l.deliveries + step.1,
            replies: l.replies + seq![BodyView::RoomJoinAck],
        },
    }
}

/// Closing the current room: only a member whose role carries
/// `can_close` may; the room is closed through the registry.
pub open spec fn spec_session_close(s: SessionV, rooms: Seq<RoomV>) -> StepV {
    match s.room {
        None => StepV { session: s, rooms, deliveries: Seq::empty(), replies: Seq::empty() },
        Some(m) => if !spec_role_permissions(m.role).can_close {
            StepV {
                session: s,
                rooms,
                deliveries: Seq::empty(),
                replies: seq![spec_client_error("Not authorized to close the room"@)],
            }
        } else {
            let c = spec_close_room(rooms, m.id, RoomCloseReason::ClosedByHost);
            StepV {
                session: SessionV { room: None, ..s },
                rooms: c.0,
                deliveries: c.1,
                replies: seq![BodyView::RoomCloseAck],
            }
        },
    }
}

/// Kicking another session: a forced leave, allowed only to a role with
/// `can_kick`.
pub open spec fn spec_session_kick(s: SessionV, rooms: Seq<RoomV>, target: SessionId) -> StepV {
    match s.room {
        None => StepV { session: s, rooms, deliveries: Seq::empty(), replies: Seq::empty() },
        Some(m) => if !spec_role_permissions(m.role).can_kick {
            StepV {
                session: s,
                rooms,
                deliveries: Seq::empty(),
                replies: seq![spec_client_error("Not authorized to kick users"@)],
            }
        } else {
            spec_session_route(s, rooms, RoomRequest::Leave(target))
        },
    }
}

/// Changing another member's role, allowed only to a role with
/// `can_set_roles`.
pub open spec fn spec_session_set_role(
    s: SessionV,
    rooms: Seq<RoomV>,
    target: SessionId,
    role: UserRole,
) -> StepV {
    match s.room {
        None => StepV { session: s, rooms, deliveries: Seq::empty(), replies: Seq::empty() },
        Some(m) => if !spec_role_permissions(m.role).can_set_roles {
            StepV {
                session: s,
                rooms,
                deliveries: Seq::empty(),
                replies: seq![spec_client_error("Not authorized to set user roles"@)],
            }
        } else {
            spec_session_route(s, rooms, RoomRequest::SetRole(target, role))
        },
    }
}

/// Reporting the session's own role and permissions to the peer.
pub open spec fn spec_session_permissions(s: SessionV, rooms: Seq<RoomV>) -> StepV {
    match s.room {
        None => StepV {
            session: s,
            rooms,
            deliveries: Seq::empty(),
            replies: seq![spec_client_error("Not currently in a room"@)],
        },
        Some(m) => StepV {
            session: s,
            rooms,
            deliveries: Seq::empty(),
            replies: seq![
                BodyView::RoomPermissions {
                    role: spec_role_to_wire(m.role),
                    permissions: spec_perms_to_wire(spec_role_permissions(m.role)),
                },
            ],
        },
    }
}

/// A room-bound request that needs a membership and, for hosting or
/// connecting to playback, the `can_host` permission.
pub open spec fn spec_session_playback_gate(
    s: SessionV,
    rooms: Seq<RoomV>,
    req: RoomRequest,
) -> StepV {
    match s.room {
        None => StepV {
            session: s,
            rooms,
            deliveries: Seq::empty(),
            replies: seq![spec_client_error("Not currently in a room"@)],
        },
        Some(m) => if !spec_role_permissions(m.role).can_host {
            StepV {
                session: s,
                rooms,
                deliveries: Seq::empty(),
                replies: seq![spec_client_error("Not authorized to host playback"@)],
            }
        } else {
            spec_session_route(s, rooms, req)
        },
    }
}

/// An ungated room-bound request (state queries and playback traffic).
pub open spec fn spec_session_room_msg(s: SessionV, rooms: Seq<RoomV>, req: RoomRequest) -> StepV {
    match s.room {
        None => StepV {
            session: s,
            rooms,
            deliveries: Seq::empty(),
            replies: seq![spec_client_error("Not currently in a room"@)],
        },
        Some(_) => spec_session_route(s, rooms, req),
    }
}

/// A fresh clock offset: remembered by the session and forwarded to its
/// room, so that sync traffic uses it.
pub open spec fn spec_session_offset(s: SessionV, rooms: Seq<RoomV>, offset: i64) -> StepV {
    let s2 = SessionV { time_offset: offset, ..s };
    match s.room {
        None => StepV { session: s2, rooms, deliveries: Seq::empty(), replies: Seq::empty() },
        Some(_) => spec_session_route(s2, rooms, RoomRequest::UpdateTimeOffset(s.id, offset)),
    }
}

/// The wire body that one room-side message becomes at the peer.
pub open spec fn spec_session_msg_body(m: crate::session_msgs::SessionMsgV) -> BodyView {
    match m {
        crate::session_msgs::SessionMsgV::RoomState(state) => BodyView::RoomState {
            state: crate::room::spec_state_to_wire(state),
        },
        crate::session_msgs::SessionMsgV::RoomClosed(reason) => BodyView::RoomDisconnected {
            reason: match reason {
                RoomCloseReason::ClosedByHost => RoomDisconnectedReasonV1::ClosedByHost,
                RoomCloseReason::ServerError => RoomDisconnectedReasonV1::ServerError,
            },
        },
        crate::session_msgs::SessionMsgV::PlaybackHosting => BodyView::PlaybackHosting,
        crate::session_msgs::SessionMsgV::PlaybackAvailable(info) => BodyView::PlaybackAvailable {
            info,
        },
        crate::session_msgs::SessionMsgV::PlaybackStarted => BodyView::PlaybackStarted,
        crate::session_msgs::SessionMsgV::PlaybackConnected => BodyView::PlaybackConnected,
        crate::session_msgs::SessionMsgV::PlaybackSync(state) => BodyView::PlaybackSync {
            state: crate::messages::PlaybackStateV1 {
                timestamp: state.timestamp,
                playing: state.playing,
                time_millis: state.time_millis,
            },
        },
        crate::session_msgs::SessionMsgV::PlaybackStopped(reason) => BodyView::PlaybackStopped {
            reason: spec_stop_reason_to_wire(reason),
        },
        crate::session_msgs::SessionMsgV::PlaybackDisconnected(reason) => BodyView::PlaybackDisconnected {
            reason: spec_disconnect_reason_to_wire(reason),
        },
    }
}

/// One client message, dispatched. `rid` stands for the room identifier
/// minted when the message creates a room; for every other message kind
/// it is irrelevant.
pub open spec fn spec_session_dispatch(
    s: SessionV,
    rooms: Seq<RoomV>,
    body: MessageBody,
    rid: RoomId,
) -> StepV {
    match body {
        MessageBody::RoomCreateV1(b) => spec_session_create(s, rooms, b.name@, b.password@, rid),
        MessageBody::RoomCloseV1 => spec_session_close(s, rooms),
        MessageBody::RoomJoinV1(b) => spec_session_join(s, rooms, b.id, b.password@),
        MessageBody::RoomLeaveV1 => spec_session_leave(s, rooms),
        MessageBody::RoomRequestStateV1 => spec_session_room_msg(s, rooms, RoomRequest::GetState),
        MessageBody::RoomRequestPermissionsV1 => spec_session_permissions(s, rooms),
        MessageBody::RoomSetUserRoleV1(b) => spec_session_set_role(
            s,
            rooms,
            b.user_id,
            spec_role_from_wire(b.role),
        ),
        MessageBody::RoomKickUserV1(b) => spec_session_kick(s, rooms, b.user_id),
        MessageBody::PlaybackRequestHostV1 => spec_session_playback_gate(
            s,
            rooms,
            RoomRequest::PlaybackHost(s.id),
        ),
        MessageBody::PlaybackRequestConnectV1 => spec_session_playback_gate(
            s,
            rooms,
            RoomRequest::PlaybackConnect(s.id),
        ),
        MessageBody::PlaybackRequestStartV1(b) => spec_session_room_msg(
            s,
            rooms,
            RoomRequest::Playback(
                s.id,
                PlaybackRequest::Start(PlaybackSource {
                    title: b.source.title,
                    page_href: b.source.page_href,
                    frame_href: b.source.frame_href,
                    element_query: b.source.element_query,
                }),
            ),
        ),
        MessageBody::PlaybackSyncV1(b) => spec_session_room_msg(
            s,
            rooms,
            RoomRequest::Playback(
                s.id,
                PlaybackRequest::Sync(PlaybackState {
                    timestamp: b.state.timestamp,
                    playing: b.state.playing,
                    time_millis: b.state.time_millis,
                }),
            ),
        ),
        MessageBody::PlaybackRequestStopV1 => spec_session_room_msg(
            s,
            rooms,
            RoomRequest::Playback(s.id, PlaybackRequest::Stop(StopReason::StoppedByHost)),
        ),
        MessageBody::PlaybackRequestDisconnectV1 => spec_session_room_msg(
            s,
            rooms,
            RoomRequest::Playback(s.id, PlaybackRequest::Disconnect(DisconnectReason::User)),
        ),
        _ => StepV { session: s, rooms, deliveries: Seq::empty(), replies: Seq::empty() },
    }
}

/// Whether an executable step, together with the session and registry
/// after it, matches a spec-level step.
pub open spec fn step_obeys(
    step: SessionStep,
    out: StepV,
    session: SessionV,
    rooms: Seq<RoomV>,
) -> bool {
    &&& session == out.session
    &&& rooms == out.rooms
    &&& deliveries_view(step.deliveries@) == out.deliveries
    &&& bodies_view(step.replies@) == out.replies
}

// ---------------------------------------------------------------------
// The executable session
// ---------------------------------------------------------------------

/// A client-error reply carrying the given wording.
fn client_error_of(text: String) -> (b: MessageBody)
    ensures
        b@ == spec_client_error(text@),
{
    MessageBody::ConnectionClientErrorV1(ConnectionClientErrorMsgBodyV1 { message: text })
}

/// The step that does nothing.
fn empty_step() -> (r: SessionStep)
    ensures
        deliveries_view(r.deliveries@) == Seq::<DeliveryV>::empty(),
        bodies_view(r.replies@) == Seq::<BodyView>::empty(),
{
    let r = SessionStep { deliveries: Vec::new(), replies: Vec::new() };
    proof {
        assert(deliveries_view(r.deliveries@) =~= Seq::<DeliveryV>::empty());
        assert(bodies_view(r.replies@) =~= Seq::<BodyView>::empty());
    }
    r
}

/// The step with no deliveries and one reply.
fn reply_step(body: MessageBody) -> (r: SessionStep)
    ensures
        deliveries_view(r.deliveries@) == Seq::<DeliveryV>::empty(),
        bodies_view(r.replies@) == seq![body@],
{
    let mut replies: Vec<MessageBody> = Vec::new();
    replies.push(body);
    let r = SessionStep { deliveries: Vec::new(), replies };
    proof {
        assert(deliveries_view(r.deliveries@) =~= Seq::<DeliveryV>::empty());
        assert(bodies_view(r.replies@) =~= seq![r.replies@[0]@]);
    }
    r
}

impl Session {
    /// A fresh session for an authenticated peer.
    pub fn new(username: String, permissions: ApiPermissions) -> (s: Self)
        ensures
            s@.username == username@,
            s@.permissions == permissions,
            s@.room is None,
            s@.time_offset == 0,
    {
        Session {
            id: SessionId::fresh(),
            username,
            permissions,
            room: None,
            time_offset: 0,
        }
    }

    /// The link handed to rooms this session joins.
    pub fn get_link(&self) -> (link: SessionLink)
        ensures
            link@ == spec_link_of(self@),
    {
        SessionLink { id: self.id, name: self.username.clone(), time_offset: self.time_offset }
    }

    /// Routes one request to the current room (which must exist).
    fn route(&mut self, mgr: &mut RoomManager, req: RoomRequest) -> (r: SessionStep)
        requires
            old(self).room is Some,
        ensures
            step_obeys(
                r,
                spec_session_route(old(self)@, old(mgr)@, req),
                final(self)@,
                final(mgr)@,
            ),
    {
        let m = match &self.room {
            Some(m) => *m,
            None => {
                proof {
                    assert(false);
                }
                RoomMembership { id: RoomId { bits: 0 }, role: UserRole::Guest }
            },
        };
        match mgr.room_request(m.id, req) {
            None => {
                self.room = None;
                reply_step(
                    MessageBody::RoomDisconnectedV1(RoomDisconnectedMsgBodyV1 {
                        reason: RoomDisconnectedReasonV1::ServerError,
                    }),
                )
            },
            Some((fx, outcome)) => match outcome {
                Ok(()) => {
                    let r = SessionStep { deliveries: fx, replies: Vec::new() };
                    proof {
                        assert(bodies_view(r.replies@) =~= Seq::<BodyView>::empty());
                    }
                    r
                },
                Err(e) => {
                    let mut replies: Vec<MessageBody> = Vec::new();
                    replies.push(client_error_of(e.describe()));
                    let r = SessionStep { deliveries: fx, replies };
                    proof {
                        assert(bodies_view(r.replies@) =~= seq![r.replies@[0]@]);
                    }
                    r
                },
            },
        }
    }

    /// Leaves the current room, if any, and acknowledges to the peer.
    pub fn leave_room(&mut self, mgr: &mut RoomManager) -> (r: SessionStep)
        ensures
            step_obeys(
                r,
                spec_session_leave(old(self)@, old(mgr)@),
                final(self)@,
                final(mgr)@,
            ),
    {
        let m = match &self.room {
            None => {
                return empty_step();
            },
            Some(m) => *m,
        };
        self.room = None;
        match mgr.room_request(m.id, RoomRequest::Leave(self.id)) {
            None => {
                let mut replies: Vec<MessageBody> = Vec::new();
                replies.push(
                    MessageBody::RoomDisconnectedV1(RoomDisconnectedMsgBodyV1 {
                        reason: RoomDisconnectedReasonV1::ServerError,
                    }),
                );
                replies.push(MessageBody::RoomLeaveAckV1);
                let r = SessionStep { deliveries: Vec::new(), replies };
                proof {
                    assert(deliveries_view(r.deliveries@) =~= Seq::<DeliveryV>::empty());
                    assert(bodies_view(r.replies@) =~= seq![r.replies@[0]@, r.replies@[1]@]);
                }
                r
            },
            Some((fx, _outcome)) => {
                let mut replies: Vec<MessageBody> = Vec::new();
                replies.push(MessageBody::RoomLeaveAckV1);
                let r = SessionStep { deliveries: fx, replies };
                proof {
                    assert(bodies_view(r.replies@) =~= seq![r.replies@[0]@]);
                }
                r
            },
        }
    }

    /// Creates a room, after leaving the current one, and enters it as
    /// Host. Refused without the host capability.
    pub fn create_room(&mut self, mgr: &mut RoomManager, name: String, password: String) -> (r:
        SessionStep)
        ensures
            exists|rid: RoomId|
                step_obeys(
                    r,
                    #[trigger] spec_session_create(old(self)@, old(mgr)@, name@, password@, rid),
                    final(self)@,
                    final(mgr)@,
                ),
    {
        if !self.permissions.host {
            let r = reply_step(
                client_error_of("Your account is not permitted to host rooms".to_owned()),
            );
            proof {
                let rid = RoomId { bits: 0 };
                assert(step_obeys(
                    r,
                    spec_session_create(self@, mgr@, name@, password@, rid),
                    self@,
                    mgr@,
                ));
            }
            return r;
        }
        let ghost s0 = self@;
        let ghost rooms0 = mgr@;
        let ghost namev = name@;
        let ghost passv = password@;
        let mut step = self.leave_room(mgr);
        let ghost l = spec_session_leave(s0, rooms0);
        let link = self.get_link();
        let (rid, mut fx) = mgr.create_room(name, password, link);
        self.room = Some(RoomMembership { id: rid, role: UserRole::Host });
        proof {
            let room = spec_room_with_host(rid, namev, passv, spec_link_of(l.session));
            assert(mgr@.last() == room);
            assert(mgr@ =~= l.rooms.push(room));
            assert(deliveries_view(step.deliveries@ + fx@)
                =~= deliveries_view(step.deliveries@) + deliveries_view(fx@));
        }
        step.deliveries.append(&mut fx);
        let ghost replies0 = step.replies@;
        step.replies.push(MessageBody::RoomCreateAckV1);
        proof {
            assert(bodies_view(step.replies@)
                =~= bodies_view(replies0) + seq![BodyView::RoomCreateAck]);
            assert(step_obeys(
                step,
                spec_session_create(s0, rooms0, name@, password@, rid),
                self@,
                mgr@,
            ));
        }
        step
    }

    /// Joins a room as Guest, after leaving the current one; a refusal
    /// is reported to the peer.
    pub fn join_room(&mut self, mgr: &mut RoomManager, room_id: RoomId, password: String) -> (r:
        SessionStep)
        ensures
            step_obeys(
                r,
                spec_session_join(old(self)@, old(mgr)@, room_id, password@),
                final(self)@,
                final(mgr)@,
            ),
    {
        let ghost s0 = self@;
        let ghost rooms0 = mgr@;
        let mut step = self.leave_room(mgr);
        let link = self.get_link();
        let ghost replies0 = step.replies@;
        match mgr.join_room(room_id, &password, link) {
            Err(e) => {
                step.replies.push(client_error_of(e.describe()));
                proof {
                    assert(bodies_view(step.replies@) =~= bodies_view(replies0)
                        + seq![spec_client_error(spec_join_error_text(e))]);
                }
            },
            Ok(mut fx) => {
                self.room = Some(RoomMembership { id: room_id, role: UserRole::Guest });
                proof {
                    assert(deliveries_view(step.deliveries@ + fx@)
                        =~= deliveries_view(step.deliveries@) + deliveries_view(fx@));
                }
                step.deliveries.append(&mut fx);
                step.replies.push(MessageBody::RoomJoinAckV1);
                proof {
                    assert(bodies_view(step.replies@) =~= bodies_view(replies0)
                        + seq![BodyView::RoomJoinAck]);
                }
            },
        }
        step
    }

    /// Closes the current room through the registry; only a role with
    /// `can_close` may.
    pub fn close_room(&mut self, mgr: &mut RoomManager) -> (r: SessionStep)
        ensures
            step_obeys(
                r,
                spec_session_close(old(self)@, old(mgr)@),
                final(self)@,
                final(mgr)@,
            ),
    {
        let m = match &self.room {
            None => {
                return empty_step();
            },
            Some(m) => *m,
        };
        if !m.role.permissions().can_close {
            return reply_step(client_error_of("Not authorized to close the room".to_owned()));
        }
        self.room = None;
        let fx = mgr.close_room(m.id, RoomCloseReason::ClosedByHost);
        let mut replies: Vec<MessageBody> = Vec::new();
        replies.push(MessageBody::RoomCloseAckV1);
        let r = SessionStep { deliveries: fx, replies };
        proof {
            assert(bodies_view(r.replies@) =~= seq![r.replies@[0]@]);
        }
        r
    }

    /// Kicks another session out of the room; only a role with
    /// `can_kick` may.
    pub fn kick(&mut self, mgr: &mut RoomManager, target: SessionId) -> (r: SessionStep)
        ensures
            step_obeys(
                r,
                spec_session_kick(old(self)@, old(mgr)@, target),
                final(self)@,
                final(mgr)@,
            ),
    {
        let m = match &self.room {
            None => {
                return empty_step();
            },
            Some(m) => *m,
        };
        if !m.role.permissions().can_kick {
            return reply_step(client_error_of("Not authorized to kick users".to_owned()));
        }
        self.route(mgr, RoomRequest::Leave(target))
    }

    /// Changes another member's role; only a role with `can_set_roles`
    /// may.
    pub fn set_user_role(&mut self, mgr: &mut RoomManager, target: SessionId, role: UserRole) -> (r:
        SessionStep)
        ensures
            step_obeys(
                r,
                spec_session_set_role(old(self)@, old(mgr)@, target, role),
                final(self)@,
                final(mgr)@,
            ),
    {
        let m = match &self.room {
            None => {
                return empty_step();
            },
            Some(m) => *m,
        };
        if !m.role.permissions().can_set_roles {
            return reply_step(client_error_of("Not authorized to set user roles".to_owned()));
        }
        self.route(mgr, RoomRequest::SetRole(target, role))
    }

    /// Reports this session's role and permissions to its peer.
    pub fn send_room_permissions(&self) -> (r: SessionStep)
        ensures
            deliveries_view(r.deliveries@) == Seq::<DeliveryV>::empty(),
            bodies_view(r.replies@) == spec_session_permissions(
                self@,
                Seq::<RoomV>::empty(),
            ).replies,
    {
        let m = match &self.room {
            None => {
                return reply_step(client_error_of("Not currently in a room".to_owned()));
            },
            Some(m) => *m,
        };
        let p = m.role.permissions();
        reply_step(
            MessageBody::RoomPermissionsV1(RoomPermissionsMsgBodyV1 {
                role: m.role.to_wire(),
                permissions: RoomUserPermissionsV1 {
                    can_host: p.can_host,
                    can_set_roles: p.can_set_roles,
                    can_kick: p.can_kick,
                    can_close: p.can_close,
                },
            }),
        )
    }

    /// Asks to host a playback; only a role with `can_host` may.
    pub fn host_playback(&mut self, mgr: &mut RoomManager) -> (r: SessionStep)
        ensures
            step_obeys(
                r,
                spec_session_playback_gate(
                    old(self)@,
                    old(mgr)@,
                    RoomRequest::PlaybackHost(old(self).id),
                ),
                final(self)@,
                final(mgr)@,
            ),
    {
        let m = match &self.room {
            None => {
                return reply_step(client_error_of("Not currently in a room".to_owned()));
            },
            Some(m) => *m,
        };
        if !m.role.permissions().can_host {
            return reply_step(client_error_of("Not authorized to host playback".to_owned()));
        }
        let id = self.id;
        self.route(mgr, RoomRequest::PlaybackHost(id))
    }

    /// Asks to subscribe to the playback; only a role with `can_host`
    /// may.
    pub fn connect_playback(&mut self, mgr: &mut RoomManager) -> (r: SessionStep)
        ensures
            step_obeys(
                r,
                spec_session_playback_gate(
                    old(self)@,
                    old(mgr)@,
                    RoomRequest::PlaybackConnect(old(self).id),
                ),
                final(self)@,
                final(mgr)@,
            ),
    {
        let m = match &self.room {
            None => {
                return reply_step(client_error_of("Not currently in a room".to_owned()));
            },
            Some(m) => *m,
        };
        if !m.role.permissions().can_host {
            return reply_step(client_error_of("Not authorized to host playback".to_owned()));
        }
        let id = self.id;
        self.route(mgr, RoomRequest::PlaybackConnect(id))
    }

    /// Forwards a playback request of this session to its room.
    pub fn playback_request(&mut self, mgr: &mut RoomManager, request: PlaybackRequest) -> (r:
        SessionStep)
        ensures
            step_obeys(
                r,
                spec_session_room_msg(
                    old(self)@,
                    old(mgr)@,
                    RoomRequest::Playback(old(self).id, request),
                ),
                final(self)@,
                final(mgr)@,
            ),
    {
        match &self.room {
            None => {
                return reply_step(client_error_of("Not currently in a room".to_owned()));
            },
            Some(_) => (),
        }
        let id = self.id;
        self.route(mgr, RoomRequest::Playback(id, request))
    }

    /// Asks the room to broadcast its state.
    pub fn request_state(&mut self, mgr: &mut RoomManager) -> (r: SessionStep)
        ensures
            step_obeys(
                r,
                spec_session_room_msg(old(self)@, old(mgr)@, RoomRequest::GetState),
                final(self)@,
                final(mgr)@,
            ),
    {
        match &self.room {
            None => {
                return reply_step(client_error_of("Not currently in a room".to_owned()));
            },
            Some(_) => (),
        }
        self.route(mgr, RoomRequest::GetState)
    }

    /// Records a freshly measured clock offset and forwards it to the
    /// room, so that sync traffic uses it.
    pub fn record_time_offset(&mut self, mgr: &mut RoomManager, offset: i64) -> (r: SessionStep)
        ensures
            step_obeys(
                r,
                spec_session_offset(old(self)@, old(mgr)@, offset),
                final(self)@,
                final(mgr)@,
            ),
    {
        self.time_offset = offset;
        match &self.room {
            None => empty_step(),
            Some(_) => {
                let id = self.id;
                self.route(mgr, RoomRequest::UpdateTimeOffset(id, offset))
            },
        }
    }

    /// Turns one room-side message into the wire body for the peer; a
    /// room-closed message also ends the membership.
    pub fn handle_session_msg(&mut self, msg: SessionMsg) -> (r: MessageBody)
        ensures
            r@ == spec_session_msg_body(msg@),
            final(self)@ == (match msg@ {
                crate::session_msgs::SessionMsgV::RoomClosed(_) => (SessionV {
                    room: None,
                    ..old(self)@
                }),
                _ => old(self)@,
            }),
    {
        match msg {
            SessionMsg::RoomState(state) => MessageBody::RoomStateV1(state.to_wire()),
            SessionMsg::RoomClosed(reason) => {
                self.room = None;
                MessageBody::RoomDisconnectedV1(RoomDisconnectedMsgBodyV1 {
                    reason: match reason {
                        RoomCloseReason::ClosedByHost => RoomDisconnectedReasonV1::ClosedByHost,
                        RoomCloseReason::ServerError => RoomDisconnectedReasonV1::ServerError,
                    },
                })
            },
            SessionMsg::PlaybackHosting => MessageBody::PlaybackHostingV1,
            SessionMsg::PlaybackAvailable(info) => MessageBody::PlaybackAvailableV1(
                PlaybackAvailableMsgBodyV1 { info: info.to_wire() },
            ),
            SessionMsg::PlaybackStarted => MessageBody::PlaybackStartedV1,
            SessionMsg::PlaybackConnected => MessageBody::PlaybackConnectedV1,
            SessionMsg::PlaybackSync(state) => MessageBody::PlaybackSyncV1(
                PlaybackSyncMsgBodyV1 { state: state.to_wire() },
            ),
            SessionMsg::PlaybackStopped(reason) => MessageBody::PlaybackStoppedV1(
                PlaybackStoppedMsgBodyV1 { reason: reason.to_wire() },
            ),
            SessionMsg::PlaybackDisconnected(reason) => MessageBody::PlaybackDisconnectedV1(
                PlaybackDisconnectedMsgBodyV1 { reason: reason.to_wire() },
            ),
        }
    }

    /// Dispatches one client message. Unknown or connection-level kinds
    /// are ignored, as the supervisor never sees them.
    pub fn handle_client_msg(&mut self, mgr: &mut RoomManager, msg: Message) -> (r: SessionStep)
        ensures
            exists|rid: RoomId|
                step_obeys(
                    r,
                    #[trigger] spec_session_dispatch(old(self)@, old(mgr)@, msg.body, rid),
                    final(self)@,
                    final(mgr)@,
                ),
    {
        let ghost s0 = self@;
        let ghost rooms0 = mgr@;
        let ghost body0 = msg.body;
        let ghost anyrid = RoomId { bits: 0 };
        match msg.body {
            MessageBody::RoomCreateV1(b) => {
                let r = self.create_room(mgr, b.name, b.password);
                proof {
                    let rid = choose|rid: RoomId|
                        step_obeys(
                            r,
                            #[trigger] spec_session_create(
                                s0,
                                rooms0,
                                body0->RoomCreateV1_0.name@,
                                body0->RoomCreateV1_0.password@,
                                rid,
                            ),
                            self@,
                            mgr@,
                        );
                    assert(step_obeys(
                        r,
                        spec_session_dispatch(s0, rooms0, body0, rid),
                        self@,
                        mgr@,
                    ));
                }
                r
            },
            MessageBody::RoomCloseV1 => {
                let r = self.close_room(mgr);
                proof {
                    assert(step_obeys(r, spec_session_dispatch(s0, rooms0, body0, anyrid), self@, mgr@));
                }
                r
            },
            MessageBody::RoomJoinV1(b) => {
                let r = self.join_room(mgr, b.id, b.password);
                proof {
                    assert(step_obeys(r, spec_session_dispatch(s0, rooms0, body0, anyrid), self@, mgr@));
                }
                r
            },
            MessageBody::RoomLeaveV1 => {
                let r = self.leave_room(mgr);
                proof {
                    assert(step_obeys(r, spec_session_dispatch(s0, rooms0, body0, anyrid), self@, mgr@));
                }
                r
            },
            MessageBody::RoomRequestStateV1 => {
                let r = self.request_state(mgr);
                proof {
                    assert(step_obeys(r, spec_session_dispatch(s0, rooms0, body0, anyrid), self@, mgr@));
                }
                r
            },
            MessageBody::RoomRequestPermissionsV1 => {
                let r = self.send_room_permissions();
                proof {
                    assert(step_obeys(r, spec_session_dispatch(s0, rooms0, body0, anyrid), self@, mgr@));
                }
                r
            },
            MessageBody::RoomSetUserRoleV1(b) => {
                let r = self.set_user_role(mgr, b.user_id, UserRole::from_wire(b.role));
                proof {
                    assert(step_obeys(r, spec_session_dispatch(s0, rooms0, body0, anyrid), self@, mgr@));
                }
                r
            },
            MessageBody::RoomKickUserV1(b) => {
                let r = self.kick(mgr, b.user_id);
                proof {
                    assert(step_obeys(r, spec_session_dispatch(s0, rooms0, body0, anyrid), self@, mgr@));
                }
                r
            },
            MessageBody::PlaybackRequestHostV1 => {
                let r = self.host_playback(mgr);
                proof {
                    assert(step_obeys(r, spec_session_dispatch(s0, rooms0, body0, anyrid), self@, mgr@));
                }
                r
            },
            MessageBody::PlaybackRequestConnectV1 => {
                let r = self.connect_playback(mgr);
                proof {
                    assert(step_obeys(r, spec_session_dispatch(s0, rooms0, body0, anyrid), self@, mgr@));
                }
                r
            },
            MessageBody::PlaybackRequestStartV1(b) => {
                let source = PlaybackSource::from_wire(&b.source);
                let r = self.playback_request(mgr, PlaybackRequest::Start(source));
                proof {
                    assert(step_obeys(r, spec_session_dispatch(s0, rooms0, body0, anyrid), self@, mgr@));
                }
                r
            },
            MessageBody::PlaybackSyncV1(b) => {
                let state = PlaybackState::from_wire(&b.state);
                let r = self.playback_request(mgr, PlaybackRequest::Sync(state));
                proof {
                    assert(step_obeys(r, spec_session_dispatch(s0, rooms0, body0, anyrid), self@, mgr@));
                }
                r
            },
            MessageBody::PlaybackRequestStopV1 => {
                let r = self.playback_request(
                    mgr,
                    PlaybackRequest::Stop(StopReason::StoppedByHost),
                );
                proof {
                    assert(step_obeys(r, spec_session_dispatch(s0, rooms0, body0, anyrid), self@, mgr@));
                }
                r
            },
            MessageBody::PlaybackRequestDisconnectV1 => {
                let r = self.playback_request(
                    mgr,
                    PlaybackRequest::Disconnect(DisconnectReason::User),
                );
                proof {
                    assert(step_obeys(r, spec_session_dispatch(s0, rooms0, body0, anyrid), self@, mgr@));
                }
                r
            },
            _ => {
                let r = empty_step();
                proof {
                    assert(step_obeys(r, spec_session_dispatch(s0, rooms0, body0, anyrid), self@, mgr@));
                }
                r
            },
        }
    }
}

// ---------------------------------------------------------------------
// Laws of session membership
// ---------------------------------------------------------------------

/// Every room that counts this session among its members is the one the
/// session's own membership names.
pub open spec fn session_room_coherent(s: SessionV, rooms: Seq<RoomV>) -> bool {
    forall|i: int|
        0 <= i < rooms.len() && crate::room::has_member(#[trigger] rooms[i].users, s.id)
            ==> s.room is Some && rooms[i].id == s.room->Some_0.id
}

/// The session is a member of at most one room of the registry.
pub open spec fn member_of_at_most_one(rooms: Seq<RoomV>, sid: SessionId) -> bool {
    forall|i: int, j: int|
        0 <= i < j < rooms.len() ==> !(crate::room::has_member(#[trigger] rooms[i].users, sid)
            && crate::room::has_member(#[trigger] rooms[j].users, sid))
}

/// After a leave, no room of the registry counts the session among its
/// members.
pub proof fn lemma_leave_clears_membership(s: SessionV, rooms: Seq<RoomV>)
    requires
        session_room_coherent(s, rooms),
        crate::registry::registry_wf(rooms),
    ensures
        forall|i: int|
            0 <= i < spec_session_leave(s, rooms).rooms.len() ==> !crate::room::has_member(
                #[trigger] spec_session_leave(s, rooms).rooms[i].users,
                s.id,
            ),
{
    let out = spec_session_leave(s, rooms).rooms;
    match s.room {
        None => {
            assert forall|i: int| 0 <= i < out.len() implies !crate::room::has_member(
                out[i].users,
                s.id,
            ) by {
                assert(out[i] == rooms[i]);
            }
        },
        Some(m) => {
            match spec_route_request(rooms, m.id, RoomRequest::Leave(s.id)) {
                None => {
                    assert(!crate::registry::has_room(rooms, m.id));
                    assert forall|i: int| 0 <= i < out.len() implies !crate::room::has_member(
                        out[i].users,
                        s.id,
                    ) by {
                        assert(out[i] == rooms[i]);
                        if crate::room::has_member(rooms[i].users, s.id) {
                            assert(rooms[i].id == m.id);
                            assert(crate::registry::has_room(rooms, m.id));
                        }
                    }
                },
                Some(step) => {
                    crate::registry::lemma_room_idx(rooms, m.id);
                    let k = crate::registry::room_idx(rooms, m.id);
                    assert(rooms[k].wf());
                    crate::room::lemma_leave_removes_member(rooms[k], s.id);
                    let room2 = crate::room::spec_leave(rooms[k], s.id).0;
                    if room2.running {
                        assert forall|i: int| 0 <= i < out.len() implies !crate::room::has_member(
                            out[i].users,
                            s.id,
                        ) by {
                            if i == k {
                                assert(out[i] == room2);
                            } else {
                                assert(out[i] == rooms[i]);
                                if crate::room::has_member(rooms[i].users, s.id) {
                                    assert(rooms[i].id == m.id);
                                    assert(rooms[k].id == m.id);
                                    if i < k {
                                        assert(rooms[i].id != rooms[k].id);
                                    } else {
                                        assert(rooms[k].id != rooms[i].id);
                                    }
                                }
                            }
                        }
                    } else {
                        assert forall|i: int| 0 <= i < out.len() implies !crate::room::has_member(
                            out[i].users,
                            s.id,
                        ) by {
                            let src: int = if i < k {
                                i
                            } else {
                                i + 1
                            };
                            assert(out[i] == rooms[src]);
                            if crate::room::has_member(rooms[src].users, s.id) {
                                assert(rooms[src].id == m.id);
                                assert(rooms[k].id == m.id);
                                if src < k {
                                    assert(rooms[src].id != rooms[k].id);
                                } else {
                                    assert(rooms[k].id != rooms[src].id);
                                }
                            }
                        }
                    }
                },
            }
        },
    }
}

/// A session is a member of at most one room: joining always leaves the
/// current room first, and the join itself adds the session to the one
/// room it names.
pub proof fn lemma_join_keeps_single_membership(
    s: SessionV,
    rooms: Seq<RoomV>,
    rid: RoomId,
    password: Seq<char>,
)
    requires
        session_room_coherent(s, rooms),
        crate::registry::registry_wf(rooms),
    ensures
        member_of_at_most_one(spec_session_join(s, rooms, rid, password).rooms, s.id),
{
    lemma_leave_clears_membership(s, rooms);
    let l = spec_session_leave(s, rooms);
    let out = spec_session_join(s, rooms, rid, password).rooms;
    match spec_join_room(l.rooms, rid, password, spec_link_of(l.session)) {
        Err(_) => {
            assert(out == l.rooms);
        },
        Ok(step) => {
            crate::registry::lemma_room_idx(l.rooms, rid);
            let k = crate::registry::room_idx(l.rooms, rid);
            assert forall|i: int, j: int| 0 <= i < j < out.len() implies !(
            crate::room::has_member(out[i].users, s.id) && crate::room::has_member(
                out[j].users,
                s.id,
            )) by {
                if i != k {
                    assert(out[i] == l.rooms[i]);
                }
                if j != k {
                    assert(out[j] == l.rooms[j]);
                }
            }
        },
    }
}

/// A session is a member of at most one room: creating a room always
/// leaves the current one first, and the creator becomes a member of
/// the new room alone.
pub proof fn lemma_create_keeps_single_membership(
    s: SessionV,
    rooms: Seq<RoomV>,
    name: Seq<char>,
    password: Seq<char>,
    rid: RoomId,
)
    requires
        session_room_coherent(s, rooms),
        crate::registry::registry_wf(rooms),
    ensures
        member_of_at_most_one(spec_session_create(s, rooms, name, password, rid).rooms, s.id),
{
    let out = spec_session_create(s, rooms, name, password, rid).rooms;
    if !s.permissions.host {
        assert forall|i: int, j: int| 0 <= i < j < out.len() implies !(
        crate::room::has_member(out[i].users, s.id) && crate::room::has_member(
            out[j].users,
            s.id,
        )) by {
            assert(out[i] == rooms[i]);
            assert(out[j] == rooms[j]);
            if crate::room::has_member(rooms[i].users, s.id) && crate::room::has_member(
                rooms[j].users,
                s.id,
            ) {
                assert(rooms[i].id == s.room->Some_0.id);
                assert(rooms[j].id == s.room->Some_0.id);
                assert(rooms[i].id != rooms[j].id);
            }
        }
    } else {
        lemma_leave_clears_membership(s, rooms);
        let l = spec_session_leave(s, rooms);
        assert forall|i: int, j: int| 0 <= i < j < out.len() implies !(
        crate::room::has_member(out[i].users, s.id) && crate::room::has_member(
            out[j].users,
            s.id,
        )) by {
            if i < l.rooms.len() {
                assert(out[i] == l.rooms[i]);
            }
            if j < l.rooms.len() {
                assert(out[j] == l.rooms[j]);
            }
        }
    }
}

} // verus!
