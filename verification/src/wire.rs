//! The wire envelope: a typed tree standing between messages and the
//! carrier syntax, the codec between messages and that tree, and the
//! per-peer format memory.
//!
//! A frame's payload parses (outside the library) into a `WireValue`;
//! the codec here decides what that tree means, and the round-trip law
//! `lemma_codec_round_trip` states that decoding an encoded message
//! yields the message back, for every variant of the catalogue.

use vstd::prelude::*;

use crate::messages::{
    BodyView, ConnectionClientErrorMsgBodyV1, ConnectionClosedMsgBodyV1, ConnectionClosedReasonV1,
    ConnectionLoginMsgBodyV1, Message, MessageBody, MessageView, PlaybackAvailableMsgBodyV1,
    PlaybackDisconnectReasonV1, PlaybackDisconnectedMsgBodyV1, PlaybackInfoView,
    PlaybackRequestStartMsgBodyV1, PlaybackSourceV1, PlaybackSourceView, PlaybackStateV1,
    PlaybackStoppedMsgBodyV1, PlaybackStopReasonV1, PlaybackSyncMsgBodyV1, RoomCreateMsgBodyV1,
    RoomDisconnectedMsgBodyV1, RoomDisconnectedReasonV1, RoomJoinMsgBodyV1, RoomKickUserMsgBodyV1,
    RoomPermissionsMsgBodyV1, RoomPlaybackInfoV1, RoomSetUserRoleMsgBodyV1, RoomStateMsgBodyV1,
    RoomStateView, RoomUserPermissionsV1, RoomUserRoleV1, RoomUserV1, RoomUserView,
};

verus! {

broadcast use
    vstd::std_specs::vec::group_vec_axioms,
    vstd::seq::group_seq_axioms,
    vstd::string::group_string_axioms;

// ---------------------------------------------------------------------
// The tree
// ---------------------------------------------------------------------

/// One node of a parsed frame payload: the common ground between the
/// binary-packed and the textual carrier.
#[derive(Debug)]
pub enum WireValue {
    Null,
    Bool(bool),
    UInt(u64),
    Uid(u128),
    Str(String),
    Arr(Vec<WireValue>),
    Obj(Vec<(String, WireValue)>),
}

/// The mathematical content of a `WireValue`.
#[verifier::ext_equal]
pub enum WireV {
    Null,
    Bool(bool),
    UInt(u64),
    Uid(u128),
    Str(Seq<char>),
    Arr(Seq<WireV>),
    Obj(Seq<(Seq<char>, WireV)>),
}

pub open spec fn wire_view(v: WireValue) -> WireV
    decreases v,
{
    match v {
        WireValue::Null => WireV::Null,
        WireValue::Bool(b) => WireV::Bool(b),
        WireValue::UInt(n) => WireV::UInt(n),
        WireValue::Uid(n) => WireV::Uid(n),
        WireValue::Str(s) => WireV::Str(s@),
        WireValue::Arr(vs) => WireV::Arr(
            Seq::new(vs@.len(), |i: int| if 0 <= i < vs@.len() {
                wire_view(vs@[i])
            } else {
                WireV::Null
            }),
        ),
        WireValue::Obj(ps) => WireV::Obj(
            Seq::new(ps@.len(), |i: int| if 0 <= i < ps@.len() {
                (ps@[i].0@, wire_view(ps@[i].1))
            } else {
                (Seq::<char>::empty(), WireV::Null)
            }),
        ),
    }
}

impl View for WireValue {
    type V = WireV;

    open spec fn view(&self) -> WireV {
        wire_view(*self)
    }
}

/// The first value under `key`, if any.
pub open spec fn spec_get(ps: Seq<(Seq<char>, WireV)>, key: Seq<char>) -> Option<WireV>
    decreases ps.len(),
{
    if ps.len() == 0 {
        None
    } else if ps[0].0 == key {
        Some(ps[0].1)
    } else {
        spec_get(ps.drop_first(), key)
    }
}

// ---------------------------------------------------------------------
// Encoding: message to tree
// ---------------------------------------------------------------------

pub open spec fn enc_role(r: RoomUserRoleV1) -> Seq<char> {
    match r {
        RoomUserRoleV1::Host => "host"@,
        RoomUserRoleV1::Guest => "guest"@,
        RoomUserRoleV1::Spectator => "spectator"@,
    }
}

pub open spec fn enc_closed_reason(r: ConnectionClosedReasonV1) -> Seq<char> {
    match r {
        ConnectionClosedReasonV1::Unauthorized => "unauthorized"@,
        ConnectionClosedReasonV1::ServerError => "server_error"@,
        ConnectionClosedReasonV1::RoomClosed => "room_closed"@,
        ConnectionClosedReasonV1::Timeout => "timeout"@,
        ConnectionClosedReasonV1::Unknown => "unknown"@,
    }
}

pub open spec fn enc_room_disc_reason(r: RoomDisconnectedReasonV1) -> Seq<char> {
    match r {
        RoomDisconnectedReasonV1::ClosedByHost => "closed_by_host"@,
        RoomDisconnectedReasonV1::Unauthorized => "unauthorized"@,
        RoomDisconnectedReasonV1::ServerError => "server_error"@,
    }
}

pub open spec fn enc_stop_reason(r: PlaybackStopReasonV1) -> Seq<char> {
    match r {
        PlaybackStopReasonV1::HostError => "host_error"@,
        PlaybackStopReasonV1::StoppedByHost => "stopped_by_host"@,
        PlaybackStopReasonV1::Superseded => "superseded"@,
    }
}

pub open spec fn enc_disc_reason(r: PlaybackDisconnectReasonV1) -> Seq<char> {
    match r {
        PlaybackDisconnectReasonV1::User => "user"@,
        PlaybackDisconnectReasonV1::Stopped(PlaybackStopReasonV1::HostError) => "stopped_host_error"@,
        PlaybackDisconnectReasonV1::Stopped(PlaybackStopReasonV1::StoppedByHost) => "stopped_stopped_by_host"@,
        PlaybackDisconnectReasonV1::Stopped(PlaybackStopReasonV1::Superseded) => "stopped_superseded"@,
        PlaybackDisconnectReasonV1::SubscriberError => "subscriber_error"@,
    }
}

pub open spec fn enc_source(s: PlaybackSourceView) -> WireV {
    WireV::Obj(
        seq![
            ("title"@, WireV::Str(s.title)),
            ("page_href"@, WireV::Str(s.page_href)),
            ("frame_href"@, WireV::Str(s.frame_href)),
            ("element_query"@, WireV::Str(s.element_query)),
        ],
    )
}

pub open spec fn enc_opt_source(s: Option<PlaybackSourceView>) -> WireV {
    match s {
        None => WireV::Null,
        Some(src) => enc_source(src),
    }
}

pub open spec fn enc_info(i: PlaybackInfoView) -> WireV {
    WireV::Obj(seq![("host"@, WireV::Str(i.host)), ("source"@, enc_opt_source(i.source))])
}

pub open spec fn enc_opt_info(i: Option<PlaybackInfoView>) -> WireV {
    match i {
        None => WireV::Null,
        Some(info) => enc_info(info),
    }
}

pub open spec fn enc_pb_state(s: PlaybackStateV1) -> WireV {
    WireV::Obj(
        seq![
            ("timestamp"@, WireV::UInt(s.timestamp)),
            ("playing"@, WireV::Bool(s.playing)),
            ("time"@, WireV::UInt(s.time_millis)),
        ],
    )
}

pub open spec fn enc_user(u: RoomUserView) -> WireV {
    WireV::Obj(
        seq![
            ("id"@, WireV::Uid(u.id.bits)),
            ("name"@, WireV::Str(u.name)),
            ("role"@, WireV::Str(enc_role(u.role))),
        ],
    )
}

pub open spec fn enc_users(us: Seq<RoomUserView>) -> Seq<WireV> {
    Seq::new(us.len(), |i: int| enc_user(us[i]))
}

pub open spec fn enc_perms(p: RoomUserPermissionsV1) -> WireV {
    WireV::Obj(
        seq![
            ("can_host"@, WireV::Bool(p.can_host)),
            ("can_set_roles"@, WireV::Bool(p.can_set_roles)),
            ("can_kick"@, WireV::Bool(p.can_kick)),
            ("can_close"@, WireV::Bool(p.can_close)),
        ],
    )
}

/// The tag and body fields of one message body.
pub open spec fn enc_body(b: BodyView) -> (Seq<char>, Seq<(Seq<char>, WireV)>) {
    match b {
        BodyView::Login { username, api_key } => (
            "connection::login/v1"@,
            seq![
                ("username"@, WireV::Str(username)),
                ("api_key"@, match api_key {
                    None => WireV::Null,
                    Some(k) => WireV::Str(k),
                }),
            ],
        ),
        BodyView::LoginAck => ("connection::login_ack/v1"@, Seq::empty()),
        BodyView::Ping => ("connection::ping/v1"@, Seq::empty()),
        BodyView::Pong => ("connection::pong/v1"@, Seq::empty()),
        BodyView::ClientError { message } => (
            "connection::client_error/v1"@,
            seq![("message"@, WireV::Str(message))],
        ),
        BodyView::Closed { reason, message } => (
            "connection::closed/v1"@,
            seq![
                ("reason"@, WireV::Str(enc_closed_reason(reason))),
                ("message"@, WireV::Str(message)),
            ],
        ),
        BodyView::Keepalive => ("connection::keepalive/v1"@, Seq::empty()),
        BodyView::RoomCreate { name, password } => (
            "room::create/v1"@,
            seq![("name"@, WireV::Str(name)), ("password"@, WireV::Str(password))],
        ),
        BodyView::RoomCreateAck => ("room::create_ack/v1"@, Seq::empty()),
        BodyView::RoomClose => ("room::close/v1"@, Seq::empty()),
        BodyView::RoomCloseAck => ("room::close_ack/v1"@, Seq::empty()),
        BodyView::RoomJoin { id, password } => (
            "room::join/v1"@,
            seq![("id"@, WireV::Uid(id.bits)), ("password"@, WireV::Str(password))],
        ),
        BodyView::RoomJoinAck => ("room::join_ack/v1"@, Seq::empty()),
        BodyView::RoomLeave => ("room::leave/v1"@, Seq::empty()),
        BodyView::RoomLeaveAck => ("room::leave_ack/v1"@, Seq::empty()),
        BodyView::RoomDisconnected { reason } => (
            "room::disconnected/v1"@,
            seq![("reason"@, WireV::Str(enc_room_disc_reason(reason)))],
        ),
        BodyView::RoomRequestState => ("room::request_state/v1"@, Seq::empty()),
        BodyView::RoomState { state } => (
            "room::state/v1"@,
            seq![
                ("id"@, WireV::Uid(state.id.bits)),
                ("name"@, WireV::Str(state.name)),
                ("password"@, WireV::Str(state.password)),
                ("users"@, WireV::Arr(enc_users(state.users))),
                ("playback_info"@, enc_opt_info(state.playback_info)),
            ],
        ),
        BodyView::RoomRequestPermissions => ("room::request_permissions/v1"@, Seq::empty()),
        BodyView::RoomPermissions { role, permissions } => (
            "room::permissions/v1"@,
            seq![
                ("role"@, WireV::Str(enc_role(role))),
                ("permissions"@, enc_perms(permissions)),
            ],
        ),
        BodyView::RoomSetUserRole { user_id, role } => (
            "room::set_user_role/v1"@,
            seq![
                ("user_id"@, WireV::Uid(user_id.bits)),
                ("role"@, WireV::Str(enc_role(role))),
            ],
        ),
        BodyView::RoomKickUser { user_id } => (
            "room::kick_user/v1"@,
            seq![("user_id"@, WireV::Uid(user_id.bits))],
        ),
        BodyView::PlaybackRequestHost => ("playback::request_host/v1"@, Seq::empty()),
        BodyView::PlaybackHosting => ("playback::hosting/v1"@, Seq::empty()),
        BodyView::PlaybackRequestConnect => ("playback::request_connect/v1"@, Seq::empty()),
        BodyView::PlaybackConnected => ("playback::connected/v1"@, Seq::empty()),
        BodyView::PlaybackAvailable { info } => (
            "playback::available/v1"@,
            seq![("info"@, enc_info(info))],
        ),
        BodyView::PlaybackRequestStart { source } => (
            "playback::request_start/v1"@,
            seq![("source"@, enc_source(source))],
        ),
        BodyView::PlaybackStarted => ("playback::started/v1"@, Seq::empty()),
        BodyView::PlaybackSync { state } => (
            "playback::sync/v1"@,
            seq![("state"@, enc_pb_state(state))],
        ),
        BodyView::PlaybackRequestStop => ("playback::request_stop/v1"@, Seq::empty()),
        BodyView::PlaybackStopped { reason } => (
            "playback::stopped/v1"@,
            seq![("reason"@, WireV::Str(enc_stop_reason(reason)))],
        ),
        BodyView::PlaybackRequestDisconnect => ("playback::request_disconnect/v1"@, Seq::empty()),
        BodyView::PlaybackDisconnected { reason } => (
            "playback::disconnected/v1"@,
            seq![("reason"@, WireV::Str(enc_disc_reason(reason)))],
        ),
    }
}

/// The tree that one message becomes on the wire.
pub open spec fn enc(m: MessageView) -> WireV {
    let tb = enc_body(m.body);
    WireV::Obj(
        seq![("m"@, WireV::Str(tb.0)), ("t"@, WireV::UInt(m.timestamp))] + tb.1,
    )
}

// ---------------------------------------------------------------------
// Decoding: tree to message
// ---------------------------------------------------------------------

pub open spec fn dec_role(s: Seq<char>) -> Option<RoomUserRoleV1> {
    if s == "host"@ {
        Some(RoomUserRoleV1::Host)
    } else if s == "guest"@ {
        Some(RoomUserRoleV1::Guest)
    } else if s == "spectator"@ {
        Some(RoomUserRoleV1::Spectator)
    } else {
        None
    }
}

pub open spec fn dec_closed_reason(s: Seq<char>) -> Option<ConnectionClosedReasonV1> {
    if s == "unauthorized"@ {
        Some(ConnectionClosedReasonV1::Unauthorized)
    } else if s == "server_error"@ {
        Some(ConnectionClosedReasonV1::ServerError)
    } else if s == "room_closed"@ {
        Some(ConnectionClosedReasonV1::RoomClosed)
    } else if s == "timeout"@ {
        Some(ConnectionClosedReasonV1::Timeout)
    } else if s == "unknown"@ {
        Some(ConnectionClosedReasonV1::Unknown)
    } else {
        None
    }
}

pub open spec fn dec_room_disc_reason(s: Seq<char>) -> Option<RoomDisconnectedReasonV1> {
    if s == "closed_by_host"@ {
        Some(RoomDisconnectedReasonV1::ClosedByHost)
    } else if s == "unauthorized"@ {
        Some(RoomDisconnectedReasonV1::Unauthorized)
    } else if s == "server_error"@ {
        Some(RoomDisconnectedReasonV1::ServerError)
    } else {
        None
    }
}

pub open spec fn dec_stop_reason(s: Seq<char>) -> Option<PlaybackStopReasonV1> {
    if s == "host_error"@ {
        Some(PlaybackStopReasonV1::HostError)
    } else if s == "stopped_by_host"@ {
        Some(PlaybackStopReasonV1::StoppedByHost)
    } else if s == "superseded"@ {
        Some(PlaybackStopReasonV1::Superseded)
    } else {
        None
    }
}

pub open spec fn dec_disc_reason(s: Seq<char>) -> Option<PlaybackDisconnectReasonV1> {
    if s == "user"@ {
        Some(PlaybackDisconnectReasonV1::User)
    } else if s == "stopped_host_error"@ {
        Some(PlaybackDisconnectReasonV1::Stopped(PlaybackStopReasonV1::HostError))
    } else if s == "stopped_stopped_by_host"@ {
        Some(PlaybackDisconnectReasonV1::Stopped(PlaybackStopReasonV1::StoppedByHost))
    } else if s == "stopped_superseded"@ {
        Some(PlaybackDisconnectReasonV1::Stopped(PlaybackStopReasonV1::Superseded))
    } else if s == "subscriber_error"@ {
        Some(PlaybackDisconnectReasonV1::SubscriberError)
    } else {
        None
    }
}

pub open spec fn dec_source(v: WireV) -> Option<PlaybackSourceView> {
    match v {
        WireV::Obj(ps) => match (
            spec_get(ps, "title"@),
            spec_get(ps, "page_href"@),
            spec_get(ps, "frame_href"@),
            spec_get(ps, "element_query"@),
        ) {
            (
                Some(WireV::Str(title)),
                Some(WireV::Str(page_href)),
                Some(WireV::Str(frame_href)),
                Some(WireV::Str(element_query)),
            ) => Some(
                PlaybackSourceView { title, page_href, frame_href, element_query },
            ),
            _ => None,
        },
        _ => None,
    }
}

pub open spec fn dec_opt_source(v: WireV) -> Option<Option<PlaybackSourceView>> {
    match v {
        WireV::Null => Some(None),
        _ => match dec_source(v) {
            Some(s) => Some(Some(s)),
            None => None,
        },
    }
}

pub open spec fn dec_info(v: WireV) -> Option<PlaybackInfoView> {
    match v {
        WireV::Obj(ps) => match (spec_get(ps, "host"@), spec_get(ps, "source"@)) {
            (Some(WireV::Str(host)), Some(sv)) => match dec_opt_source(sv) {
                Some(source) => Some(PlaybackInfoView { host, source }),
                None => None,
            },
            _ => None,
        },
        _ => None,
    }
}

pub open spec fn dec_opt_info(v: WireV) -> Option<Option<PlaybackInfoView>> {
    match v {
        WireV::Null => Some(None),
        _ => match dec_info(v) {
            Some(i) => Some(Some(i)),
            None => None,
        },
    }
}

pub open spec fn dec_pb_state(v: WireV) -> Option<PlaybackStateV1> {
    match v {
        WireV::Obj(ps) => match (
            spec_get(ps, "timestamp"@),
            spec_get(ps, "playing"@),
            spec_get(ps, "time"@),
        ) {
            (Some(WireV::UInt(timestamp)), Some(WireV::Bool(playing)), Some(WireV::UInt(time_millis))) => Some(
                PlaybackStateV1 { timestamp, playing, time_millis },
            ),
            _ => None,
        },
        _ => None,
    }
}

pub open spec fn dec_user(v: WireV) -> Option<RoomUserView> {
    match v {
        WireV::Obj(ps) => match (
            spec_get(ps, "id"@),
            spec_get(ps, "name"@),
            spec_get(ps, "role"@),
        ) {
            (Some(WireV::Uid(bits)), Some(WireV::Str(name)), Some(WireV::Str(role_text))) => match dec_role(
                role_text,
            ) {
                Some(role) => Some(
                    RoomUserView { id: crate::ids::SessionId { bits }, name, role },
                ),
                None => None,
            },
            _ => None,
        },
        _ => None,
    }
}

pub open spec fn dec_users(items: Seq<WireV>) -> Option<Seq<RoomUserView>>
    decreases items.len(),
{
    if items.len() == 0 {
        Some(Seq::empty())
    } else {
        match dec_user(items[0]) {
            None => None,
            Some(u) => match dec_users(items.drop_first()) {
                None => None,
                Some(rest) => Some(seq![u] + rest),
            },
        }
    }
}

pub open spec fn dec_perms(v: WireV) -> Option<RoomUserPermissionsV1> {
    match v {
        WireV::Obj(ps) => match (
            spec_get(ps, "can_host"@),
            spec_get(ps, "can_set_roles"@),
            spec_get(ps, "can_kick"@),
            spec_get(ps, "can_close"@),
        ) {
            (
                Some(WireV::Bool(can_host)),
                Some(WireV::Bool(can_set_roles)),
                Some(WireV::Bool(can_kick)),
                Some(WireV::Bool(can_close)),
            ) => Some(RoomUserPermissionsV1 { can_host, can_set_roles, can_kick, can_close }),
            _ => None,
        },
        _ => None,
    }
}

/// The body that a tag and its sibling fields decode to, if any.
pub open spec fn dec_body(tag: Seq<char>, ps: Seq<(Seq<char>, WireV)>) -> Option<BodyView> {
    if tag == "connection::login/v1"@ {
        match (spec_get(ps, "username"@), spec_get(ps, "api_key"@)) {
            (Some(WireV::Str(username)), Some(WireV::Null)) => Some(
                BodyView::Login { username, api_key: None },
            ),
            (Some(WireV::Str(username)), Some(WireV::Str(k))) => Some(
                BodyView::Login { username, api_key: Some(k) },
            ),
            _ => None,
        }
    } else if tag == "connection::login_ack/v1"@ {
        Some(BodyView::LoginAck)
    } else if tag == "connection::ping/v1"@ {
        Some(BodyView::Ping)
    } else if tag == "connection::pong/v1"@ {
        Some(BodyView::Pong)
    } else if tag == "connection::client_error/v1"@ {
        match spec_get(ps, "message"@) {
            Some(WireV::Str(message)) => Some(BodyView::ClientError { message }),
            _ => None,
        }
    } else if tag == "connection::closed/v1"@ {
        match (spec_get(ps, "reason"@), spec_get(ps, "message"@)) {
            (Some(WireV::Str(rt)), Some(WireV::Str(message))) => match dec_closed_reason(rt) {
                Some(reason) => Some(BodyView::Closed { reason, message }),
                None => None,
            },
            _ => None,
        }
    } else if tag == "connection::keepalive/v1"@ {
        Some(BodyView::Keepalive)
    } else if tag == "room::create/v1"@ {
        match (spec_get(ps, "name"@), spec_get(ps, "password"@)) {
            (Some(WireV::Str(name)), Some(WireV::Str(password))) => Some(
                BodyView::RoomCreate { name, password },
            ),
            _ => None,
        }
    } else if tag == "room::create_ack/v1"@ {
        Some(BodyView::RoomCreateAck)
    } else if tag == "room::close/v1"@ {
        Some(BodyView::RoomClose)
    } else if tag == "room::close_ack/v1"@ {
        Some(BodyView::RoomCloseAck)
    } else if tag == "room::join/v1"@ {
        match (spec_get(ps, "id"@), spec_get(ps, "password"@)) {
            (Some(WireV::Uid(bits)), Some(WireV::Str(password))) => Some(
                BodyView::RoomJoin { id: crate::ids::RoomId { bits }, password },
            ),
            _ => None,
        }
    } else if tag == "room::join_ack/v1"@ {
        Some(BodyView::RoomJoinAck)
    } else if tag == "room::leave/v1"@ {
        Some(BodyView::RoomLeave)
    } else if tag == "room::leave_ack/v1"@ {
        Some(BodyView::RoomLeaveAck)
    } else if tag == "room::disconnected/v1"@ {
        match spec_get(ps, "reason"@) {
            Some(WireV::Str(rt)) => match dec_room_disc_reason(rt) {
                Some(reason) => Some(BodyView::RoomDisconnected { reason }),
                None => None,
            },
            _ => None,
        }
    } else if tag == "room::request_state/v1"@ {
        Some(BodyView::RoomRequestState)
    } else if tag == "room::state/v1"@ {
        match (
            spec_get(ps, "id"@),
            spec_get(ps, "name"@),
            spec_get(ps, "password"@),
            spec_get(ps, "users"@),
            spec_get(ps, "playback_info"@),
        ) {
            (
                Some(WireV::Uid(bits)),
                Some(WireV::Str(name)),
                Some(WireV::Str(password)),
                Some(WireV::Arr(items)),
                Some(iv),
            ) => match (dec_users(items), dec_opt_info(iv)) {
                (Some(users), Some(playback_info)) => Some(
                    BodyView::RoomState {
                        state: RoomStateView {
                            id: crate::ids::RoomId { bits },
                            name,
                            password,
                            users,
                            playback_info,
                        },
                    },
                ),
                _ => None,
            },
            _ => None,
        }
    } else if tag == "room::request_permissions/v1"@ {
        Some(BodyView::RoomRequestPermissions)
    } else if tag == "room::permissions/v1"@ {
        match (spec_get(ps, "role"@), spec_get(ps, "permissions"@)) {
            (Some(WireV::Str(rt)), Some(pv)) => match (dec_role(rt), dec_perms(pv)) {
                (Some(role), Some(permissions)) => Some(
                    BodyView::RoomPermissions { role, permissions },
                ),
                _ => None,
            },
            _ => None,
        }
    } else if tag == "room::set_user_role/v1"@ {
        match (spec_get(ps, "user_id"@), spec_get(ps, "role"@)) {
            (Some(WireV::Uid(bits)), Some(WireV::Str(rt))) => match dec_role(rt) {
                Some(role) => Some(
                    BodyView::RoomSetUserRole {
                        user_id: crate::ids::SessionId { bits },
                        role,
                    },
                ),
                None => None,
            },
            _ => None,
        }
    } else if tag == "room::kick_user/v1"@ {
        match spec_get(ps, "user_id"@) {
            Some(WireV::Uid(bits)) => Some(
                BodyView::RoomKickUser { user_id: crate::ids::SessionId { bits } },
            ),
            _ => None,
        }
    } else if tag == "playback::request_host/v1"@ {
        Some(BodyView::PlaybackRequestHost)
    } else if tag == "playback::hosting/v1"@ {
        Some(BodyView::PlaybackHosting)
    } else if tag == "playback::request_connect/v1"@ {
        Some(BodyView::PlaybackRequestConnect)
    } else if tag == "playback::connected/v1"@ {
        Some(BodyView::PlaybackConnected)
    } else if tag == "playback::available/v1"@ {
        match spec_get(ps, "info"@) {
            Some(iv) => match dec_info(iv) {
                Some(info) => Some(BodyView::PlaybackAvailable { info }),
                None => None,
            },
            None => None,
        }
    } else if tag == "playback::request_start/v1"@ {
        match spec_get(ps, "source"@) {
            Some(sv) => match dec_source(sv) {
                Some(source) => Some(BodyView::PlaybackRequestStart { source }),
                None => None,
            },
            None => None,
        }
    } else if tag == "playback::started/v1"@ {
        Some(BodyView::PlaybackStarted)
    } else if tag == "playback::sync/v1"@ {
        match spec_get(ps, "state"@) {
            Some(sv) => match dec_pb_state(sv) {
                Some(state) => Some(BodyView::PlaybackSync { state }),
                None => None,
            },
            None => None,
        }
    } else if tag == "playback::request_stop/v1"@ {
        Some(BodyView::PlaybackRequestStop)
    } else if tag == "playback::stopped/v1"@ {
        match spec_get(ps, "reason"@) {
            Some(WireV::Str(rt)) => match dec_stop_reason(rt) {
                Some(reason) => Some(BodyView::PlaybackStopped { reason }),
                None => None,
            },
            _ => None,
        }
    } else if tag == "playback::request_disconnect/v1"@ {
        Some(BodyView::PlaybackRequestDisconnect)
    } else if tag == "playback::disconnected/v1"@ {
        match spec_get(ps, "reason"@) {
            Some(WireV::Str(rt)) => match dec_disc_reason(rt) {
                Some(reason) => Some(BodyView::PlaybackDisconnected { reason }),
                None => None,
            },
            _ => None,
        }
    } else {
        None
    }
}

/// The message that one tree decodes to, if any.
pub open spec fn dec(v: WireV) -> Option<MessageView> {
    match v {
        WireV::Obj(ps) => match (spec_get(ps, "m"@), spec_get(ps, "t"@)) {
            (Some(WireV::Str(tag)), Some(WireV::UInt(timestamp))) => match dec_body(tag, ps) {
                Some(body) => Some(MessageView { timestamp, body }),
                None => None,
            },
            _ => None,
        },
        _ => None,
    }
}

// ---------------------------------------------------------------------
// The round-trip law
// ---------------------------------------------------------------------

proof fn lemma_role_round_trip(r: RoomUserRoleV1)
    ensures
        dec_role(enc_role(r)) == Some(r),
{
    reveal_strlit("host");
    reveal_strlit("guest");
    reveal_strlit("spectator");
    assert(("host"@).len() == 4);
    assert(("guest"@).len() == 5);
    assert(("spectator"@).len() == 9);
}

proof fn lemma_closed_reason_round_trip(r: ConnectionClosedReasonV1)
    ensures
        dec_closed_reason(enc_closed_reason(r)) == Some(r),
{
    reveal_strlit("unauthorized");
    reveal_strlit("server_error");
    reveal_strlit("room_closed");
    reveal_strlit("timeout");
    reveal_strlit("unknown");
    assert(("unauthorized"@).len() == 12);
    assert(("server_error"@).len() == 12);
    assert(("room_closed"@).len() == 11);
    assert(("timeout"@).len() == 7);
    assert(("unknown"@).len() == 7);
    assert(("unauthorized"@)[0] == 'u');
    assert(("server_error"@)[0] == 's');
    assert(("timeout"@)[0] == 't');
    assert(("unknown"@)[0] == 'u');
}

proof fn lemma_room_disc_reason_round_trip(r: RoomDisconnectedReasonV1)
    ensures
        dec_room_disc_reason(enc_room_disc_reason(r)) == Some(r),
{
    reveal_strlit("closed_by_host");
    reveal_strlit("unauthorized");
    reveal_strlit("server_error");
    assert(("closed_by_host"@).len() == 14);
    assert(("unauthorized"@).len() == 12);
    assert(("server_error"@).len() == 12);
    assert(("unauthorized"@)[0] == 'u');
    assert(("server_error"@)[0] == 's');
}

proof fn lemma_stop_reason_round_trip(r: PlaybackStopReasonV1)
    ensures
        dec_stop_reason(enc_stop_reason(r)) == Some(r),
{
    reveal_strlit("host_error");
    reveal_strlit("stopped_by_host");
    reveal_strlit("superseded");
    assert(("host_error"@).len() == 10);
    assert(("stopped_by_host"@).len() == 15);
    assert(("superseded"@).len() == 10);
    assert(("host_error"@)[0] == 'h');
    assert(("superseded"@)[0] == 's');
}

proof fn lemma_disc_reason_round_trip(r: PlaybackDisconnectReasonV1)
    ensures
        dec_disc_reason(enc_disc_reason(r)) == Some(r),
{
    reveal_strlit("user");
    reveal_strlit("stopped_host_error");
    reveal_strlit("stopped_stopped_by_host");
    reveal_strlit("stopped_superseded");
    reveal_strlit("subscriber_error");
    assert(("user"@).len() == 4);
    assert(("stopped_host_error"@).len() == 18);
    assert(("stopped_stopped_by_host"@).len() == 23);
    assert(("stopped_superseded"@).len() == 18);
    assert(("subscriber_error"@).len() == 16);
    assert(("stopped_host_error"@)[8] == 'h');
    assert(("stopped_superseded"@)[8] == 's');
}

proof fn lemma_source_round_trip(s: PlaybackSourceView)
    ensures
        dec_source(enc_source(s)) == Some(s),
{
    reveal_with_fuel(spec_get, 8);
    reveal_strlit("title");
    reveal_strlit("page_href");
    reveal_strlit("frame_href");
    reveal_strlit("element_query");
    assert(("title"@).len() == 5);
    assert(("page_href"@).len() == 9);
    assert(("frame_href"@).len() == 10);
    assert(("element_query"@).len() == 13);
}

proof fn lemma_opt_source_round_trip(s: Option<PlaybackSourceView>)
    ensures
        dec_opt_source(enc_opt_source(s)) == Some(s),
{
    match s {
        None => (),
        Some(src) => {
            lemma_source_round_trip(src);
        },
    }
}

proof fn lemma_info_round_trip(i: PlaybackInfoView)
    ensures
        dec_info(enc_info(i)) == Some(i),
{
    reveal_with_fuel(spec_get, 8);
    reveal_strlit("host");
    reveal_strlit("source");
    assert(("host"@).len() == 4);
    assert(("source"@).len() == 6);
    lemma_opt_source_round_trip(i.source);
}

proof fn lemma_opt_info_round_trip(i: Option<PlaybackInfoView>)
    ensures
        dec_opt_info(enc_opt_info(i)) == Some(i),
{
    match i {
        None => (),
        Some(info) => {
            lemma_info_round_trip(info);
        },
    }
}

proof fn lemma_pb_state_round_trip(s: PlaybackStateV1)
    ensures
        dec_pb_state(enc_pb_state(s)) == Some(s),
{
    reveal_with_fuel(spec_get, 8);
    reveal_strlit("timestamp");
    reveal_strlit("playing");
    reveal_strlit("time");
    assert(("timestamp"@).len() == 9);
    assert(("playing"@).len() == 7);
    assert(("time"@).len() == 4);
}

proof fn lemma_perms_round_trip(p: RoomUserPermissionsV1)
    ensures
        dec_perms(enc_perms(p)) == Some(p),
{
    reveal_with_fuel(spec_get, 8);
    reveal_strlit("can_host");
    reveal_strlit("can_set_roles");
    reveal_strlit("can_kick");
    reveal_strlit("can_close");
    assert(("can_host"@).len() == 8);
    assert(("can_set_roles"@).len() == 13);
    assert(("can_kick"@).len() == 8);
    assert(("can_close"@).len() == 9);
    assert(("can_host"@)[4] == 'h');
    assert(("can_kick"@)[4] == 'k');
}

proof fn lemma_user_round_trip(u: RoomUserView)
    ensures
        dec_user(enc_user(u)) == Some(u),
{
    reveal_with_fuel(spec_get, 8);
    reveal_strlit("id");
    reveal_strlit("name");
    reveal_strlit("role");
    assert(("id"@).len() == 2);
    assert(("name"@).len() == 4);
    assert(("role"@).len() == 4);
    assert(("name"@)[0] == 'n');
    assert(("role"@)[0] == 'r');
    lemma_role_round_trip(u.role);
}

proof fn lemma_users_round_trip(us: Seq<RoomUserView>)
    ensures
        dec_users(enc_users(us)) == Some(us),
    decreases us.len(),
{
    if us.len() == 0 {
        assert(enc_users(us) =~= Seq::<WireV>::empty());
        assert(us =~= Seq::<RoomUserView>::empty());
    } else {
        lemma_user_round_trip(us[0]);
        lemma_users_round_trip(us.drop_first());
        assert(enc_users(us)[0] == enc_user(us[0]));
        assert(enc_users(us).drop_first() =~= enc_users(us.drop_first()));
        assert(seq![us[0]] + us.drop_first() =~= us);
    }
}

/// Decoding an encoded message yields the message back, for every
/// variant of the catalogue.
#[verifier::rlimit(100)]
pub proof fn lemma_codec_round_trip(m: MessageView)
    ensures
        dec(enc(m)) == Some(m),
{
    reveal_with_fuel(spec_get, 10);
    reveal_strlit("m");
    reveal_strlit("t");
    reveal_strlit("connection::login/v1");
    reveal_strlit("connection::login_ack/v1");
    reveal_strlit("connection::ping/v1");
    reveal_strlit("connection::pong/v1");
    reveal_strlit("connection::client_error/v1");
    reveal_strlit("connection::closed/v1");
    reveal_strlit("connection::keepalive/v1");
    reveal_strlit("room::create/v1");
    reveal_strlit("room::create_ack/v1");
    reveal_strlit("room::close/v1");
    reveal_strlit("room::close_ack/v1");
    reveal_strlit("room::join/v1");
    reveal_strlit("room::join_ack/v1");
    reveal_strlit("room::leave/v1");
    reveal_strlit("room::leave_ack/v1");
    reveal_strlit("room::disconnected/v1");
    reveal_strlit("room::request_state/v1");
    reveal_strlit("room::state/v1");
    reveal_strlit("room::request_permissions/v1");
    reveal_strlit("room::permissions/v1");
    reveal_strlit("room::set_user_role/v1");
    reveal_strlit("room::kick_user/v1");
    reveal_strlit("playback::request_host/v1");
    reveal_strlit("playback::hosting/v1");
    reveal_strlit("playback::request_connect/v1");
    reveal_strlit("playback::connected/v1");
    reveal_strlit("playback::available/v1");
    reveal_strlit("playback::request_start/v1");
    reveal_strlit("playback::started/v1");
    reveal_strlit("playback::sync/v1");
    reveal_strlit("playback::request_stop/v1");
    reveal_strlit("playback::stopped/v1");
    reveal_strlit("playback::request_disconnect/v1");
    reveal_strlit("playback::disconnected/v1");
    reveal_strlit("username");
    reveal_strlit("api_key");
    reveal_strlit("message");
    reveal_strlit("reason");
    reveal_strlit("name");
    reveal_strlit("password");
    reveal_strlit("id");
    reveal_strlit("users");
    reveal_strlit("playback_info");
    reveal_strlit("role");
    reveal_strlit("permissions");
    reveal_strlit("user_id");
    reveal_strlit("info");
    reveal_strlit("source");
    reveal_strlit("state");

    assert(("m"@).len() == 1);
    assert(("t"@).len() == 1);
    assert(("m"@)[0] == 'm');
    assert(("t"@)[0] == 't');
    assert(("username"@).len() == 8);
    assert(("api_key"@).len() == 7);
    assert(("message"@).len() == 7);
    assert(("reason"@).len() == 6);
    assert(("name"@).len() == 4);
    assert(("password"@).len() == 8);
    assert(("id"@).len() == 2);
    assert(("users"@).len() == 5);
    assert(("playback_info"@).len() == 13);
    assert(("role"@).len() == 4);
    assert(("permissions"@).len() == 11);
    assert(("user_id"@).len() == 7);
    assert(("info"@).len() == 4);
    assert(("source"@).len() == 6);
    assert(("state"@).len() == 5);
    assert(("connection::login/v1"@).len() == 20);
    assert(("connection::login_ack/v1"@).len() == 24);
    assert(("connection::ping/v1"@).len() == 19);
    assert(("connection::pong/v1"@).len() == 19);
    assert(("connection::client_error/v1"@).len() == 27);
    assert(("connection::closed/v1"@).len() == 21);
    assert(("connection::keepalive/v1"@).len() == 24);
    assert(("room::create/v1"@).len() == 15);
    assert(("room::create_ack/v1"@).len() == 19);
    assert(("room::close/v1"@).len() == 14);
    assert(("room::close_ack/v1"@).len() == 18);
    assert(("room::join/v1"@).len() == 13);
    assert(("room::join_ack/v1"@).len() == 17);
    assert(("room::leave/v1"@).len() == 14);
    assert(("room::leave_ack/v1"@).len() == 18);
    assert(("room::disconnected/v1"@).len() == 21);
    assert(("room::request_state/v1"@).len() == 22);
    assert(("room::state/v1"@).len() == 14);
    assert(("room::request_permissions/v1"@).len() == 28);
    assert(("room::permissions/v1"@).len() == 20);
    assert(("room::set_user_role/v1"@).len() == 22);
    assert(("room::kick_user/v1"@).len() == 18);
    assert(("playback::request_host/v1"@).len() == 25);
    assert(("playback::hosting/v1"@).len() == 20);
    assert(("playback::request_connect/v1"@).len() == 28);
    assert(("playback::connected/v1"@).len() == 22);
    assert(("playback::available/v1"@).len() == 22);
    assert(("playback::request_start/v1"@).len() == 26);
    assert(("playback::started/v1"@).len() == 20);
    assert(("playback::sync/v1"@).len() == 17);
    assert(("playback::request_stop/v1"@).len() == 25);
    assert(("playback::stopped/v1"@).len() == 20);
    assert(("playback::request_disconnect/v1"@).len() == 31);
    assert(("playback::disconnected/v1"@).len() == 25);
    assert(("connection::login/v1"@)[0] == 'c');
    assert(("room::permissions/v1"@)[0] == 'r');
    assert(("playback::hosting/v1"@)[0] == 'p');
    assert(("playback::started/v1"@)[0] == 'p');
    assert(("playback::stopped/v1"@)[0] == 'p');
    assert(("connection::login_ack/v1"@)[12] == 'l');
    assert(("connection::keepalive/v1"@)[12] == 'k');
    assert(("connection::ping/v1"@)[13] == 'i');
    assert(("connection::pong/v1"@)[13] == 'o');
    assert(("connection::ping/v1"@)[0] == 'c');
    assert(("room::create_ack/v1"@)[0] == 'r');
    assert(("connection::pong/v1"@)[0] == 'c');
    assert(("connection::closed/v1"@)[0] == 'c');
    assert(("room::disconnected/v1"@)[0] == 'r');
    assert(("room::close/v1"@)[6] == 'c');
    assert(("room::leave/v1"@)[6] == 'l');
    assert(("room::state/v1"@)[6] == 's');
    assert(("room::close_ack/v1"@)[6] == 'c');
    assert(("room::leave_ack/v1"@)[6] == 'l');
    assert(("room::kick_user/v1"@)[6] == 'k');
    assert(("room::join_ack/v1"@)[0] == 'r');
    assert(("playback::sync/v1"@)[0] == 'p');
    assert(("room::request_state/v1"@)[6] == 'r');
    assert(("room::set_user_role/v1"@)[6] == 's');
    assert(("room::request_state/v1"@)[0] == 'r');
    assert(("playback::connected/v1"@)[0] == 'p');
    assert(("playback::available/v1"@)[0] == 'p');
    assert(("room::request_permissions/v1"@)[0] == 'r');
    assert(("playback::request_connect/v1"@)[0] == 'p');
    assert(("room::set_user_role/v1"@)[0] == 'r');
    assert(("playback::request_host/v1"@)[18] == 'h');
    assert(("playback::request_stop/v1"@)[18] == 's');
    assert(("playback::request_host/v1"@)[10] == 'r');
    assert(("playback::disconnected/v1"@)[10] == 'd');
    assert(("playback::hosting/v1"@)[10] == 'h');
    assert(("playback::started/v1"@)[10] == 's');
    assert(("playback::stopped/v1"@)[10] == 's');
    assert(("playback::connected/v1"@)[10] == 'c');
    assert(("playback::available/v1"@)[10] == 'a');
    assert(("playback::started/v1"@)[12] == 'a');
    assert(("playback::stopped/v1"@)[12] == 'o');
    assert(("playback::request_stop/v1"@)[10] == 'r');

    let tb = enc_body(m.body);
    let ps = seq![("m"@, WireV::Str(tb.0)), ("t"@, WireV::UInt(m.timestamp))] + tb.1;
    assert(ps[0] == ("m"@, WireV::Str(tb.0)));
    assert(ps[1] == ("t"@, WireV::UInt(m.timestamp)));
    assert(spec_get(ps, "m"@) == Some(WireV::Str(tb.0)));
    assert(spec_get(ps, "t"@) == Some(WireV::UInt(m.timestamp)));
    match m.body {
        BodyView::Closed { reason, message } => {
            lemma_closed_reason_round_trip(reason);
        },
        BodyView::RoomDisconnected { reason } => {
            lemma_room_disc_reason_round_trip(reason);
        },
        BodyView::RoomState { state } => {
            lemma_users_round_trip(state.users);
            lemma_opt_info_round_trip(state.playback_info);
        },
        BodyView::RoomPermissions { role, permissions } => {
            lemma_role_round_trip(role);
            lemma_perms_round_trip(permissions);
        },
        BodyView::RoomSetUserRole { user_id, role } => {
            lemma_role_round_trip(role);
        },
        BodyView::PlaybackAvailable { info } => {
            lemma_info_round_trip(info);
        },
        BodyView::PlaybackRequestStart { source } => {
            lemma_source_round_trip(source);
        },
        BodyView::PlaybackSync { state } => {
            lemma_pb_state_round_trip(state);
        },
        BodyView::PlaybackStopped { reason } => {
            lemma_stop_reason_round_trip(reason);
        },
        BodyView::PlaybackDisconnected { reason } => {
            lemma_disc_reason_round_trip(reason);
        },
        _ => (),
    }
    assert(dec_body(tb.0, ps) == Some(m.body));
}


// ---------------------------------------------------------------------
// The executable codec
// ---------------------------------------------------------------------

/// The pair list of an object, as the view sees it.
pub open spec fn pairs_view(s: Seq<(String, WireValue)>) -> Seq<(Seq<char>, WireV)> {
    Seq::new(s.len(), |i: int| (s[i].0@, wire_view(s[i].1)))
}

/// The element list of an array, as the view sees it.
pub open spec fn elems_view(s: Seq<WireValue>) -> Seq<WireV> {
    Seq::new(s.len(), |i: int| wire_view(s[i]))
}

/// An object's view is the view of its pair list.
pub proof fn lemma_obj_view(ps: Vec<(String, WireValue)>)
    ensures
        wire_view(WireValue::Obj(ps)) == WireV::Obj(pairs_view(ps@)),
{
    let lhs = wire_view(WireValue::Obj(ps));
    assert(lhs is Obj);
    assert(lhs->Obj_0 =~= pairs_view(ps@));
    assert(lhs =~~= WireV::Obj(pairs_view(ps@)));
}

/// An array's view is the view of its element list.
pub proof fn lemma_arr_view(vs: Vec<WireValue>)
    ensures
        wire_view(WireValue::Arr(vs)) == WireV::Arr(elems_view(vs@)),
{
    let lhs = wire_view(WireValue::Arr(vs));
    assert(lhs is Arr);
    assert(lhs->Arr_0 =~= elems_view(vs@));
    assert(lhs =~~= WireV::Arr(elems_view(vs@)));
}

/// Whether a string spells the given text.
fn text_is(s: &String, lit: &str) -> (r: bool)
    ensures
        r == (s@ == lit@),
{
    *s == lit.to_owned()
}

/// The first value under `key` in an object's pair list.
fn get<'a>(ps: &'a Vec<(String, WireValue)>, key: &str) -> (r: Option<&'a WireValue>)
    ensures
        match r {
            Some(w) => spec_get(pairs_view(ps@), key@) == Some(wire_view(*w)),
            None => spec_get(pairs_view(ps@), key@) is None,
        },
{
    let ghost pv = pairs_view(ps@);
    let n = ps.len();
    let mut i: usize = 0;
    proof {
        assert(pv.skip(0) =~= pv);
    }
    while i < n
        invariant
            n == ps@.len(),
            pv == pairs_view(ps@),
            pv.len() == n,
            i <= n,
            spec_get(pv, key@) == spec_get(pv.skip(i as int), key@),
        decreases n - i,
    {
        proof {
            assert(pv.skip(i as int)[0] == pv[i as int]);
            assert(pv.skip(i as int).drop_first() =~= pv.skip(i + 1));
        }
        if text_is(&ps[i].0, key) {
            return Some(&ps[i].1);
        }
        i = i + 1;
    }
    proof {
        assert(pv.skip(n as int) =~= Seq::<(Seq<char>, WireV)>::empty());
    }
    None
}

/// The string under `key`, where the object holds one.
fn get_str(ps: &Vec<(String, WireValue)>, key: &str) -> (r: Option<String>)
    ensures
        match spec_get(pairs_view(ps@), key@) {
            Some(WireV::Str(t)) => r matches Some(s) && s@ == t,
            _ => r is None,
        },
{
    match get(ps, key) {
        Some(WireValue::Str(s)) => Some(s.clone()),
        _ => None,
    }
}

/// The unsigned number under `key`, where the object holds one.
fn get_u64(ps: &Vec<(String, WireValue)>, key: &str) -> (r: Option<u64>)
    ensures
        match spec_get(pairs_view(ps@), key@) {
            Some(WireV::UInt(n)) => r == Some(n),
            _ => r is None,
        },
{
    match get(ps, key) {
        Some(WireValue::UInt(n)) => Some(*n),
        _ => None,
    }
}

/// The identifier under `key`, where the object holds one.
fn get_uid(ps: &Vec<(String, WireValue)>, key: &str) -> (r: Option<u128>)
    ensures
        match spec_get(pairs_view(ps@), key@) {
            Some(WireV::Uid(n)) => r == Some(n),
            _ => r is None,
        },
{
    match get(ps, key) {
        Some(WireValue::Uid(n)) => Some(*n),
        _ => None,
    }
}

/// The boolean under `key`, where the object holds one.
fn get_bool(ps: &Vec<(String, WireValue)>, key: &str) -> (r: Option<bool>)
    ensures
        match spec_get(pairs_view(ps@), key@) {
            Some(WireV::Bool(b)) => r == Some(b),
            _ => r is None,
        },
{
    match get(ps, key) {
        Some(WireValue::Bool(b)) => Some(*b),
        _ => None,
    }
}

fn parse_role(s: &String) -> (r: Option<RoomUserRoleV1>)
    ensures
        r == dec_role(s@),
{
    if text_is(s, "host") {
        Some(RoomUserRoleV1::Host)
    } else if text_is(s, "guest") {
        Some(RoomUserRoleV1::Guest)
    } else if text_is(s, "spectator") {
        Some(RoomUserRoleV1::Spectator)
    } else {
        None
    }
}

fn parse_closed_reason(s: &String) -> (r: Option<ConnectionClosedReasonV1>)
    ensures
        r == dec_closed_reason(s@),
{
    if text_is(s, "unauthorized") {
        Some(ConnectionClosedReasonV1::Unauthorized)
    } else if text_is(s, "server_error") {
        Some(ConnectionClosedReasonV1::ServerError)
    } else if text_is(s, "room_closed") {
        Some(ConnectionClosedReasonV1::RoomClosed)
    } else if text_is(s, "timeout") {
        Some(ConnectionClosedReasonV1::Timeout)
    } else if text_is(s, "unknown") {
        Some(ConnectionClosedReasonV1::Unknown)
    } else {
        None
    }
}

fn parse_room_disc_reason(s: &String) -> (r: Option<RoomDisconnectedReasonV1>)
    ensures
        r == dec_room_disc_reason(s@),
{
    if text_is(s, "closed_by_host") {
        Some(RoomDisconnectedReasonV1::ClosedByHost)
    } else if text_is(s, "unauthorized") {
        Some(RoomDisconnectedReasonV1::Unauthorized)
    } else if text_is(s, "server_error") {
        Some(RoomDisconnectedReasonV1::ServerError)
    } else {
        None
    }
}

fn parse_stop_reason(s: &String) -> (r: Option<PlaybackStopReasonV1>)
    ensures
        r == dec_stop_reason(s@),
{
    if text_is(s, "host_error") {
        Some(PlaybackStopReasonV1::HostError)
    } else if text_is(s, "stopped_by_host") {
        Some(PlaybackStopReasonV1::StoppedByHost)
    } else if text_is(s, "superseded") {
        Some(PlaybackStopReasonV1::Superseded)
    } else {
        None
    }
}

fn parse_disc_reason(s: &String) -> (r: Option<PlaybackDisconnectReasonV1>)
    ensures
        r == dec_disc_reason(s@),
{
    if text_is(s, "user") {
        Some(PlaybackDisconnectReasonV1::User)
    } else if text_is(s, "stopped_host_error") {
        Some(PlaybackDisconnectReasonV1::Stopped(PlaybackStopReasonV1::HostError))
    } else if text_is(s, "stopped_stopped_by_host") {
        Some(PlaybackDisconnectReasonV1::Stopped(PlaybackStopReasonV1::StoppedByHost))
    } else if text_is(s, "stopped_superseded") {
        Some(PlaybackDisconnectReasonV1::Stopped(PlaybackStopReasonV1::Superseded))
    } else if text_is(s, "subscriber_error") {
        Some(PlaybackDisconnectReasonV1::SubscriberError)
    } else {
        None
    }
}

fn parse_source(v: &WireValue) -> (r: Option<PlaybackSourceV1>)
    ensures
        match dec_source(wire_view(*v)) {
            Some(sv) => r matches Some(s) && s@ == sv,
            None => r is None,
        },
{
    let ps = match v {
        WireValue::Obj(ps) => ps,
        _ => {
            return None;
        },
    };
    proof {
        lemma_obj_view(*ps);
    }
    let title = match get_str(ps, "title") {
        Some(t) => t,
        None => {
            return None;
        },
    };
    let page_href = match get_str(ps, "page_href") {
        Some(t) => t,
        None => {
            return None;
        },
    };
    let frame_href = match get_str(ps, "frame_href") {
        Some(t) => t,
        None => {
            return None;
        },
    };
    let element_query = match get_str(ps, "element_query") {
        Some(t) => t,
        None => {
            return None;
        },
    };
    Some(PlaybackSourceV1 { title, page_href, frame_href, element_query })
}

fn parse_opt_source(v: &WireValue) -> (r: Option<Option<PlaybackSourceV1>>)
    ensures
        match dec_opt_source(wire_view(*v)) {
            Some(None) => r == Some(None::<PlaybackSourceV1>),
            Some(Some(sv)) => r matches Some(Some(s)) && s@ == sv,
            None => r is None,
        },
{
    match v {
        WireValue::Null => Some(None),
        _ => match parse_source(v) {
            Some(s) => Some(Some(s)),
            None => None,
        },
    }
}

fn parse_info(v: &WireValue) -> (r: Option<RoomPlaybackInfoV1>)
    ensures
        match dec_info(wire_view(*v)) {
            Some(iv) => r matches Some(i) && i@ == iv,
            None => r is None,
        },
{
    let ps = match v {
        WireValue::Obj(ps) => ps,
        _ => {
            return None;
        },
    };
    proof {
        lemma_obj_view(*ps);
    }
    let host = match get_str(ps, "host") {
        Some(t) => t,
        None => {
            return None;
        },
    };
    let sv = match get(ps, "source") {
        Some(sv) => sv,
        None => {
            return None;
        },
    };
    match parse_opt_source(sv) {
        Some(source) => Some(RoomPlaybackInfoV1 { host, source }),
        None => None,
    }
}

fn parse_opt_info(v: &WireValue) -> (r: Option<Option<RoomPlaybackInfoV1>>)
    ensures
        match dec_opt_info(wire_view(*v)) {
            Some(None) => r == Some(None::<RoomPlaybackInfoV1>),
            Some(Some(iv)) => r matches Some(Some(i)) && i@ == iv,
            None => r is None,
        },
{
    match v {
        WireValue::Null => Some(None),
        _ => match parse_info(v) {
            Some(i) => Some(Some(i)),
            None => None,
        },
    }
}

fn parse_pb_state(v: &WireValue) -> (r: Option<PlaybackStateV1>)
    ensures
        r == dec_pb_state(wire_view(*v)),
{
    let ps = match v {
        WireValue::Obj(ps) => ps,
        _ => {
            return None;
        },
    };
    proof {
        lemma_obj_view(*ps);
    }
    let timestamp = match get_u64(ps, "timestamp") {
        Some(n) => n,
        None => {
            return None;
        },
    };
    let playing = match get_bool(ps, "playing") {
        Some(b) => b,
        None => {
            return None;
        },
    };
    let time_millis = match get_u64(ps, "time") {
        Some(n) => n,
        None => {
            return None;
        },
    };
    Some(PlaybackStateV1 { timestamp, playing, time_millis })
}

fn parse_perms(v: &WireValue) -> (r: Option<RoomUserPermissionsV1>)
    ensures
        r == dec_perms(wire_view(*v)),
{
    let ps = match v {
        WireValue::Obj(ps) => ps,
        _ => {
            return None;
        },
    };
    proof {
        lemma_obj_view(*ps);
    }
    let can_host = match get_bool(ps, "can_host") {
        Some(b) => b,
        None => {
            return None;
        },
    };
    let can_set_roles = match get_bool(ps, "can_set_roles") {
        Some(b) => b,
        None => {
            return None;
        },
    };
    let can_kick = match get_bool(ps, "can_kick") {
        Some(b) => b,
        None => {
            return None;
        },
    };
    let can_close = match get_bool(ps, "can_close") {
        Some(b) => b,
        None => {
            return None;
        },
    };
    Some(RoomUserPermissionsV1 { can_host, can_set_roles, can_kick, can_close })
}

fn parse_user(v: &WireValue) -> (r: Option<RoomUserV1>)
    ensures
        match dec_user(wire_view(*v)) {
            Some(uv) => r matches Some(u) && u@ == uv,
            None => r is None,
        },
{
    let ps = match v {
        WireValue::Obj(ps) => ps,
        _ => {
            return None;
        },
    };
    proof {
        lemma_obj_view(*ps);
    }
    let bits = match get_uid(ps, "id") {
        Some(n) => n,
        None => {
            return None;
        },
    };
    let name = match get_str(ps, "name") {
        Some(t) => t,
        None => {
            return None;
        },
    };
    let role_text = match get_str(ps, "role") {
        Some(t) => t,
        None => {
            return None;
        },
    };
    match parse_role(&role_text) {
        Some(role) => Some(RoomUserV1 { id: crate::ids::SessionId { bits }, name, role }),
        None => None,
    }
}

fn parse_users(items: &Vec<WireValue>) -> (r: Option<Vec<RoomUserV1>>)
    ensures
        match dec_users(elems_view(items@)) {
            Some(us) => r matches Some(out) && crate::messages::users_view(out@) == us,
            None => r is None,
        },
{
    let ghost ev = elems_view(items@);
    let mut out: Vec<RoomUserV1> = Vec::new();
    let n = items.len();
    let mut i: usize = 0;
    proof {
        assert(ev.skip(0) =~= ev);
        assert(crate::messages::users_view(out@) =~= Seq::<RoomUserView>::empty());
    }
    while i < n
        invariant
            n == items@.len(),
            ev == elems_view(items@),
            ev.len() == n,
            i <= n,
            dec_users(ev) == (match dec_users(ev.skip(i as int)) {
                Some(rest) => Some(crate::messages::users_view(out@) + rest),
                None => None::<Seq<RoomUserView>>,
            }),
        decreases n - i,
    {
        let ghost pending = ev.skip(i as int);
        proof {
            assert(pending[0] == ev[i as int]);
            assert(ev[i as int] == wire_view(items@[i as int]));
            assert(pending.drop_first() =~= ev.skip(i + 1));
        }
        let u = match parse_user(&items[i]) {
            Some(u) => u,
            None => {
                return None;
            },
        };
        let ghost before = out@;
        out.push(u);
        proof {
            assert(crate::messages::users_view(out@)
                =~= crate::messages::users_view(before) + seq![out@.last()@]);
            if dec_users(ev.skip(i + 1)) is Some {
                let rest = dec_users(ev.skip(i + 1))->Some_0;
                assert(dec_users(pending) == Some(seq![out@.last()@] + rest));
                assert(crate::messages::users_view(before) + (seq![out@.last()@] + rest)
                    =~= crate::messages::users_view(out@) + rest);
            }
        }
        i = i + 1;
    }
    proof {
        assert(ev.skip(n as int) =~= Seq::<WireV>::empty());
        assert(crate::messages::users_view(out@) + Seq::<RoomUserView>::empty()
            =~= crate::messages::users_view(out@));
    }
    Some(out)
}

/// A payload that spells no message of the catalogue.
#[derive(Debug, Clone, Copy, PartialEq, Eq, Structural)]
pub enum DecodeError {
    MalformedMessage,
}

impl DecodeError {
    /// The wording reported to the peer.
    pub fn describe(&self) -> (r: String)
        ensures
            r@ == "Malformed message"@,
    {
        "Malformed message".to_owned()
    }
}

/// Decodes one parsed payload into a message of the catalogue.
#[verifier::rlimit(100)]
pub fn decode_message(v: &WireValue) -> (r: Result<Message, DecodeError>)
    ensures
        match r {
            Ok(msg) => dec(wire_view(*v)) == Some(msg@),
            Err(_) => dec(wire_view(*v)) is None,
        },
{
    let ps = match v {
        WireValue::Obj(ps) => ps,
        _ => {
            return Err(DecodeError::MalformedMessage);
        },
    };
    proof {
        lemma_obj_view(*ps);
    }
    let tag = match get_str(ps, "m") {
        Some(t) => t,
        None => {
            return Err(DecodeError::MalformedMessage);
        },
    };
    let timestamp = match get_u64(ps, "t") {
        Some(t) => t,
        None => {
            return Err(DecodeError::MalformedMessage);
        },
    };
    let body: Option<MessageBody> = if text_is(&tag, "connection::login/v1") {
        let username = get_str(ps, "username");
        match (username, get(ps, "api_key")) {
            (Some(username), Some(WireValue::Null)) => Some(
                MessageBody::ConnectionLoginV1(ConnectionLoginMsgBodyV1 { username, api_key: None }),
            ),
            (Some(username), Some(WireValue::Str(k))) => Some(
                MessageBody::ConnectionLoginV1(
                    ConnectionLoginMsgBodyV1 { username, api_key: Some(k.clone()) },
                ),
            ),
            _ => None,
        }
    } else if text_is(&tag, "connection::login_ack/v1") {
        Some(MessageBody::ConnectionLoginAckV1)
    } else if text_is(&tag, "connection::ping/v1") {
        Some(MessageBody::ConnectionPingV1)
    } else if text_is(&tag, "connection::pong/v1") {
        Some(MessageBody::ConnectionPongV1)
    } else if text_is(&tag, "connection::client_error/v1") {
        match get_str(ps, "message") {
            Some(message) => Some(
                MessageBody::ConnectionClientErrorV1(ConnectionClientErrorMsgBodyV1 { message }),
            ),
            None => None,
        }
    } else if text_is(&tag, "connection::closed/v1") {
        match (get_str(ps, "reason"), get_str(ps, "message")) {
            (Some(rt), Some(message)) => match parse_closed_reason(&rt) {
                Some(reason) => Some(
                    MessageBody::ConnectionClosedV1(ConnectionClosedMsgBodyV1 { reason, message }),
                ),
                None => None,
            },
            _ => None,
        }
    } else if text_is(&tag, "connection::keepalive/v1") {
        Some(MessageBody::ConnectionKeepaliveV1)
    } else if text_is(&tag, "room::create/v1") {
        match (get_str(ps, "name"), get_str(ps, "password")) {
            (Some(name), Some(password)) => Some(
                MessageBody::RoomCreateV1(RoomCreateMsgBodyV1 { name, password }),
            ),
            _ => None,
        }
    } else if text_is(&tag, "room::create_ack/v1") {
        Some(MessageBody::RoomCreateAckV1)
    } else if text_is(&tag, "room::close/v1") {
        Some(MessageBody::RoomCloseV1)
    } else if text_is(&tag, "room::close_ack/v1") {
        Some(MessageBody::RoomCloseAckV1)
    } else if text_is(&tag, "room::join/v1") {
        match (get_uid(ps, "id"), get_str(ps, "password")) {
            (Some(bits), Some(password)) => Some(
                MessageBody::RoomJoinV1(
                    RoomJoinMsgBodyV1 { id: crate::ids::RoomId { bits }, password },
                ),
            ),
            _ => None,
        }
    } else if text_is(&tag, "room::join_ack/v1") {
        Some(MessageBody::RoomJoinAckV1)
    } else if text_is(&tag, "room::leave/v1") {
        Some(MessageBody::RoomLeaveV1)
    } else if text_is(&tag, "room::leave_ack/v1") {
        Some(MessageBody::RoomLeaveAckV1)
    } else if text_is(&tag, "room::disconnected/v1") {
        match get_str(ps, "reason") {
            Some(rt) => match parse_room_disc_reason(&rt) {
                Some(reason) => Some(
                    MessageBody::RoomDisconnectedV1(RoomDisconnectedMsgBodyV1 { reason }),
                ),
                None => None,
            },
            None => None,
        }
    } else if text_is(&tag, "room::request_state/v1") {
        Some(MessageBody::RoomRequestStateV1)
    } else if text_is(&tag, "room::state/v1") {
        let ids = get_uid(ps, "id");
        let name = get_str(ps, "name");
        let password = get_str(ps, "password");
        let users_value = get(ps, "users");
        match (ids, name, password, users_value, get(ps, "playback_info")) {
            (Some(bits), Some(name), Some(password), Some(WireValue::Arr(items)), Some(iv)) => {
                proof {
                    lemma_arr_view(*items);
                }
                match (parse_users(items), parse_opt_info(iv)) {
                    (Some(users), Some(playback_info)) => {
                        Some(
                            MessageBody::RoomStateV1(
                                RoomStateMsgBodyV1 {
                                    id: crate::ids::RoomId { bits },
                                    name,
                                    password,
                                    users,
                                    playback_info,
                                },
                            ),
                        )
                    },
                    _ => None,
                }
            },
            _ => None,
        }
    } else if text_is(&tag, "room::request_permissions/v1") {
        Some(MessageBody::RoomRequestPermissionsV1)
    } else if text_is(&tag, "room::permissions/v1") {
        match (get_str(ps, "role"), get(ps, "permissions")) {
            (Some(rt), Some(pv)) => match (parse_role(&rt), parse_perms(pv)) {
                (Some(role), Some(permissions)) => Some(
                    MessageBody::RoomPermissionsV1(RoomPermissionsMsgBodyV1 { role, permissions }),
                ),
                _ => None,
            },
            _ => None,
        }
    } else if text_is(&tag, "room::set_user_role/v1") {
        match (get_uid(ps, "user_id"), get_str(ps, "role")) {
            (Some(bits), Some(rt)) => match parse_role(&rt) {
                Some(role) => Some(
                    MessageBody::RoomSetUserRoleV1(
                        RoomSetUserRoleMsgBodyV1 {
                            user_id: crate::ids::SessionId { bits },
                            role,
                        },
                    ),
                ),
                None => None,
            },
            _ => None,
        }
    } else if text_is(&tag, "room::kick_user/v1") {
        match get_uid(ps, "user_id") {
            Some(bits) => Some(
                MessageBody::RoomKickUserV1(
                    RoomKickUserMsgBodyV1 { user_id: crate::ids::SessionId { bits } },
                ),
            ),
            None => None,
        }
    } else if text_is(&tag, "playback::request_host/v1") {
        Some(MessageBody::PlaybackRequestHostV1)
    } else if text_is(&tag, "playback::hosting/v1") {
        Some(MessageBody::PlaybackHostingV1)
    } else if text_is(&tag, "playback::request_connect/v1") {
        Some(MessageBody::PlaybackRequestConnectV1)
    } else if text_is(&tag, "playback::connected/v1") {
        Some(MessageBody::PlaybackConnectedV1)
    } else if text_is(&tag, "playback::available/v1") {
        match get(ps, "info") {
            Some(iv) => match parse_info(iv) {
                Some(info) => Some(
                    MessageBody::PlaybackAvailableV1(PlaybackAvailableMsgBodyV1 { info }),
                ),
                None => None,
            },
            None => None,
        }
    } else if text_is(&tag, "playback::request_start/v1") {
        match get(ps, "source") {
            Some(sv) => match parse_source(sv) {
                Some(source) => Some(
                    MessageBody::PlaybackRequestStartV1(PlaybackRequestStartMsgBodyV1 { source }),
                ),
                None => None,
            },
            None => None,
        }
    } else if text_is(&tag, "playback::started/v1") {
        Some(MessageBody::PlaybackStartedV1)
    } else if text_is(&tag, "playback::sync/v1") {
        match get(ps, "state") {
            Some(sv) => match parse_pb_state(sv) {
                Some(state) => Some(MessageBody::PlaybackSyncV1(PlaybackSyncMsgBodyV1 { state })),
                None => None,
            },
            None => None,
        }
    } else if text_is(&tag, "playback::request_stop/v1") {
        Some(MessageBody::PlaybackRequestStopV1)
    } else if text_is(&tag, "playback::stopped/v1") {
        match get_str(ps, "reason") {
            Some(rt) => match parse_stop_reason(&rt) {
                Some(reason) => Some(
                    MessageBody::PlaybackStoppedV1(PlaybackStoppedMsgBodyV1 { reason }),
                ),
                None => None,
            },
            None => None,
        }
    } else if text_is(&tag, "playback::request_disconnect/v1") {
        Some(MessageBody::PlaybackRequestDisconnectV1)
    } else if text_is(&tag, "playback::disconnected/v1") {
        match get_str(ps, "reason") {
            Some(rt) => match parse_disc_reason(&rt) {
                Some(reason) => Some(
                    MessageBody::PlaybackDisconnectedV1(PlaybackDisconnectedMsgBodyV1 { reason }),
                ),
                None => None,
            },
            None => None,
        }
    } else {
        None
    };
    proof {
        assert(spec_get(pairs_view(ps@), "m"@) == Some(WireV::Str(tag@)));
        assert(spec_get(pairs_view(ps@), "t"@) == Some(WireV::UInt(timestamp)));
        match &body {
            Some(b) => {
                assert(dec_body(tag@, pairs_view(ps@)) == Some(b@));
            },
            None => {
                assert(dec_body(tag@, pairs_view(ps@)) is None);
            },
        }
    }
    match body {
        Some(body) => Ok(Message { timestamp, body }),
        None => Err(DecodeError::MalformedMessage),
    }
}


/// Assembles the envelope object: tag, timestamp, then the body fields.
fn finish(tag_text: &str, timestamp: u64, fields: Vec<(String, WireValue)>) -> (v: WireValue)
    ensures
        wire_view(v) == WireV::Obj(
            seq![("m"@, WireV::Str(tag_text@)), ("t"@, WireV::UInt(timestamp))] + pairs_view(
                fields@,
            ),
        ),
{
    let ghost fv = pairs_view(fields@);
    let mut pairs: Vec<(String, WireValue)> = Vec::new();
    pairs.push(("m".to_owned(), WireValue::Str(tag_text.to_owned())));
    pairs.push(("t".to_owned(), WireValue::UInt(timestamp)));
    let mut fields = fields;
    pairs.append(&mut fields);
    let v = WireValue::Obj(pairs);
    proof {
        lemma_obj_view(v->Obj_0);
        assert(pairs_view(v->Obj_0@) =~= seq![
            ("m"@, WireV::Str(tag_text@)),
            ("t"@, WireV::UInt(timestamp)),
        ] + fv);
    }
    v
}

fn build_role(r: RoomUserRoleV1) -> (s: String)
    ensures
        s@ == enc_role(r),
{
    match r {
        RoomUserRoleV1::Host => "host".to_owned(),
        RoomUserRoleV1::Guest => "guest".to_owned(),
        RoomUserRoleV1::Spectator => "spectator".to_owned(),
    }
}

fn build_closed_reason(r: ConnectionClosedReasonV1) -> (s: String)
    ensures
        s@ == enc_closed_reason(r),
{
    match r {
        ConnectionClosedReasonV1::Unauthorized => "unauthorized".to_owned(),
        ConnectionClosedReasonV1::ServerError => "server_error".to_owned(),
        ConnectionClosedReasonV1::RoomClosed => "room_closed".to_owned(),
        ConnectionClosedReasonV1::Timeout => "timeout".to_owned(),
        ConnectionClosedReasonV1::Unknown => "unknown".to_owned(),
    }
}

fn build_room_disc_reason(r: RoomDisconnectedReasonV1) -> (s: String)
    ensures
        s@ == enc_room_disc_reason(r),
{
    match r {
        RoomDisconnectedReasonV1::ClosedByHost => "closed_by_host".to_owned(),
        RoomDisconnectedReasonV1::Unauthorized => "unauthorized".to_owned(),
        RoomDisconnectedReasonV1::ServerError => "server_error".to_owned(),
    }
}

fn build_stop_reason(r: PlaybackStopReasonV1) -> (s: String)
    ensures
        s@ == enc_stop_reason(r),
{
    match r {
        PlaybackStopReasonV1::HostError => "host_error".to_owned(),
        PlaybackStopReasonV1::StoppedByHost => "stopped_by_host".to_owned(),
        PlaybackStopReasonV1::Superseded => "superseded".to_owned(),
    }
}

fn build_disc_reason(r: PlaybackDisconnectReasonV1) -> (s: String)
    ensures
        s@ == enc_disc_reason(r),
{
    match r {
        PlaybackDisconnectReasonV1::User => "user".to_owned(),
        PlaybackDisconnectReasonV1::Stopped(PlaybackStopReasonV1::HostError) => "stopped_host_error".to_owned(),
        PlaybackDisconnectReasonV1::Stopped(PlaybackStopReasonV1::StoppedByHost) => "stopped_stopped_by_host".to_owned(),
        PlaybackDisconnectReasonV1::Stopped(PlaybackStopReasonV1::Superseded) => "stopped_superseded".to_owned(),
        PlaybackDisconnectReasonV1::SubscriberError => "subscriber_error".to_owned(),
    }
}

fn build_source(s: &PlaybackSourceV1) -> (v: WireValue)
    ensures
        wire_view(v) == enc_source(s@),
{
    let mut ps: Vec<(String, WireValue)> = Vec::new();
    ps.push(("title".to_owned(), WireValue::Str(s.title.clone())));
    ps.push(("page_href".to_owned(), WireValue::Str(s.page_href.clone())));
    ps.push(("frame_href".to_owned(), WireValue::Str(s.frame_href.clone())));
    ps.push(("element_query".to_owned(), WireValue::Str(s.element_query.clone())));
    let v = WireValue::Obj(ps);
    proof {
        lemma_obj_view(v->Obj_0);
        assert(pairs_view(v->Obj_0@) =~= enc_source(s@)->Obj_0);
    }
    v
}

fn build_opt_source(s: &Option<PlaybackSourceV1>) -> (v: WireValue)
    ensures
        wire_view(v) == enc_opt_source(crate::messages::opt_source_view(*s)),
{
    match s {
        None => WireValue::Null,
        Some(src) => build_source(src),
    }
}

fn build_info(i: &RoomPlaybackInfoV1) -> (v: WireValue)
    ensures
        wire_view(v) == enc_info(i@),
{
    let mut ps: Vec<(String, WireValue)> = Vec::new();
    ps.push(("host".to_owned(), WireValue::Str(i.host.clone())));
    ps.push(("source".to_owned(), build_opt_source(&i.source)));
    let v = WireValue::Obj(ps);
    proof {
        lemma_obj_view(v->Obj_0);
        assert(pairs_view(v->Obj_0@) =~= enc_info(i@)->Obj_0);
    }
    v
}

fn build_opt_info(i: &Option<RoomPlaybackInfoV1>) -> (v: WireValue)
    ensures
        wire_view(v) == enc_opt_info(crate::messages::opt_info_view(*i)),
{
    match i {
        None => WireValue::Null,
        Some(info) => build_info(info),
    }
}

fn build_pb_state(s: &PlaybackStateV1) -> (v: WireValue)
    ensures
        wire_view(v) == enc_pb_state(*s),
{
    let mut ps: Vec<(String, WireValue)> = Vec::new();
    ps.push(("timestamp".to_owned(), WireValue::UInt(s.timestamp)));
    ps.push(("playing".to_owned(), WireValue::Bool(s.playing)));
    ps.push(("time".to_owned(), WireValue::UInt(s.time_millis)));
    let v = WireValue::Obj(ps);
    proof {
        lemma_obj_view(v->Obj_0);
        assert(pairs_view(v->Obj_0@) =~= enc_pb_state(*s)->Obj_0);
    }
    v
}

fn build_user(u: &RoomUserV1) -> (v: WireValue)
    ensures
        wire_view(v) == enc_user(u@),
{
    let mut ps: Vec<(String, WireValue)> = Vec::new();
    ps.push(("id".to_owned(), WireValue::Uid(u.id.bits)));
    ps.push(("name".to_owned(), WireValue::Str(u.name.clone())));
    ps.push(("role".to_owned(), WireValue::Str(build_role(u.role))));
    let v = WireValue::Obj(ps);
    proof {
        lemma_obj_view(v->Obj_0);
        assert(pairs_view(v->Obj_0@) =~= enc_user(u@)->Obj_0);
    }
    v
}

fn build_users(us: &Vec<RoomUserV1>) -> (v: WireValue)
    ensures
        wire_view(v) == WireV::Arr(enc_users(crate::messages::users_view(us@))),
{
    let mut items: Vec<WireValue> = Vec::new();
    let n = us.len();
    let mut i: usize = 0;
    while i < n
        invariant
            n == us@.len(),
            i <= n,
            elems_view(items@) =~= enc_users(crate::messages::users_view(us@)).take(i as int),
        decreases n - i,
    {
        let w = build_user(&us[i]);
        let ghost before = items@;
        items.push(w);
        proof {
            assert(elems_view(items@) =~= elems_view(before) + seq![wire_view(items@.last())]);
            assert(crate::messages::users_view(us@)[i as int] == us@[i as int]@);
            assert(elems_view(before) + seq![wire_view(items@.last())]
                =~= enc_users(crate::messages::users_view(us@)).take(i + 1));
        }
        i = i + 1;
    }
    let v = WireValue::Arr(items);
    proof {
        lemma_arr_view(v->Arr_0);
        assert(enc_users(crate::messages::users_view(us@)).take(n as int)
            =~= enc_users(crate::messages::users_view(us@)));
    }
    v
}

fn build_perms(p: &RoomUserPermissionsV1) -> (v: WireValue)
    ensures
        wire_view(v) == enc_perms(*p),
{
    let mut ps: Vec<(String, WireValue)> = Vec::new();
    ps.push(("can_host".to_owned(), WireValue::Bool(p.can_host)));
    ps.push(("can_set_roles".to_owned(), WireValue::Bool(p.can_set_roles)));
    ps.push(("can_kick".to_owned(), WireValue::Bool(p.can_kick)));
    ps.push(("can_close".to_owned(), WireValue::Bool(p.can_close)));
    let v = WireValue::Obj(ps);
    proof {
        lemma_obj_view(v->Obj_0);
        assert(pairs_view(v->Obj_0@) =~= enc_perms(*p)->Obj_0);
    }
    v
}

/// Encodes one message as the tree it becomes on the wire.
#[verifier::rlimit(100)]
pub fn encode_message(m: &Message) -> (v: WireValue)
    ensures
        wire_view(v) == enc(m@),
{
    let timestamp = m.timestamp;
    let mut fields: Vec<(String, WireValue)> = Vec::new();
    let tag: &str = match &m.body {
        MessageBody::ConnectionLoginV1(b) => {
            fields.push(("username".to_owned(), WireValue::Str(b.username.clone())));
            let key_value = match &b.api_key {
                None => WireValue::Null,
                Some(k) => WireValue::Str(k.clone()),
            };
            fields.push(("api_key".to_owned(), key_value));
            "connection::login/v1"
        },
        MessageBody::ConnectionLoginAckV1 => "connection::login_ack/v1",
        MessageBody::ConnectionPingV1 => "connection::ping/v1",
        MessageBody::ConnectionPongV1 => "connection::pong/v1",
        MessageBody::ConnectionClientErrorV1(b) => {
            fields.push(("message".to_owned(), WireValue::Str(b.message.clone())));
            "connection::client_error/v1"
        },
        MessageBody::ConnectionClosedV1(b) => {
            fields.push(("reason".to_owned(), WireValue::Str(build_closed_reason(b.reason))));
            fields.push(("message".to_owned(), WireValue::Str(b.message.clone())));
            "connection::closed/v1"
        },
        MessageBody::ConnectionKeepaliveV1 => "connection::keepalive/v1",
        MessageBody::RoomCreateV1(b) => {
            fields.push(("name".to_owned(), WireValue::Str(b.name.clone())));
            fields.push(("password".to_owned(), WireValue::Str(b.password.clone())));
            "room::create/v1"
        },
        MessageBody::RoomCreateAckV1 => "room::create_ack/v1",
        MessageBody::RoomCloseV1 => "room::close/v1",
        MessageBody::RoomCloseAckV1 => "room::close_ack/v1",
        MessageBody::RoomJoinV1(b) => {
            fields.push(("id".to_owned(), WireValue::Uid(b.id.bits)));
            fields.push(("password".to_owned(), WireValue::Str(b.password.clone())));
            "room::join/v1"
        },
        MessageBody::RoomJoinAckV1 => "room::join_ack/v1",
        MessageBody::RoomLeaveV1 => "room::leave/v1",
        MessageBody::RoomLeaveAckV1 => "room::leave_ack/v1",
        MessageBody::RoomDisconnectedV1(b) => {
            fields.push(("reason".to_owned(), WireValue::Str(build_room_disc_reason(b.reason))));
            "room::disconnected/v1"
        },
        MessageBody::RoomRequestStateV1 => "room::request_state/v1",
        MessageBody::RoomStateV1(b) => {
            fields.push(("id".to_owned(), WireValue::Uid(b.id.bits)));
            fields.push(("name".to_owned(), WireValue::Str(b.name.clone())));
            fields.push(("password".to_owned(), WireValue::Str(b.password.clone())));
            fields.push(("users".to_owned(), build_users(&b.users)));
            fields.push(("playback_info".to_owned(), build_opt_info(&b.playback_info)));
            "room::state/v1"
        },
        MessageBody::RoomRequestPermissionsV1 => "room::request_permissions/v1",
        MessageBody::RoomPermissionsV1(b) => {
            fields.push(("role".to_owned(), WireValue::Str(build_role(b.role))));
            fields.push(("permissions".to_owned(), build_perms(&b.permissions)));
            "room::permissions/v1"
        },
        MessageBody::RoomSetUserRoleV1(b) => {
            fields.push(("user_id".to_owned(), WireValue::Uid(b.user_id.bits)));
            fields.push(("role".to_owned(), WireValue::Str(build_role(b.role))));
            "room::set_user_role/v1"
        },
        MessageBody::RoomKickUserV1(b) => {
            fields.push(("user_id".to_owned(), WireValue::Uid(b.user_id.bits)));
            "room::kick_user/v1"
        },
        MessageBody::PlaybackRequestHostV1 => "playback::request_host/v1",
        MessageBody::PlaybackHostingV1 => "playback::hosting/v1",
        MessageBody::PlaybackRequestConnectV1 => "playback::request_connect/v1",
        MessageBody::PlaybackConnectedV1 => "playback::connected/v1",
        MessageBody::PlaybackAvailableV1(b) => {
            fields.push(("info".to_owned(), build_info(&b.info)));
            "playback::available/v1"
        },
        MessageBody::PlaybackRequestStartV1(b) => {
            fields.push(("source".to_owned(), build_source(&b.source)));
            "playback::request_start/v1"
        },
        MessageBody::PlaybackStartedV1 => "playback::started/v1",
        MessageBody::PlaybackSyncV1(b) => {
            fields.push(("state".to_owned(), build_pb_state(&b.state)));
            "playback::sync/v1"
        },
        MessageBody::PlaybackRequestStopV1 => "playback::request_stop/v1",
        MessageBody::PlaybackStoppedV1(b) => {
            fields.push(("reason".to_owned(), WireValue::Str(build_stop_reason(b.reason))));
            "playback::stopped/v1"
        },
        MessageBody::PlaybackRequestDisconnectV1 => "playback::request_disconnect/v1",
        MessageBody::PlaybackDisconnectedV1(b) => {
            fields.push(("reason".to_owned(), WireValue::Str(build_disc_reason(b.reason))));
            "playback::disconnected/v1"
        },
    };
    proof {
        assert(pairs_view(fields@) =~= enc_body(m@.body).1);
        assert(tag@ == enc_body(m@.body).0);
    }
    finish(tag, timestamp, fields)
}

// ---------------------------------------------------------------------
// The per-peer format memory
// ---------------------------------------------------------------------

/// The two carrier syntaxes the channel can speak.
#[derive(Debug, Clone, Copy, PartialEq, Eq, Structural)]
pub enum MessageFormat {
    Json,
    Msgpack,
}

impl Default for MessageFormat {
    /// A fresh channel speaks the binary-packed syntax.
    fn default() -> (f: Self)
        ensures
            f == MessageFormat::Msgpack,
    {
        MessageFormat::Msgpack
    }
}

/// One incoming frame, with its payload already parsed into a tree
/// where the carrier syntax allowed it.
#[derive(Debug)]
pub enum IncomingFrame {
    Binary(Option<WireValue>),
    Text(Option<WireValue>),
    Close,
    Control,
}

/// What one frame amounts to.
#[derive(Debug)]
pub enum RecvOutcome {
    Message(Message),
    Malformed(DecodeError),
    Ignored,
    Closed,
}

pub open spec fn spec_format_after(format: MessageFormat, frame: IncomingFrame) -> MessageFormat {
    match frame {
        IncomingFrame::Binary(_) => MessageFormat::Msgpack,
        IncomingFrame::Text(_) => MessageFormat::Json,
        IncomingFrame::Close => format,
        IncomingFrame::Control => format,
    }
}

/// One end of the message transport: remembers the format of the last
/// frame the peer sent, so that replies use the same syntax.
#[derive(Debug)]
pub struct MessageChannel {
    pub format: MessageFormat,
}

impl MessageChannel {
    pub fn new() -> (c: Self)
        ensures
            c.format == MessageFormat::Msgpack,
    {
        MessageChannel { format: MessageFormat::default() }
    }

    /// The syntax outbound messages must use.
    pub fn outgoing_format(&self) -> (f: MessageFormat)
        ensures
            f == self.format,
    {
        self.format
    }

    /// Takes one incoming frame: data frames switch the format to their
    /// own syntax and decode; close frames end the stream; other control
    /// frames are ignored.
    pub fn recv_frame(&mut self, frame: IncomingFrame) -> (r: RecvOutcome)
        ensures
            final(self).format == spec_format_after(old(self).format, frame),
            match frame {
                IncomingFrame::Binary(payload) | IncomingFrame::Text(payload) => match payload {
                    None => r is Malformed,
                    Some(v) => match dec(wire_view(v)) {
                        Some(mv) => r matches RecvOutcome::Message(msg) && msg@ == mv,
                        None => r is Malformed,
                    },
                },
                IncomingFrame::Close => r is Closed,
                IncomingFrame::Control => r is Ignored,
            },
    {
        match frame {
            IncomingFrame::Binary(payload) => {
                self.format = MessageFormat::Msgpack;
                match payload {
                    None => RecvOutcome::Malformed(DecodeError::MalformedMessage),
                    Some(v) => match decode_message(&v) {
                        Ok(msg) => RecvOutcome::Message(msg),
                        Err(e) => RecvOutcome::Malformed(e),
                    },
                }
            },
            IncomingFrame::Text(payload) => {
                self.format = MessageFormat::Json;
                match payload {
                    None => RecvOutcome::Malformed(DecodeError::MalformedMessage),
                    Some(v) => match decode_message(&v) {
                        Ok(msg) => RecvOutcome::Message(msg),
                        Err(e) => RecvOutcome::Malformed(e),
                    },
                }
            },
            IncomingFrame::Close => RecvOutcome::Closed,
            IncomingFrame::Control => RecvOutcome::Ignored,
        }
    }
}

} // verus!
