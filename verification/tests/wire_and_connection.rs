use palantir::api_access::{
    ApiAccessConfig, ApiAccessManager, ApiAccessPolicy, ApiKey, ApiPermissions,
};
use palantir::config::{Cli, Config};
use palantir::connection::{compute_ping, ConnPhase, Connection};
use palantir::ids::{RoomId, SessionId};
use palantir::messages::{
    ConnectionClosedReasonV1, ConnectionLoginMsgBodyV1, Message, MessageBody,
    PlaybackDisconnectReasonV1, PlaybackStateV1, PlaybackStopReasonV1, PlaybackSourceV1,
    PlaybackSyncMsgBodyV1, RoomCreateMsgBodyV1, RoomJoinMsgBodyV1, RoomPlaybackInfoV1,
    RoomStateMsgBodyV1, RoomUserRoleV1, RoomUserV1,
};
use palantir::wire::{decode_message, encode_message, IncomingFrame, MessageChannel, MessageFormat, RecvOutcome, WireValue};

fn round_trip(msg: Message) {
    let tree = encode_message(&msg);
    let back = decode_message(&tree).expect("decodes");
    assert_eq!(back, msg);
}

#[test]
fn codec_round_trips_every_message_kind() {
    let source = PlaybackSourceV1 {
        title: "t".to_string(),
        page_href: "p".to_string(),
        frame_href: "f".to_string(),
        element_query: "q".to_string(),
    };
    let info = RoomPlaybackInfoV1 { host: "h".to_string(), source: Some(source.clone()) };
    let state = PlaybackStateV1 { timestamp: 7, playing: true, time_millis: 9 };
    let bodies = vec![
        MessageBody::ConnectionLoginV1(ConnectionLoginMsgBodyV1 {
            username: "u".to_string(),
            api_key: Some("AAAAA".to_string()),
        }),
        MessageBody::ConnectionLoginV1(ConnectionLoginMsgBodyV1 {
            username: "u".to_string(),
            api_key: None,
        }),
        MessageBody::ConnectionLoginAckV1,
        MessageBody::ConnectionPingV1,
        MessageBody::ConnectionPongV1,
        MessageBody::ConnectionClientErrorV1(palantir::messages::ConnectionClientErrorMsgBodyV1 {
            message: "boom".to_string(),
        }),
        MessageBody::ConnectionClosedV1(palantir::messages::ConnectionClosedMsgBodyV1 {
            reason: ConnectionClosedReasonV1::Timeout,
            message: "late".to_string(),
        }),
        MessageBody::ConnectionKeepaliveV1,
        MessageBody::RoomCreateV1(RoomCreateMsgBodyV1 {
            name: "r".to_string(),
            password: "p".to_string(),
        }),
        MessageBody::RoomCreateAckV1,
        MessageBody::RoomCloseV1,
        MessageBody::RoomCloseAckV1,
        MessageBody::RoomJoinV1(RoomJoinMsgBodyV1 {
            id: RoomId { bits: 42 },
            password: String::new(),
        }),
        MessageBody::RoomJoinAckV1,
        MessageBody::RoomLeaveV1,
        MessageBody::RoomLeaveAckV1,
        MessageBody::RoomDisconnectedV1(palantir::messages::RoomDisconnectedMsgBodyV1 {
            reason: palantir::messages::RoomDisconnectedReasonV1::ClosedByHost,
        }),
        MessageBody::RoomRequestStateV1,
        MessageBody::RoomStateV1(RoomStateMsgBodyV1 {
            id: RoomId { bits: 1 },
            name: "r".to_string(),
            password: "pw".to_string(),
            users: vec![
                RoomUserV1 {
                    id: SessionId { bits: 2 },
                    name: "a".to_string(),
                    role: RoomUserRoleV1::Host,
                },
                RoomUserV1 {
                    id: SessionId { bits: 3 },
                    name: "b".to_string(),
                    role: RoomUserRoleV1::Guest,
                },
            ],
            playback_info: Some(info.clone()),
        }),
        MessageBody::RoomRequestPermissionsV1,
        MessageBody::RoomPermissionsV1(palantir::messages::RoomPermissionsMsgBodyV1 {
            role: RoomUserRoleV1::Guest,
            permissions: palantir::messages::RoomUserPermissionsV1 {
                can_host: true,
                can_set_roles: false,
                can_kick: false,
                can_close: false,
            },
        }),
        MessageBody::RoomSetUserRoleV1(palantir::messages::RoomSetUserRoleMsgBodyV1 {
            user_id: SessionId { bits: 4 },
            role: RoomUserRoleV1::Spectator,
        }),
        MessageBody::RoomKickUserV1(palantir::messages::RoomKickUserMsgBodyV1 {
            user_id: SessionId { bits: 5 },
        }),
        MessageBody::PlaybackRequestHostV1,
        MessageBody::PlaybackHostingV1,
        MessageBody::PlaybackRequestConnectV1,
        MessageBody::PlaybackConnectedV1,
        MessageBody::PlaybackAvailableV1(palantir::messages::PlaybackAvailableMsgBodyV1 {
            info: info.clone(),
        }),
        MessageBody::PlaybackRequestStartV1(palantir::messages::PlaybackRequestStartMsgBodyV1 {
            source: source.clone(),
        }),
        MessageBody::PlaybackStartedV1,
        MessageBody::PlaybackSyncV1(PlaybackSyncMsgBodyV1 { state }),
        MessageBody::PlaybackRequestStopV1,
        MessageBody::PlaybackStoppedV1(palantir::messages::PlaybackStoppedMsgBodyV1 {
            reason: PlaybackStopReasonV1::Superseded,
        }),
        MessageBody::PlaybackRequestDisconnectV1,
        MessageBody::PlaybackDisconnectedV1(palantir::messages::PlaybackDisconnectedMsgBodyV1 {
            reason: PlaybackDisconnectReasonV1::Stopped(PlaybackStopReasonV1::HostError),
        }),
    ];
    let mut t = 1u64;
    for body in bodies {
        round_trip(Message::new_with_timestamp(body, t));
        t += 1;
    }
}

#[test]
fn malformed_payloads_are_rejected() {
    assert!(decode_message(&WireValue::Null).is_err());
    assert!(decode_message(&WireValue::Obj(vec![])).is_err());
    assert!(decode_message(&WireValue::Obj(vec![
        ("m".to_string(), WireValue::Str("no::such::thing/v9".to_string())),
        ("t".to_string(), WireValue::UInt(1)),
    ]))
    .is_err());
}

#[test]
fn channel_replies_in_the_format_last_received() {
    let mut channel = MessageChannel::new();
    assert_eq!(channel.outgoing_format(), MessageFormat::Msgpack);

    let ping = encode_message(&Message::new_with_timestamp(MessageBody::ConnectionPingV1, 69420));
    match channel.recv_frame(IncomingFrame::Text(Some(ping))) {
        RecvOutcome::Message(m) => assert_eq!(m.body, MessageBody::ConnectionPingV1),
        other => panic!("unexpected outcome: {other:?}"),
    }
    assert_eq!(channel.outgoing_format(), MessageFormat::Json);

    let pong = encode_message(&Message::new_with_timestamp(MessageBody::ConnectionPongV1, 42069));
    match channel.recv_frame(IncomingFrame::Binary(Some(pong))) {
        RecvOutcome::Message(m) => assert_eq!(m.body, MessageBody::ConnectionPongV1),
        other => panic!("unexpected outcome: {other:?}"),
    }
    assert_eq!(channel.outgoing_format(), MessageFormat::Msgpack);

    match channel.recv_frame(IncomingFrame::Binary(None)) {
        RecvOutcome::Malformed(_) => (),
        other => panic!("unexpected outcome: {other:?}"),
    }
    match channel.recv_frame(IncomingFrame::Close) {
        RecvOutcome::Closed => (),
        other => panic!("unexpected outcome: {other:?}"),
    }
}

fn deny_all_manager() -> ApiAccessManager {
    ApiAccessManager::new(ApiAccessConfig {
        api_policy: ApiAccessPolicy { restrict_connect: true, restrict_host: true },
        api_keys: vec![],
    })
}

fn login(username: &str, api_key: Option<&str>) -> Message {
    Message::new_with_timestamp(
        MessageBody::ConnectionLoginV1(ConnectionLoginMsgBodyV1 {
            username: username.to_string(),
            api_key: api_key.map(|k| k.to_string()),
        }),
        0,
    )
}

#[test]
fn unauthorized_login_closes_the_connection() {
    // Deny-all policy, no key: one closed notice, reason unauthorized.
    let mgr = deny_all_manager();
    let mut conn = Connection::new(0);
    let out = conn.login_step(&mgr, login("x", None), 1);
    match out.as_slice() {
        [MessageBody::ConnectionClosedV1(b)] => {
            assert_eq!(b.reason, ConnectionClosedReasonV1::Unauthorized);
        }
        other => panic!("unexpected output: {other:?}"),
    }
    assert!(!conn.is_open());
}

#[test]
fn login_before_the_deadline_succeeds_after_it_closes() {
    let mgr = ApiAccessManager::new(ApiAccessConfig {
        api_policy: ApiAccessPolicy { restrict_connect: true, restrict_host: true },
        api_keys: vec![ApiKey { key: "AAAAA".to_string(), permissions: ApiPermissions::all() }],
    });

    // One millisecond before the deadline: acknowledged.
    let mut early = Connection::new(0);
    let out = early.login_step(&mgr, login("u", Some("AAAAA")), 2999);
    assert!(matches!(out.as_slice(), [MessageBody::ConnectionLoginAckV1]));
    assert_eq!(early.phase, ConnPhase::Authenticated);
    assert!(early.is_open());
    assert_eq!(early.permissions(), ApiPermissions::all());

    // One millisecond after the deadline: closed as unauthorized.
    let mut late = Connection::new(0);
    let out = late.login_step(&mgr, login("u", Some("AAAAA")), 3001);
    match out.as_slice() {
        [MessageBody::ConnectionClosedV1(b)] => {
            assert_eq!(b.reason, ConnectionClosedReasonV1::Unauthorized);
        }
        other => panic!("unexpected output: {other:?}"),
    }
    assert!(!late.is_open());
}

#[test]
fn close_twice_is_close_once() {
    let mut conn = Connection::new(0);
    let first = conn.close(
        palantir::connection::CloseReason::ServerError,
        "going away".to_string(),
    );
    assert_eq!(first.len(), 1);
    assert!(!conn.is_open());
    let second = conn.close(
        palantir::connection::CloseReason::ServerError,
        "going away".to_string(),
    );
    assert!(second.is_empty());
    assert!(!conn.is_open());
}

#[test]
fn pong_after_unrelated_messages_still_resolves_the_ping() {
    // A non-pong arriving during the wait is put aside, not dropped,
    // and the session-facing receive path hands it out afterwards.
    let mut conn = Connection::new(0);
    let unrelated = Message::new_with_timestamp(MessageBody::RoomRequestStateV1, 5);
    let pong = Message::new_with_timestamp(MessageBody::ConnectionPongV1, 150);

    assert_eq!(conn.ping_wait_step(unrelated.clone()), None);
    assert!(conn.is_open());
    assert_eq!(conn.ping_wait_step(pong), Some(150));

    let buffered = conn.next_buffered().expect("buffered message");
    assert_eq!(buffered, unrelated);
    assert!(conn.next_buffered().is_none());
}

#[test]
fn ping_offset_is_measured_against_the_trip_midpoint() {
    // Start 100, end 300: the pong was expected around 200. A pong
    // stamped 250 means the peer runs 50 ms ahead.
    let r = compute_ping(100, 300, 250);
    assert_eq!(r.latency, 200);
    assert_eq!(r.time_offset, 50);

    // A peer running behind yields a negative offset.
    let r = compute_ping(100, 300, 140);
    assert_eq!(r.time_offset, -60);
}

#[test]
fn cli_listen_address_overrides_the_loaded_file() {
    let cli = Cli { listen_on: Some("0.0.0.0:7000".to_string()), config: None };
    let merged = Config::from_cli_args(&cli, None);
    assert_eq!(merged.server.listen_on, "0.0.0.0:7000");
    assert!(merged.api_access.api_policy.restrict_connect);

    let no_override = Cli { listen_on: None, config: None };
    let merged = Config::from_cli_args(&no_override, None);
    assert_eq!(merged.server.listen_on, "127.0.0.1:8069");
}
