use palantir::api_access::ApiPermissions;
use palantir::ids::SessionId;
use palantir::messages::MessageBody;
use palantir::playback::{PlaybackRequest, PlaybackSource, PlaybackState, SessionLink};
use palantir::registry::{JoinError, RoomManager};
use palantir::room::{RoomRequest, UserRole};
use palantir::session::Session;
use palantir::session_msgs::SessionMsg;

fn session(name: &str, can_host: bool) -> Session {
    Session::new(
        name.to_string(),
        ApiPermissions { connect: true, host: can_host },
    )
}

fn state_sent_to(deliveries: &[palantir::session_msgs::Delivery], target: SessionId)
    -> Option<palantir::room::RoomState>
{
    deliveries
        .iter()
        .rev()
        .find_map(|d| match (&d.msg, d.target == target) {
            (SessionMsg::RoomState(s), true) => Some(s.clone()),
            _ => None,
        })
}

#[test]
fn creator_becomes_host_and_state_lists_one_user() {
    // The grant-with-host-cap flow: a permitted login creates a room and
    // the first state broadcast lists one Host named after the creator.
    let mut mgr = RoomManager::new();
    let mut a = session("u", true);
    let step = a.create_room(&mut mgr, "r".to_string(), "p".to_string());
    assert!(matches!(step.replies.as_slice(), [MessageBody::RoomCreateAckV1]));
    let state = state_sent_to(&step.deliveries, a.id).expect("state broadcast");
    assert_eq!(state.users.len(), 1);
    assert_eq!(state.users[0].name, "u");
    assert_eq!(state.users[0].role, UserRole::Host);
    assert_eq!(state.password, "p");
}

#[test]
fn create_without_host_capability_is_refused() {
    let mut mgr = RoomManager::new();
    let mut a = session("nohost", false);
    let step = a.create_room(&mut mgr, "r".to_string(), String::new());
    match step.replies.as_slice() {
        [MessageBody::ConnectionClientErrorV1(e)] => {
            assert_eq!(e.message, "Your account is not permitted to host rooms");
        }
        other => panic!("unexpected replies: {other:?}"),
    }
    assert!(a.room.is_none());
}

#[test]
fn wrong_password_is_rejected_and_membership_unchanged() {
    // Session A creates a room with password "x"; B joining with "y" is
    // told the password is wrong and the membership stays as it was.
    let mut mgr = RoomManager::new();
    let mut a = session("a", true);
    let created = a.create_room(&mut mgr, "r".to_string(), "x".to_string());
    assert!(matches!(created.replies.last(), Some(MessageBody::RoomCreateAckV1)));
    let room_id = a.room.expect("membership").id;

    let mut b = session("b", true);
    let step = b.join_room(&mut mgr, room_id, "y".to_string());
    match step.replies.as_slice() {
        [MessageBody::ConnectionClientErrorV1(e)] => {
            assert_eq!(e.message, "Incorrect password");
        }
        other => panic!("unexpected replies: {other:?}"),
    }
    assert!(b.room.is_none());

    let refresh = a.request_state(&mut mgr);
    let state = state_sent_to(&refresh.deliveries, a.id).expect("state broadcast");
    assert_eq!(state.users.len(), 1);
}

#[test]
fn empty_password_succeeds_iff_room_password_empty() {
    let mut mgr = RoomManager::new();
    let mut open_host = session("open", true);
    open_host.create_room(&mut mgr, "open_room".to_string(), String::new());
    let open_id = open_host.room.unwrap().id;

    let mut locked_host = session("locked", true);
    locked_host.create_room(&mut mgr, "locked_room".to_string(), "secret".to_string());
    let locked_id = locked_host.room.unwrap().id;

    let mut guest = session("guest", true);
    let ok = guest.join_room(&mut mgr, open_id, String::new());
    assert!(matches!(ok.replies.last(), Some(MessageBody::RoomJoinAckV1)));

    let mut guest2 = session("guest2", true);
    let refused = guest2.join_room(&mut mgr, locked_id, String::new());
    match refused.replies.as_slice() {
        [MessageBody::ConnectionClientErrorV1(e)] => {
            assert_eq!(e.message, "Incorrect password");
        }
        other => panic!("unexpected replies: {other:?}"),
    }
}

#[test]
fn host_succession_promotes_the_guest() {
    // A creates, B joins as Guest, A leaves: B must see itself as Host.
    let mut mgr = RoomManager::new();
    let mut a = session("a", true);
    a.create_room(&mut mgr, "r".to_string(), String::new());
    let room_id = a.room.unwrap().id;

    let mut b = session("b", true);
    b.join_room(&mut mgr, room_id, String::new());

    let step = a.leave_room(&mut mgr);
    let state = state_sent_to(&step.deliveries, b.id).expect("state broadcast");
    assert_eq!(state.users.len(), 1);
    assert_eq!(state.users[0].id, b.id);
    assert_eq!(state.users[0].role, UserRole::Host);
}

#[test]
fn last_leave_closes_the_room() {
    let mut mgr = RoomManager::new();
    let mut a = session("a", true);
    a.create_room(&mut mgr, "r".to_string(), String::new());
    let room_id = a.room.unwrap().id;

    let step = a.leave_room(&mut mgr);
    assert!(matches!(step.replies.as_slice(), [MessageBody::RoomLeaveAckV1]));
    assert!(a.room.is_none());

    // Nobody is left to broadcast to, and the registry reaped the
    // closed room: a new join cannot find it.
    let mut b = session("b", true);
    let refused = b.join_room(&mut mgr, room_id, String::new());
    match refused.replies.as_slice() {
        [MessageBody::ConnectionClientErrorV1(e)] => {
            assert_eq!(e.message, "Room does not exist");
        }
        other => panic!("unexpected replies: {other:?}"),
    }
}

#[test]
fn sync_rewrites_timestamps_into_each_recipients_clock() {
    // Host H runs +200 ms ahead, subscriber S runs 100 ms behind. A
    // report stamped 1_000_000 by H must reach S stamped 999_700.
    let mut mgr = RoomManager::new();
    let mut h = session("h", true);
    h.create_room(&mut mgr, "r".to_string(), String::new());
    let room_id = h.room.unwrap().id;
    let mut s = session("s", true);
    s.join_room(&mut mgr, room_id, String::new());

    h.record_time_offset(&mut mgr, 200);
    s.record_time_offset(&mut mgr, -100);

    h.host_playback(&mut mgr);
    h.playback_request(
        &mut mgr,
        PlaybackRequest::Start(PlaybackSource {
            title: "t".to_string(),
            page_href: "p".to_string(),
            frame_href: "f".to_string(),
            element_query: "q".to_string(),
        }),
    );
    s.connect_playback(&mut mgr);

    let step = h.playback_request(
        &mut mgr,
        PlaybackRequest::Sync(PlaybackState { timestamp: 1_000_000, playing: true, time_millis: 0 }),
    );
    let to_s = step
        .deliveries
        .iter()
        .find_map(|d| match (&d.msg, d.target == s.id) {
            (SessionMsg::PlaybackSync(state), true) => Some(*state),
            _ => None,
        })
        .expect("sync forwarded to subscriber");
    assert_eq!(to_s.timestamp, 999_700);
}

#[test]
fn hosting_again_supersedes_the_running_playback() {
    // Observers of the first playback are disconnected with the
    // superseded stop reason when the host requests hosting again.
    let mut mgr = RoomManager::new();
    let mut h = session("h", true);
    h.create_room(&mut mgr, "r".to_string(), String::new());
    let room_id = h.room.unwrap().id;
    let mut o = session("o", true);
    o.join_room(&mut mgr, room_id, String::new());

    h.host_playback(&mut mgr);
    h.playback_request(
        &mut mgr,
        PlaybackRequest::Start(PlaybackSource {
            title: "t".to_string(),
            page_href: "p".to_string(),
            frame_href: "f".to_string(),
            element_query: "q".to_string(),
        }),
    );
    o.connect_playback(&mut mgr);

    let step = h.host_playback(&mut mgr);
    assert!(step.deliveries.iter().any(|d| {
        d.target == o.id
            && matches!(
                d.msg,
                SessionMsg::PlaybackDisconnected(
                    palantir::playback::DisconnectReason::Stopped(
                        palantir::playback::StopReason::Superseded
                    )
                )
            )
    }));
}

#[test]
fn stop_twice_is_stop_once() {
    // The second stop changes nothing and notifies nobody.
    let mut pb = palantir::playback::Playback::new(SessionLink {
        id: SessionId { bits: 1 },
        name: "h".to_string(),
        time_offset: 0,
    });
    pb.start(PlaybackSource {
        title: "t".to_string(),
        page_href: "p".to_string(),
        frame_href: "f".to_string(),
        element_query: "q".to_string(),
    });
    let first = pb.stop(palantir::playback::StopReason::StoppedByHost);
    assert_eq!(first.len(), 1);
    let second = pb.stop(palantir::playback::StopReason::StoppedByHost);
    assert!(second.is_empty());
    assert!(!pb.running);
}

#[test]
fn broadcast_sends_the_same_state_to_every_member() {
    let mut mgr = RoomManager::new();
    let mut a = session("a", true);
    a.create_room(&mut mgr, "r".to_string(), String::new());
    let room_id = a.room.unwrap().id;
    let mut b = session("b", true);
    b.join_room(&mut mgr, room_id, String::new());

    let (fx, outcome) = mgr
        .room_request(room_id, RoomRequest::GetState)
        .expect("room exists");
    assert!(outcome.is_ok());
    let to_a = state_sent_to(&fx, a.id).expect("state for a");
    let to_b = state_sent_to(&fx, b.id).expect("state for b");
    assert_eq!(to_a, to_b);
}

#[test]
fn playback_errors_name_their_cause() {
    let mut mgr = RoomManager::new();
    let mut h = session("h", true);
    h.create_room(&mut mgr, "r".to_string(), String::new());
    let room_id = h.room.unwrap().id;
    let mut g = session("g", true);
    g.join_room(&mut mgr, room_id, String::new());

    // No playback yet.
    let step = g.connect_playback(&mut mgr);
    match step.replies.as_slice() {
        [MessageBody::ConnectionClientErrorV1(e)] => assert_eq!(e.message, "No active playback"),
        other => panic!("unexpected replies: {other:?}"),
    }

    h.host_playback(&mut mgr);

    // Not running yet: connecting is refused.
    let step = g.connect_playback(&mut mgr);
    match step.replies.as_slice() {
        [MessageBody::ConnectionClientErrorV1(e)] => assert_eq!(e.message, "No running playback"),
        other => panic!("unexpected replies: {other:?}"),
    }

    // Only the playback host may stop.
    h.playback_request(
        &mut mgr,
        PlaybackRequest::Start(PlaybackSource {
            title: "t".to_string(),
            page_href: "p".to_string(),
            frame_href: "f".to_string(),
            element_query: "q".to_string(),
        }),
    );
    g.connect_playback(&mut mgr);
    let step = g.playback_request(
        &mut mgr,
        PlaybackRequest::Stop(palantir::playback::StopReason::StoppedByHost),
    );
    match step.replies.as_slice() {
        [MessageBody::ConnectionClientErrorV1(e)] => {
            assert_eq!(e.message, "Only the playback host can control playback");
        }
        other => panic!("unexpected replies: {other:?}"),
    }

    // The playback host cannot subscribe to its own playback.
    let step = h.connect_playback(&mut mgr);
    match step.replies.as_slice() {
        [MessageBody::ConnectionClientErrorV1(e)] => {
            assert_eq!(e.message, "The playback host can't connect to their own playback");
        }
        other => panic!("unexpected replies: {other:?}"),
    }
}

#[test]
fn spectators_cannot_kick_or_close() {
    let mut mgr = RoomManager::new();
    let mut a = session("a", true);
    a.create_room(&mut mgr, "r".to_string(), String::new());
    let room_id = a.room.unwrap().id;
    let mut b = session("b", true);
    b.join_room(&mut mgr, room_id, String::new());
    a.set_user_role(&mut mgr, b.id, UserRole::Spectator);
    // Track the demotion in b's own membership for the permission gate.
    let membership = b.room.expect("b is a member");
    b.room = Some(palantir::session::RoomMembership { id: membership.id, role: UserRole::Spectator });

    let step = b.kick(&mut mgr, a.id);
    match step.replies.as_slice() {
        [MessageBody::ConnectionClientErrorV1(e)] => {
            assert_eq!(e.message, "Not authorized to kick users");
        }
        other => panic!("unexpected replies: {other:?}"),
    }

    let step = b.close_room(&mut mgr);
    match step.replies.as_slice() {
        [MessageBody::ConnectionClientErrorV1(e)] => {
            assert_eq!(e.message, "Not authorized to close the room");
        }
        other => panic!("unexpected replies: {other:?}"),
    }
}

#[test]
fn leaving_playback_host_ends_the_playback() {
    // The playback linkage invariant: when the playback host leaves the
    // room, the playback goes with it.
    let mut mgr = RoomManager::new();
    let mut h = session("h", true);
    h.create_room(&mut mgr, "r".to_string(), String::new());
    let room_id = h.room.unwrap().id;
    let mut g = session("g", true);
    g.join_room(&mut mgr, room_id, String::new());
    g.host_playback(&mut mgr);
    let step = g.leave_room(&mut mgr);
    let state = state_sent_to(&step.deliveries, h.id).expect("state broadcast");
    assert!(state.playback_info.is_none());
}

#[test]
fn duplicate_join_is_rejected() {
    let mut mgr = RoomManager::new();
    let mut a = session("a", true);
    a.create_room(&mut mgr, "r".to_string(), String::new());
    let room_id = a.room.unwrap().id;

    let link = SessionLink { id: a.id, name: "a".to_string(), time_offset: 0 };
    match mgr.join_room(room_id, &String::new(), link) {
        Err(JoinError::Room(e)) => assert_eq!(e.describe(), "Already joined this room"),
        other => panic!("unexpected outcome: {other:?}"),
    }
}
