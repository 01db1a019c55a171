use palantir::ids::RoomId;
use palantir::messages::{MessageBody, RoomDisconnectedReasonV1};
use palantir::playback::PlaybackState;
use palantir::room::{RoomCloseReason, UserRole};
use palantir::session::{RoomMembership, Session};
use palantir::session_msgs::SessionMsg;

#[test]
fn role_permissions_follow_the_tier_table() {
    let host = UserRole::Host.permissions();
    assert!(host.can_host && host.can_set_roles && host.can_kick && host.can_close);

    let guest = UserRole::Guest.permissions();
    assert!(guest.can_host);
    assert!(!guest.can_set_roles && !guest.can_kick && !guest.can_close);

    let spectator = UserRole::Spectator.permissions();
    assert!(
        !spectator.can_host
            && !spectator.can_set_roles
            && !spectator.can_kick
            && !spectator.can_close
    );
}

#[test]
fn room_closed_message_ends_the_membership() {
    let mut s = Session::new(
        "u".to_string(),
        palantir::api_access::ApiPermissions { connect: true, host: true },
    );
    s.room = Some(RoomMembership { id: RoomId { bits: 9 }, role: UserRole::Guest });

    let body = s.handle_session_msg(SessionMsg::RoomClosed(RoomCloseReason::ClosedByHost));
    match body {
        MessageBody::RoomDisconnectedV1(b) => {
            assert_eq!(b.reason, RoomDisconnectedReasonV1::ClosedByHost);
        }
        other => panic!("unexpected body: {other:?}"),
    }
    assert!(s.room.is_none());
}

#[test]
fn timestamp_shifts_saturate_at_the_clock_bounds() {
    let state = PlaybackState { timestamp: 10, playing: false, time_millis: 0 };
    // Normalizing against a far-ahead reporter clamps at zero.
    assert_eq!(state.normalize_offset(1_000).timestamp, 0);
    // Re-expressing for a far-ahead recipient clamps at the top.
    let state = PlaybackState { timestamp: u64::MAX - 1, playing: false, time_millis: 0 };
    assert_eq!(state.incorporate_offset(1_000).timestamp, u64::MAX);
    // The offset of a far-behind reporter moves the stamp forward.
    let state = PlaybackState { timestamp: 100, playing: true, time_millis: 7 };
    let shifted = state.normalize_offset(-50);
    assert_eq!(shifted.timestamp, 150);
    assert!(shifted.playing);
    assert_eq!(shifted.time_millis, 7);
}
