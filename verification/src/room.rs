//! The room: membership, role policy, host succession, broadcasts, and
//! the one optional playback it coordinates.
//!
//! A room is a single-writer state machine. Every operation is a pure
//! step returning the deliveries to make; each step has a spec-level twin
//! and the executable method is proved to implement it.

use vstd::prelude::*;

use crate::ids::{RoomId, SessionId};
use crate::messages::{RoomStateMsgBodyV1, RoomStateView, RoomUserRoleV1, RoomUserV1, RoomUserView};
use crate::playback::{
    has_link, link_idx, links_view, spec_disconnect, spec_new_playback, spec_stop, spec_connect,
    spec_handle_request as spec_playback_handle, lemma_link_idx, Playback, PlaybackError,
    PlaybackInfo, PlaybackInfoV, PlaybackRequest, PlaybackV, SessionLink, SessionLinkV, StopReason,
};
use crate::session_msgs::{deliveries_view, Delivery, DeliveryV, SessionMsg, SessionMsgV};

verus! {

// ---------------------------------------------------------------------
// Roles and permissions
// ---------------------------------------------------------------------

/// The three role tiers of a room member.
#[derive(Debug, Clone, Copy, PartialEq, Eq, Structural)]
pub enum UserRole {
    Host,
    Guest,
    Spectator,
}

/// What a role may do inside its room.
#[derive(Debug, Clone, Copy, PartialEq, Eq, Structural, Default)]
pub struct UserPermissions {
    pub can_host: bool,
    pub can_set_roles: bool,
    pub can_kick: bool,
    pub can_close: bool,
}

/// The fixed permission set of each role: a Host may do everything, a
/// Guest may only host playbacks, a Spectator nothing.
pub open spec fn spec_role_permissions(role: UserRole) -> UserPermissions {
    match role {
        UserRole::Host => UserPermissions {
            can_host: true,
            can_set_roles: true,
            can_kick: true,
            can_close: true,
        },
        UserRole::Guest => UserPermissions {
            can_host: true,
            can_set_roles: false,
            can_kick: false,
            can_close: false,
        },
        UserRole::Spectator => UserPermissions {
            can_host: false,
            can_set_roles: false,
            can_kick: false,
            can_close: false,
        },
    }
}

impl UserRole {
    pub fn permissions(self) -> (p: UserPermissions)
        ensures
            p == spec_role_permissions(self),
    {
        match self {
            UserRole::Host => UserPermissions {
                can_host: true,
                can_set_roles: true,
                can_kick: true,
                can_close: true,
            },
            UserRole::Guest => UserPermissions {
                can_host: true,
                can_set_roles: false,
                can_kick: false,
                can_close: false,
            },
            UserRole::Spectator => UserPermissions {
                can_host: false,
                can_set_roles: false,
                can_kick: false,
                can_close: false,
            },
        }
    }

    pub fn to_wire(self) -> (r: RoomUserRoleV1)
        ensures
            r == spec_role_to_wire(self),
    {
        match self {
            UserRole::Host => RoomUserRoleV1::Host,
            UserRole::Guest => RoomUserRoleV1::Guest,
            UserRole::Spectator => RoomUserRoleV1::Spectator,
        }
    }

    pub fn from_wire(wire: RoomUserRoleV1) -> (r: Self)
        ensures
            spec_role_to_wire(r) == wire,
    {
        match wire {
            RoomUserRoleV1::Host => UserRole::Host,
            RoomUserRoleV1::Guest => UserRole::Guest,
            RoomUserRoleV1::Spectator => UserRole::Spectator,
        }
    }
}

pub open spec fn spec_role_to_wire(role: UserRole) -> RoomUserRoleV1 {
    match role {
        UserRole::Host => RoomUserRoleV1::Host,
        UserRole::Guest => RoomUserRoleV1::Guest,
        UserRole::Spectator => RoomUserRoleV1::Spectator,
    }
}

/// Why a room ended.
#[derive(Debug, Clone, Copy, PartialEq, Eq, Structural)]
pub enum RoomCloseReason {
    ClosedByHost,
    ServerError,
}

// ---------------------------------------------------------------------
// Members and snapshots
// ---------------------------------------------------------------------

/// One member: its role and the link to its session.
#[derive(Debug, Clone, PartialEq, Eq)]
pub struct User {
    pub role: UserRole,
    pub session: SessionLink,
}

/// The mathematical content of a `User`.
pub struct UserV {
    pub role: UserRole,
    pub session: SessionLinkV,
}

impl View for User {
    type V = UserV;

    open spec fn view(&self) -> UserV {
        UserV { role: self.role, session: self.session@ }
    }
}

pub open spec fn members_view(s: Seq<User>) -> Seq<UserV> {
    Seq::new(s.len(), |i: int| s[i]@)
}

/// One member as shown in a room snapshot.
#[derive(Debug, Clone, PartialEq, Eq)]
pub struct UserData {
    pub id: SessionId,
    pub name: String,
    pub role: UserRole,
}

/// The mathematical content of a `UserData`.
pub struct UserDataV {
    pub id: SessionId,
    pub name: Seq<char>,
    pub role: UserRole,
}

impl View for UserData {
    type V = UserDataV;

    open spec fn view(&self) -> UserDataV {
        UserDataV { id: self.id, name: self.name@, role: self.role }
    }
}

impl UserData {
    pub fn duplicate(&self) -> (r: Self)
        ensures
            r@ == self@,
    {
        UserData { id: self.id, name: self.name.clone(), role: self.role }
    }

    pub fn to_wire(&self) -> (r: RoomUserV1)
        ensures
            r@ == spec_user_data_to_wire(self@),
    {
        RoomUserV1 { id: self.id, name: self.name.clone(), role: self.role.to_wire() }
    }
}

pub open spec fn spec_user_data_to_wire(u: UserDataV) -> RoomUserView {
    RoomUserView { id: u.id, name: u.name, role: spec_role_to_wire(u.role) }
}

/// The immutable snapshot of a room that broadcasts carry.
#[derive(Debug, Clone, PartialEq, Eq)]
pub struct RoomState {
    pub id: RoomId,
    pub name: String,
    pub password: String,
    pub playback_info: Option<PlaybackInfo>,
    pub users: Vec<UserData>,
}

/// The mathematical content of a `RoomState`.
pub struct RoomStateV {
    pub id: RoomId,
    pub name: Seq<char>,
    pub password: Seq<char>,
    pub playback_info: Option<PlaybackInfoV>,
    pub users: Seq<UserDataV>,
}

pub open spec fn opt_pb_info_view(s: Option<PlaybackInfo>) -> Option<PlaybackInfoV> {
    match s {
        None => None,
        Some(info) => Some(info@),
    }
}

pub open spec fn user_datas_view(s: Seq<UserData>) -> Seq<UserDataV> {
    Seq::new(s.len(), |i: int| s[i]@)
}

impl View for RoomState {
    type V = RoomStateV;

    open spec fn view(&self) -> RoomStateV {
        RoomStateV {
            id: self.id,
            name: self.name@,
            password: self.password@,
            playback_info: opt_pb_info_view(self.playback_info),
            users: user_datas_view(self.users@),
        }
    }
}

pub open spec fn spec_state_to_wire(s: RoomStateV) -> RoomStateView {
    RoomStateView {
        id: s.id,
        name: s.name,
        password: s.password,
        users: Seq::new(s.users.len(), |i: int| spec_user_data_to_wire(s.users[i])),
        playback_info: s.playback_info,
    }
}

impl RoomState {
    pub fn duplicate(&self) -> (r: Self)
        ensures
            r@ == self@,
    {
        let playback_info = match &self.playback_info {
            None => None,
            Some(info) => Some(info.duplicate()),
        };
        let mut users: Vec<UserData> = Vec::new();
        let n = self.users.len();
        let mut i: usize = 0;
        while i < n
            invariant
                n == self.users@.len(),
                i <= n,
                user_datas_view(users@) =~= user_datas_view(self.users@).take(i as int),
            decreases n - i,
        {
            let u = self.users[i].duplicate();
            proof {
                assert(user_datas_view(users@.push(u))
                    =~= user_datas_view(users@) + seq![u@]);
                assert(user_datas_view(users@) + seq![u@]
                    =~= user_datas_view(self.users@).take(i + 1));
            }
            users.push(u);
            i = i + 1;
        }
        proof {
            assert(user_datas_view(self.users@).take(n as int) =~= user_datas_view(self.users@));
        }
        let r = RoomState {
            id: self.id,
            name: self.name.clone(),
            password: self.password.clone(),
            playback_info,
            users,
        };
        r
    }

    pub fn to_wire(&self) -> (r: RoomStateMsgBodyV1)
        ensures
            r@ == spec_state_to_wire(self@),
    {
        let mut users: Vec<RoomUserV1> = Vec::new();
        let n = self.users.len();
        let mut i: usize = 0;
        while i < n
            invariant
                n == self.users@.len(),
                i <= n,
                crate::messages::users_view(users@)
                    =~= spec_state_to_wire(self@).users.take(i as int),
            decreases n - i,
        {
            let u = self.users[i].to_wire();
            proof {
                assert(crate::messages::users_view(users@.push(u))
                    =~= crate::messages::users_view(users@) + seq![u@]);
                assert(crate::messages::users_view(users@) + seq![u@]
                    =~= spec_state_to_wire(self@).users.take(i + 1));
            }
            users.push(u);
            i = i + 1;
        }
        proof {
            assert(spec_state_to_wire(self@).users.take(n as int) =~= spec_state_to_wire(self@).users);
        }
        let playback_info = match &self.playback_info {
            None => None,
            Some(info) => Some(info.to_wire()),
        };
        RoomStateMsgBodyV1 {
            id: self.id,
            name: self.name.clone(),
            password: self.password.clone(),
            users,
            playback_info,
        }
    }
}

// ---------------------------------------------------------------------
// Requests and errors
// ---------------------------------------------------------------------

/// One request from a session to its room.
#[derive(Debug, Clone, PartialEq, Eq)]
pub enum RoomRequest {
    GetState,
    SetRole(SessionId, UserRole),
    Leave(SessionId),
    UpdateTimeOffset(SessionId, i64),
    PlaybackHost(SessionId),
    PlaybackConnect(SessionId),
    Playback(SessionId, PlaybackRequest),
}

/// Why a room request was refused.
#[derive(Debug, Clone, Copy, PartialEq, Eq, Structural)]
pub enum RoomError {
    AlreadyJoined,
    UnknownUser,
    NoPlayback,
    Playback(PlaybackError),
}

/// The wording of each refusal.
pub open spec fn spec_room_error_text(e: RoomError) -> Seq<char> {
    match e {
        RoomError::AlreadyJoined => "Already joined this room"@,
        RoomError::UnknownUser => "Unknown user"@,
        RoomError::NoPlayback => "No active playback"@,
        RoomError::Playback(pe) => crate::playback::spec_playback_error_text(pe),
    }
}

impl RoomError {
    /// The wording reported to the requesting peer.
    pub fn describe(&self) -> (r: String)
        ensures
            r@ == spec_room_error_text(*self),
    {
        match self {
            RoomError::AlreadyJoined => "Already joined this room".to_owned(),
            RoomError::UnknownUser => "Unknown user".to_owned(),
            RoomError::NoPlayback => "No active playback".to_owned(),
            RoomError::Playback(e) => e.describe(),
        }
    }
}

// ---------------------------------------------------------------------
// Membership helpers
// ---------------------------------------------------------------------

/// Whether some member of `s` belongs to session `id`.
pub open spec fn has_member(s: Seq<UserV>, id: SessionId) -> bool {
    exists|i: int| 0 <= i < s.len() && s[i].session.id == id
}

/// The first position in `s` whose member belongs to session `id`.
pub open spec fn member_idx(s: Seq<UserV>, id: SessionId) -> int
    decreases s.len(),
{
    if s.len() == 0 {
        0
    } else if s[0].session.id == id {
        0
    } else {
        1 + member_idx(s.drop_first(), id)
    }
}

/// `member_idx` finds the first matching position.
pub proof fn lemma_member_idx(s: Seq<UserV>, id: SessionId)
    requires
        has_member(s, id),
    ensures
        0 <= member_idx(s, id) < s.len(),
        s[member_idx(s, id)].session.id == id,
        forall|j: int| 0 <= j < member_idx(s, id) ==> s[j].session.id != id,
    decreases s.len(),
{
    if s.len() > 0 && s[0].session.id != id {
        assert(has_member(s.drop_first(), id)) by {
            let i = choose|i: int| 0 <= i < s.len() && s[i].session.id == id;
            assert(s.drop_first()[i - 1].session.id == id);
        }
        lemma_member_idx(s.drop_first(), id);
        let k = member_idx(s, id);
        assert(k == 1 + member_idx(s.drop_first(), id));
        assert forall|j: int| 0 <= j < k implies s[j].session.id != id by {
            if j > 0 {
                assert(s.drop_first()[j - 1] == s[j]);
                assert(s.drop_first()[j - 1].session.id != id);
            }
        }
    }
}

/// Whether any member of `s` holds the Host role.
pub open spec fn members_have_host(s: Seq<UserV>) -> bool {
    exists|i: int| 0 <= i < s.len() && s[i].role is Host
}

pub open spec fn has_non_spectator(s: Seq<UserV>) -> bool {
    exists|i: int| 0 <= i < s.len() && !(s[i].role is Spectator)
}

/// The first position of a member that is not a Spectator.
pub open spec fn first_non_spectator(s: Seq<UserV>) -> int
    decreases s.len(),
{
    if s.len() == 0 {
        0
    } else if !(s[0].role is Spectator) {
        0
    } else {
        1 + first_non_spectator(s.drop_first())
    }
}

pub proof fn lemma_first_non_spectator(s: Seq<UserV>)
    requires
        has_non_spectator(s),
    ensures
        0 <= first_non_spectator(s) < s.len(),
        !(s[first_non_spectator(s)].role is Spectator),
        forall|j: int| 0 <= j < first_non_spectator(s) ==> s[j].role is Spectator,
    decreases s.len(),
{
    if s.len() > 0 && s[0].role is Spectator {
        assert(has_non_spectator(s.drop_first())) by {
            let i = choose|i: int| 0 <= i < s.len() && !(s[i].role is Spectator);
            assert(!(s.drop_first()[i - 1].role is Spectator));
        }
        lemma_first_non_spectator(s.drop_first());
        let k = first_non_spectator(s);
        assert(k == 1 + first_non_spectator(s.drop_first()));
        assert forall|j: int| 0 <= j < k implies s[j].role is Spectator by {
            if j > 0 {
                assert(s.drop_first()[j - 1] == s[j]);
            }
        }
    }
}

/// Whom host succession promotes: the first Guest (or Host) in member
/// order, else the first member.
pub open spec fn succession_idx(s: Seq<UserV>) -> int {
    if has_non_spectator(s) {
        first_non_spectator(s)
    } else {
        0
    }
}

// ---------------------------------------------------------------------
// The room and its spec twins
// ---------------------------------------------------------------------

/// One room: membership, the close flag, and at most one playback.
#[derive(Debug, Clone, PartialEq, Eq)]
pub struct Room {
    pub id: RoomId,
    pub running: bool,
    pub name: String,
    pub password: String,
    pub users: Vec<User>,
    pub playback: Option<Playback>,
}

/// The mathematical content of a `Room`.
pub struct RoomV {
    pub id: RoomId,
    pub running: bool,
    pub name: Seq<char>,
    pub password: Seq<char>,
    pub users: Seq<UserV>,
    pub playback: Option<PlaybackV>,
}

pub open spec fn opt_playback_view(p: Option<Playback>) -> Option<PlaybackV> {
    match p {
        None => None,
        Some(pb) => Some(pb@),
    }
}

impl View for Room {
    type V = RoomV;

    open spec fn view(&self) -> RoomV {
        RoomV {
            id: self.id,
            running: self.running,
            name: self.name@,
            password: self.password@,
            users: members_view(self.users@),
            playback: opt_playback_view(self.playback),
        }
    }
}

impl RoomV {
    /// Members are pairwise distinct sessions, and a playback, if any,
    /// is well-formed and built from members only: its host is a member
    /// and each subscriber is a member.
    pub open spec fn wf(self) -> bool {
        &&& forall|i: int, j: int|
            0 <= i < j < self.users.len() ==> self.users[i].session.id != self.users[j].session.id
        &&& match self.playback {
            None => true,
            Some(pb) => {
                &&& pb.wf()
                &&& has_member(self.users, pb.host.id)
                &&& forall|i: int|
                    0 <= i < pb.subscribers.len() ==> has_member(
                        self.users,
                        pb.subscribers[i].id,
                    )
            },
        }
    }

    /// A running, inhabited room has a Host among its members.
    pub open spec fn host_ok(self) -> bool {
        self.running && self.users.len() > 0 ==> members_have_host(self.users)
    }

    /// The snapshot that broadcasts carry.
    pub open spec fn state(self) -> RoomStateV {
        RoomStateV {
            id: self.id,
            name: self.name,
            password: self.password,
            playback_info: match self.playback {
                None => None,
                Some(pb) => Some(pb.info()),
            },
            users: Seq::new(self.users.len(), |i: int| UserDataV {
                id: self.users[i].session.id,
                name: self.users[i].session.name,
                role: self.users[i].role,
            }),
        }
    }
}

/// One delivery of `msg` to every member, in member order.
pub open spec fn spec_broadcast(r: RoomV, msg: SessionMsgV) -> Seq<DeliveryV> {
    Seq::new(r.users.len(), |i: int| DeliveryV { target: r.users[i].session.id, msg })
}

/// A state broadcast: every member receives the same snapshot.
pub open spec fn spec_broadcast_state(r: RoomV) -> Seq<DeliveryV> {
    spec_broadcast(r, SessionMsgV::RoomState(r.state()))
}

/// Join: rejects a session that is already a member, otherwise adds the
/// member and broadcasts the new state.
pub open spec fn spec_join(r: RoomV, role: UserRole, session: SessionLinkV) -> Result<
    (RoomV, Seq<DeliveryV>),
    RoomError,
> {
    if has_member(r.users, session.id) {
        Err(RoomError::AlreadyJoined)
    } else {
        let r2 = RoomV { users: r.users.push(UserV { role, session }), ..r };
        Ok((r2, spec_broadcast_state(r2)))
    }
}

/// SetRole: updates the member's role and broadcasts; unknown sessions
/// are ignored.
pub open spec fn spec_set_role(r: RoomV, role: UserRole, id: SessionId) -> (RoomV, Seq<DeliveryV>) {
    if !has_member(r.users, id) {
        (r, Seq::empty())
    } else {
        let k = member_idx(r.users, id);
        let r2 = RoomV {
            users: r.users.update(k, UserV { role, session: r.users[k].session }),
            ..r
        };
        (r2, spec_broadcast_state(r2))
    }
}

/// Close: the room stops running and every member is told why.
pub open spec fn spec_close(r: RoomV, reason: RoomCloseReason) -> (RoomV, Seq<DeliveryV>) {
    (RoomV { running: false, ..r }, spec_broadcast(r, SessionMsgV::RoomClosed(reason)))
}

/// How a leave settles the room's playback: a departing playback host
/// ends the playback, a departing subscriber is dropped from it.
pub open spec fn spec_leave_playback(p: Option<PlaybackV>, id: SessionId) -> (
    Option<PlaybackV>,
    Seq<DeliveryV>,
) {
    match p {
        None => (None, Seq::empty()),
        Some(pb) => if pb.host.id == id {
            (None, spec_stop(pb, StopReason::HostError).1)
        } else {
            let step = spec_disconnect(pb, id, crate::playback::DisconnectReason::User);
            (Some(step.0), step.1)
        },
    }
}

/// Leave: removes the member; the last leave closes the room, a leave
/// that removes the last Host promotes a successor (the first Guest, or
/// failing that the first member) and broadcasts, and every leave of a
/// member broadcasts the new state.
pub open spec fn spec_leave(r: RoomV, id: SessionId) -> (RoomV, Seq<DeliveryV>) {
    if !has_member(r.users, id) {
        (r, Seq::empty())
    } else {
        let pbstep = spec_leave_playback(r.playback, id);
        let users2 = r.users.remove(member_idx(r.users, id));
        let r1 = RoomV { users: users2, playback: pbstep.0, ..r };
        if users2.len() == 0 {
            let closed = spec_close(r1, RoomCloseReason::ClosedByHost);
            (closed.0, pbstep.1 + closed.1)
        } else if !members_have_host(users2) {
            let j = succession_idx(users2);
            let users3 = users2.update(j, UserV { role: UserRole::Host, session: users2[j].session });
            let r2 = RoomV { users: users3, ..r1 };
            (r2, pbstep.1 + spec_broadcast_state(r2) + spec_broadcast_state(r2))
        } else {
            (r1, pbstep.1 + spec_broadcast_state(r1))
        }
    }
}

/// Hosting a playback: any member may become playback host; a playback
/// already present is superseded first.
pub open spec fn spec_host_playback(r: RoomV, id: SessionId) -> Result<
    (RoomV, Seq<DeliveryV>),
    RoomError,
> {
    if !has_member(r.users, id) {
        Err(RoomError::UnknownUser)
    } else {
        let stopfx = match r.playback {
            None => Seq::<DeliveryV>::empty(),
            Some(pb) => spec_stop(pb, StopReason::Superseded).1,
        };
        let link = r.users[member_idx(r.users, id)].session;
        let r2 = RoomV { playback: Some(spec_new_playback(link)), ..r };
        Ok((r2, stopfx + seq![DeliveryV { target: id, msg: SessionMsgV::PlaybackHosting }]))
    }
}

/// Connecting a member to the playback's sync channel.
pub open spec fn spec_connect_playback(r: RoomV, id: SessionId) -> Result<
    (RoomV, Seq<DeliveryV>),
    RoomError,
> {
    match r.playback {
        None => Err(RoomError::NoPlayback),
        Some(pb) => if !has_member(r.users, id) {
            Err(RoomError::UnknownUser)
        } else {
            match spec_connect(pb, r.users[member_idx(r.users, id)].session) {
                Err(e) => Err(RoomError::Playback(e)),
                Ok(step) => Ok((RoomV { playback: Some(step.0), ..r }, step.1)),
            }
        },
    }
}

/// A playback request forwarded to the coordinator.
pub open spec fn spec_playback_request(r: RoomV, id: SessionId, request: PlaybackRequest) -> Result<
    (RoomV, Seq<DeliveryV>),
    RoomError,
> {
    match r.playback {
        None => Err(RoomError::NoPlayback),
        Some(pb) => match spec_playback_handle(pb, id, request) {
            Err(e) => Err(RoomError::Playback(e)),
            Ok(step) => Ok((RoomV { playback: Some(step.0), ..r }, step.1)),
        },
    }
}

/// A link with its clock offset refreshed, when it belongs to `id`.
pub open spec fn spec_refresh_link(l: SessionLinkV, id: SessionId, offset: i64) -> SessionLinkV {
    if l.id == id {
        SessionLinkV { time_offset: offset, ..l }
    } else {
        l
    }
}

/// The room after session `id` reports a fresh clock offset: the member
/// link and any playback link of that session carry the new offset.
pub open spec fn spec_update_offset(r: RoomV, id: SessionId, offset: i64) -> RoomV {
    let users2 = if has_member(r.users, id) {
        let k = member_idx(r.users, id);
        r.users.update(k, UserV {
            role: r.users[k].role,
            session: spec_refresh_link(r.users[k].session, id, offset),
        })
    } else {
        r.users
    };
    let playback2 = match r.playback {
        None => None,
        Some(pb) => Some(crate::playback::spec_refresh_offset(pb, id, offset)),
    };
    RoomV { users: users2, playback: playback2, ..r }
}

impl Room {
    /// A fresh, running, empty room.
    pub fn new(name: String, password: String) -> (r: Self)
        ensures
            r@.running,
            r@.name == name@,
            r@.password == password@,
            r@.users == Seq::<UserV>::empty(),
            r@.playback is None,
            r@.wf(),
    {
        let r = Room {
            id: RoomId::fresh(),
            running: true,
            name,
            password,
            users: Vec::new(),
            playback: None,
        };
        proof {
            assert(members_view(r.users@) =~= Seq::<UserV>::empty());
        }
        r
    }

    /// The position of the member of session `id`, if any.
    fn find_user(&self, id: SessionId) -> (r: Option<usize>)
        ensures
            match r {
                Some(i) => has_member(self@.users, id) && i == member_idx(self@.users, id)
                    && i < self.users@.len(),
                None => !has_member(self@.users, id),
            },
    {
        let ghost mv = self@.users;
        let n = self.users.len();
        let mut i: usize = 0;
        while i < n
            invariant
                n == self.users@.len(),
                mv == self@.users,
                mv.len() == n,
                i <= n,
                forall|j: int| 0 <= j < i ==> mv[j].session.id != id,
            decreases n - i,
        {
            if self.users[i].session.id == id {
                proof {
                    assert(mv[i as int] == self.users@[i as int]@);
                    assert(mv[i as int].session.id == id);
                    assert(has_member(mv, id));
                    lemma_member_idx(mv, id);
                    let k = member_idx(mv, id);
                    assert(k >= i) by {
                        if k < i {
                            assert(mv[k].session.id != id);
                        }
                    }
                    assert(k <= i) by {
                        if k > i {
                            assert(mv[i as int].session.id != id);
                        }
                    }
                }
                return Some(i);
            }
            i = i + 1;
        }
        proof {
            if has_member(mv, id) {
                let w = choose|w: int| 0 <= w < mv.len() && mv[w].session.id == id;
                assert(mv[w].session.id != id);
            }
        }
        None
    }

    /// Whether any member currently holds the Host role.
    fn any_host(&self) -> (r: bool)
        ensures
            r == members_have_host(self@.users),
    {
        let ghost mv = self@.users;
        let n = self.users.len();
        let mut i: usize = 0;
        while i < n
            invariant
                n == self.users@.len(),
                mv == self@.users,
                mv.len() == n,
                i <= n,
                forall|j: int| 0 <= j < i ==> !(mv[j].role is Host),
            decreases n - i,
        {
            match self.users[i].role {
                UserRole::Host => {
                    proof {
                        assert(mv[i as int] == self.users@[i as int]@);
                        assert(mv[i as int].role is Host);
                    }
                    return true;
                },
                _ => (),
            }
            proof {
                assert(mv[i as int] == self.users@[i as int]@);
            }
            i = i + 1;
        }
        proof {
            if members_have_host(mv) {
                let w = choose|w: int| 0 <= w < mv.len() && mv[w].role is Host;
                assert(!(mv[w].role is Host));
            }
        }
        false
    }

    /// The member that host succession promotes.
    fn pick_successor(&self) -> (r: usize)
        requires
            self.users@.len() > 0,
        ensures
            r == succession_idx(self@.users),
            r < self.users@.len(),
    {
        let ghost mv = self@.users;
        let n = self.users.len();
        let mut i: usize = 0;
        while i < n
            invariant
                n == self.users@.len(),
                mv == self@.users,
                mv.len() == n,
                i <= n,
                forall|j: int| 0 <= j < i ==> mv[j].role is Spectator,
            decreases n - i,
        {
            let is_spectator = match self.users[i].role {
                UserRole::Spectator => true,
                _ => false,
            };
            proof {
                assert(mv[i as int] == self.users@[i as int]@);
            }
            if !is_spectator {
                proof {
                    assert(!(mv[i as int].role is Spectator));
                    assert(has_non_spectator(mv));
                    lemma_first_non_spectator(mv);
                    let k = first_non_spectator(mv);
                    assert(k >= i) by {
                        if k < i {
                            assert(mv[k].role is Spectator);
                        }
                    }
                    assert(k <= i) by {
                        if k > i {
                            assert(mv[i as int].role is Spectator);
                        }
                    }
                }
                return i;
            }
            i = i + 1;
        }
        proof {
            if has_non_spectator(mv) {
                let w = choose|w: int| 0 <= w < mv.len() && !(mv[w].role is Spectator);
                assert(mv[w].role is Spectator);
            }
        }
        0
    }

    /// The current snapshot.
    pub fn get_state(&self) -> (state: RoomState)
        ensures
            state@ == self@.state(),
    {
        let playback_info = match &self.playback {
            None => None,
            Some(pb) => Some(pb.get_info()),
        };
        let mut users: Vec<UserData> = Vec::new();
        let n = self.users.len();
        let mut i: usize = 0;
        while i < n
            invariant
                n == self.users@.len(),
                user_datas_view(users@) =~= self@.state().users.take(i as int),
                i <= n,
            decreases n - i,
        {
            let member = &self.users[i];
            let u = UserData {
                id: member.session.id,
                name: member.session.name.clone(),
                role: member.role,
            };
            proof {
                assert(members_view(self.users@)[i as int] == self.users@[i as int]@);
                assert(u@ == self@.state().users[i as int]);
                assert(user_datas_view(users@.push(u))
                    =~= user_datas_view(users@) + seq![u@]);
                assert(user_datas_view(users@) + seq![u@]
                    =~= self@.state().users.take(i + 1));
            }
            users.push(u);
            i = i + 1;
        }
        proof {
            assert(self@.state().users.take(n as int) =~= self@.state().users);
        }
        RoomState {
            id: self.id,
            name: self.name.clone(),
            password: self.password.clone(),
            playback_info,
            users,
        }
    }

    /// Builds one delivery of `msg`'s snapshot to every member.
    fn broadcast_state(&self) -> (fx: Vec<Delivery>)
        ensures
            deliveries_view(fx@) == spec_broadcast_state(self@),
    {
        let state = self.get_state();
        let mut fx: Vec<Delivery> = Vec::new();
        let n = self.users.len();
        let mut i: usize = 0;
        while i < n
            invariant
                n == self.users@.len(),
                state@ == self@.state(),
                deliveries_view(fx@) =~= spec_broadcast_state(self@).take(i as int),
                i <= n,
            decreases n - i,
        {
            let d = Delivery {
                target: self.users[i].session.id,
                msg: SessionMsg::RoomState(state.duplicate()),
            };
            proof {
                assert(members_view(self.users@)[i as int] == self.users@[i as int]@);
                assert(d@ == spec_broadcast_state(self@)[i as int]);
                assert(deliveries_view(fx@.push(d))
                    =~= deliveries_view(fx@) + seq![d@]);
                assert(deliveries_view(fx@) + seq![d@]
                    =~= spec_broadcast_state(self@).take(i + 1));
            }
            fx.push(d);
            i = i + 1;
        }
        proof {
            assert(spec_broadcast_state(self@).take(n as int) =~= spec_broadcast_state(self@));
        }
        fx
    }

    /// Builds one delivery of `RoomClosed(reason)` to every member.
    fn broadcast_closed(&self, reason: RoomCloseReason) -> (fx: Vec<Delivery>)
        ensures
            deliveries_view(fx@) == spec_broadcast(self@, SessionMsgV::RoomClosed(reason)),
    {
        let mut fx: Vec<Delivery> = Vec::new();
        let n = self.users.len();
        let mut i: usize = 0;
        while i < n
            invariant
                n == self.users@.len(),
                deliveries_view(fx@)
                    =~= spec_broadcast(self@, SessionMsgV::RoomClosed(reason)).take(i as int),
                i <= n,
            decreases n - i,
        {
            let d = Delivery {
                target: self.users[i].session.id,
                msg: SessionMsg::RoomClosed(reason),
            };
            proof {
                assert(members_view(self.users@)[i as int] == self.users@[i as int]@);
                assert(d@ == spec_broadcast(self@, SessionMsgV::RoomClosed(reason))[i as int]);
                assert(deliveries_view(fx@.push(d))
                    =~= deliveries_view(fx@) + seq![d@]);
                assert(deliveries_view(fx@) + seq![d@]
                    =~= spec_broadcast(self@, SessionMsgV::RoomClosed(reason)).take(i + 1));
            }
            fx.push(d);
            i = i + 1;
        }
        proof {
            assert(spec_broadcast(self@, SessionMsgV::RoomClosed(reason)).take(n as int)
                =~= spec_broadcast(self@, SessionMsgV::RoomClosed(reason)));
        }
        fx
    }

    /// Adds a member under the given role and broadcasts the new state.
    pub fn join(&mut self, role: UserRole, session: SessionLink) -> (r: Result<
        Vec<Delivery>,
        RoomError,
    >)
        ensures
            match r {
                Ok(fx) => spec_join(old(self)@, role, session@)
                    == Ok::<_, RoomError>((final(self)@, deliveries_view(fx@))),
                Err(e) => spec_join(old(self)@, role, session@)
                    == Err::<(RoomV, Seq<DeliveryV>), _>(e) && final(self)@ == old(self)@,
            },
    {
        let ghost r0 = self@;
        match self.find_user(session.id) {
            Some(_) => Err(RoomError::AlreadyJoined),
            None => {
                self.users.push(User { role, session });
                proof {
                    assert(members_view(self.users@)
                        =~= r0.users.push(members_view(self.users@).last()));
                }
                Ok(self.broadcast_state())
            },
        }
    }

    /// Updates a member's role and broadcasts; unknown sessions are
    /// ignored.
    pub fn set_role(&mut self, role: UserRole, session_id: SessionId) -> (fx: Vec<Delivery>)
        ensures
            (final(self)@, deliveries_view(fx@)) == spec_set_role(old(self)@, role, session_id),
    {
        let ghost r0 = self@;
        match self.find_user(session_id) {
            None => {
                let fx: Vec<Delivery> = Vec::new();
                proof {
                    assert(deliveries_view(fx@) =~= Seq::<DeliveryV>::empty());
                }
                fx
            },
            Some(i) => {
                let session = self.users[i].session.duplicate();
                self.users.set(i, User { role, session });
                proof {
                    let k = member_idx(r0.users, session_id);
                    assert(members_view(self.users@)
                        =~= r0.users.update(k, UserV { role, session: r0.users[k].session }));
                }
                self.broadcast_state()
            },
        }
    }

    /// Stops the room and tells every member why.
    pub fn close(&mut self, reason: RoomCloseReason) -> (fx: Vec<Delivery>)
        ensures
            (final(self)@, deliveries_view(fx@)) == spec_close(old(self)@, reason),
    {
        let fx = self.broadcast_closed(reason);
        self.running = false;
        fx
    }

    /// Removes a member; the last leave closes the room, and a leave
    /// that removes the last Host promotes a successor.
    pub fn leave(&mut self, session_id: SessionId) -> (fx: Vec<Delivery>)
        ensures
            (final(self)@, deliveries_view(fx@)) == spec_leave(old(self)@, session_id),
    {
        let ghost r0 = self@;
        let k = match self.find_user(session_id) {
            None => {
                let fx: Vec<Delivery> = Vec::new();
                proof {
                    assert(deliveries_view(fx@) =~= Seq::<DeliveryV>::empty());
                }
                return fx;
            },
            Some(k) => k,
        };
        let mut fx: Vec<Delivery> = Vec::new();
        let ghost pbstep = spec_leave_playback(r0.playback, session_id);
        let clear = match &mut self.playback {
            None => false,
            Some(pb) => {
                if pb.host.id == session_id {
                    let mut sfx = pb.stop(StopReason::HostError);
                    fx.append(&mut sfx);
                    true
                } else {
                    let mut dfx = pb.disconnect(
                        session_id,
                        crate::playback::DisconnectReason::User,
                    );
                    fx.append(&mut dfx);
                    false
                }
            },
        };
        if clear {
            self.playback = None;
        }
        proof {
            assert(opt_playback_view(self.playback) == pbstep.0);
            assert(deliveries_view(fx@) =~= pbstep.1);
        }
        self.users.remove(k);
        proof {
            assert(members_view(self.users@)
                =~= r0.users.remove(member_idx(r0.users, session_id)));
        }
        if self.users.len() == 0 {
            let mut cfx = self.close(RoomCloseReason::ClosedByHost);
            proof {
                assert(deliveries_view(fx@ + cfx@) =~= deliveries_view(fx@) + deliveries_view(cfx@));
            }
            fx.append(&mut cfx);
            return fx;
        }
        if !self.any_host() {
            let j = self.pick_successor();
            let session = self.users[j].session.duplicate();
            let ghost mid = members_view(self.users@);
            self.users.set(j, User { role: UserRole::Host, session });
            proof {
                assert(members_view(self.users@)
                    =~= mid.update(j as int, UserV { role: UserRole::Host, session: mid[j as int].session }));
            }
            let mut b1 = self.broadcast_state();
            proof {
                assert(deliveries_view(fx@ + b1@) =~= deliveries_view(fx@) + deliveries_view(b1@));
            }
            fx.append(&mut b1);
            let mut b2 = self.broadcast_state();
            proof {
                assert(deliveries_view(fx@ + b2@) =~= deliveries_view(fx@) + deliveries_view(b2@));
            }
            fx.append(&mut b2);
            fx
        } else {
            let mut b = self.broadcast_state();
            proof {
                assert(deliveries_view(fx@ + b@) =~= deliveries_view(fx@) + deliveries_view(b@));
            }
            fx.append(&mut b);
            fx
        }
    }

    /// Makes the member the playback host, superseding a playback
    /// already present.
    pub fn host_playback(&mut self, session_id: SessionId) -> (r: Result<Vec<Delivery>, RoomError>)
        ensures
            match r {
                Ok(fx) => spec_host_playback(old(self)@, session_id)
                    == Ok::<_, RoomError>((final(self)@, deliveries_view(fx@))),
                Err(e) => spec_host_playback(old(self)@, session_id)
                    == Err::<(RoomV, Seq<DeliveryV>), _>(e) && final(self)@ == old(self)@,
            },
    {
        let ghost r0 = self@;
        let k = match self.find_user(session_id) {
            None => {
                return Err(RoomError::UnknownUser);
            },
            Some(k) => k,
        };
        let mut fx: Vec<Delivery> = Vec::new();
        match &mut self.playback {
            None => (),
            Some(pb) => {
                let mut sfx = pb.stop(StopReason::Superseded);
                fx.append(&mut sfx);
            },
        }
        proof {
            assert(deliveries_view(fx@) =~= match r0.playback {
                None => Seq::<DeliveryV>::empty(),
                Some(pb) => spec_stop(pb, StopReason::Superseded).1,
            });
        }
        let link = self.users[k].session.duplicate();
        self.playback = Some(Playback::new(link));
        let d = Delivery { target: session_id, msg: SessionMsg::PlaybackHosting };
        proof {
            assert(deliveries_view(fx@.push(d)) =~= deliveries_view(fx@) + seq![d@]);
        }
        fx.push(d);
        Ok(fx)
    }

    /// Connects the member to the running playback's sync channel.
    pub fn connect_playback(&mut self, session_id: SessionId) -> (r: Result<
        Vec<Delivery>,
        RoomError,
    >)
        ensures
            match r {
                Ok(fx) => spec_connect_playback(old(self)@, session_id)
                    == Ok::<_, RoomError>((final(self)@, deliveries_view(fx@))),
                Err(e) => spec_connect_playback(old(self)@, session_id)
                    == Err::<(RoomV, Seq<DeliveryV>), _>(e) && final(self)@ == old(self)@,
            },
    {
        let k = match self.find_user(session_id) {
            None => match &self.playback {
                None => {
                    return Err(RoomError::NoPlayback);
                },
                Some(_) => {
                    return Err(RoomError::UnknownUser);
                },
            },
            Some(k) => k,
        };
        let link = self.users[k].session.duplicate();
        match &mut self.playback {
            None => Err(RoomError::NoPlayback),
            Some(pb) => match pb.connect(link) {
                Ok(fx) => Ok(fx),
                Err(e) => Err(RoomError::Playback(e)),
            },
        }
    }

    /// Forwards a playback request of the session to the coordinator.
    pub fn playback_request(&mut self, session_id: SessionId, request: PlaybackRequest) -> (r:
        Result<Vec<Delivery>, RoomError>)
        ensures
            match r {
                Ok(fx) => spec_playback_request(old(self)@, session_id, request)
                    == Ok::<_, RoomError>((final(self)@, deliveries_view(fx@))),
                Err(e) => spec_playback_request(old(self)@, session_id, request)
                    == Err::<(RoomV, Seq<DeliveryV>), _>(e) && final(self)@ == old(self)@,
            },
    {
        match &mut self.playback {
            None => Err(RoomError::NoPlayback),
            Some(pb) => match pb.handle_request(session_id, request) {
                Ok(fx) => Ok(fx),
                Err(e) => Err(RoomError::Playback(e)),
            },
        }
    }

    /// Records a freshly measured clock offset for the session.
    pub fn update_time_offset(&mut self, session_id: SessionId, offset: i64)
        ensures
            final(self)@ == spec_update_offset(old(self)@, session_id, offset),
    {
        let ghost r0 = self@;
        match self.find_user(session_id) {
            None => {
                proof {
                    assert(members_view(self.users@) == spec_update_offset(r0, session_id, offset).users);
                }
            },
            Some(i) => {
                let role = self.users[i].role;
                let mut session = self.users[i].session.duplicate();
                session.time_offset = offset;
                let ghost refreshed = session@;
                self.users.set(i, User { role, session });
                proof {
                    lemma_member_idx(r0.users, session_id);
                    let k = member_idx(r0.users, session_id);
                    assert(r0.users[k].session.id == session_id);
                    assert(refreshed == spec_refresh_link(r0.users[k].session, session_id, offset));
                    assert(members_view(self.users@)
                        =~= r0.users.update(k, UserV {
                            role: r0.users[k].role,
                            session: spec_refresh_link(r0.users[k].session, session_id, offset),
                        }));
                }
            },
        }
        match &mut self.playback {
            None => (),
            Some(pb) => {
                pb.refresh_offset(session_id, offset);
            },
        }
    }

    /// Dispatches one request: returns the deliveries to make and the
    /// outcome to report to the issuer.
    pub fn handle_request(&mut self, request: RoomRequest) -> (r: (
        Vec<Delivery>,
        Result<(), RoomError>,
    ))
        ensures
            ({
                let step = spec_room_handle_request(old(self)@, request);
                final(self)@ == step.0 && deliveries_view(r.0@) == step.1 && r.1 == step.2
            }),
    {
        match request {
            RoomRequest::GetState => (self.broadcast_state(), Ok(())),
            RoomRequest::SetRole(id, role) => (self.set_role(role, id), Ok(())),
            RoomRequest::Leave(id) => (self.leave(id), Ok(())),
            RoomRequest::UpdateTimeOffset(id, offset) => {
                self.update_time_offset(id, offset);
                let fx: Vec<Delivery> = Vec::new();
                proof {
                    assert(deliveries_view(fx@) =~= Seq::<DeliveryV>::empty());
                }
                (fx, Ok(()))
            },
            RoomRequest::PlaybackHost(id) => match self.host_playback(id) {
                Ok(fx) => (fx, Ok(())),
                Err(e) => {
                    let fx: Vec<Delivery> = Vec::new();
                    proof {
                        assert(deliveries_view(fx@) =~= Seq::<DeliveryV>::empty());
                    }
                    (fx, Err(e))
                },
            },
            RoomRequest::PlaybackConnect(id) => match self.connect_playback(id) {
                Ok(fx) => (fx, Ok(())),
                Err(e) => {
                    let fx: Vec<Delivery> = Vec::new();
                    proof {
                        assert(deliveries_view(fx@) =~= Seq::<DeliveryV>::empty());
                    }
                    (fx, Err(e))
                },
            },
            RoomRequest::Playback(id, req) => match self.playback_request(id, req) {
                Ok(fx) => (fx, Ok(())),
                Err(e) => {
                    let fx: Vec<Delivery> = Vec::new();
                    proof {
                        assert(deliveries_view(fx@) =~= Seq::<DeliveryV>::empty());
                    }
                    (fx, Err(e))
                },
            },
        }
    }
}

/// One request, dispatched: the new room, the deliveries to make, and
/// the outcome reported to the issuer.
pub open spec fn spec_room_handle_request(r: RoomV, request: RoomRequest) -> (
    RoomV,
    Seq<DeliveryV>,
    Result<(), RoomError>,
) {
    match request {
        RoomRequest::GetState => (r, spec_broadcast_state(r), Ok(())),
        RoomRequest::SetRole(id, role) => {
            let step = spec_set_role(r, role, id);
            (step.0, step.1, Ok(()))
        },
        RoomRequest::Leave(id) => {
            let step = spec_leave(r, id);
            (step.0, step.1, Ok(()))
        },
        RoomRequest::UpdateTimeOffset(id, offset) => (
            spec_update_offset(r, id, offset),
            Seq::empty(),
            Ok(()),
        ),
        RoomRequest::PlaybackHost(id) => match spec_host_playback(r, id) {
            Ok(step) => (step.0, step.1, Ok(())),
            Err(e) => (r, Seq::empty(), Err(e)),
        },
        RoomRequest::PlaybackConnect(id) => match spec_connect_playback(r, id) {
            Ok(step) => (step.0, step.1, Ok(())),
            Err(e) => (r, Seq::empty(), Err(e)),
        },
        RoomRequest::Playback(id, request) => match spec_playback_request(r, id, request) {
            Ok(step) => (step.0, step.1, Ok(())),
            Err(e) => (r, Seq::empty(), Err(e)),
        },
    }
}

// ---------------------------------------------------------------------
// Laws of the room
// ---------------------------------------------------------------------

/// Every delivery of one broadcast carries the same message: recipients
/// of a state broadcast cannot observe different snapshots.
pub proof fn lemma_broadcast_same_payload(r: RoomV, msg: SessionMsgV)
    ensures
        forall|i: int, j: int|
            0 <= i < spec_broadcast(r, msg).len() && 0 <= j < spec_broadcast(r, msg).len()
                ==> #[trigger] spec_broadcast(r, msg)[i].msg == #[trigger] spec_broadcast(
                r,
                msg,
            )[j].msg,
{
}

/// A leave by the last member always closes the room.
pub proof fn lemma_last_leave_closes(r: RoomV, id: SessionId)
    requires
        r.users.len() == 1,
        has_member(r.users, id),
    ensures
        !spec_leave(r, id).0.running,
        spec_leave(r, id).0.users.len() == 0,
{
    lemma_member_idx(r.users, id);
}

/// Joining preserves the host invariant, provided the first member of a
/// running room enters as Host (as the room registry arranges).
pub proof fn lemma_join_preserves_host_ok(r: RoomV, role: UserRole, session: SessionLinkV)
    requires
        r.host_ok(),
        r.users.len() == 0 ==> role is Host,
    ensures
        match spec_join(r, role, session) {
            Ok(step) => step.0.host_ok(),
            Err(_) => true,
        },
{
    if !has_member(r.users, session.id) {
        let users2 = r.users.push(UserV { role, session });
        if r.running && r.users.len() > 0 && members_have_host(r.users) {
            let w = choose|w: int| 0 <= w < r.users.len() && r.users[w].role is Host;
            assert(users2[w].role is Host);
        }
        if r.users.len() == 0 {
            assert(users2[0].role is Host);
        }
    }
}

/// Leaving preserves the host invariant: when the last Host leaves an
/// inhabited room, succession promotes a member to Host.
pub proof fn lemma_leave_preserves_host_ok(r: RoomV, id: SessionId)
    requires
        r.host_ok(),
    ensures
        spec_leave(r, id).0.host_ok(),
{
    if has_member(r.users, id) {
        lemma_member_idx(r.users, id);
        let users2 = r.users.remove(member_idx(r.users, id));
        if users2.len() == 0 {
        } else if !members_have_host(users2) {
            let j = succession_idx(users2);
            if has_non_spectator(users2) {
                lemma_first_non_spectator(users2);
            }
            let users3 = users2.update(j, UserV { role: UserRole::Host, session: users2[j].session });
            assert(users3[j].role is Host);
            assert(members_have_host(users3));
        }
    }
}

/// Changing a role preserves the host invariant, except for the one
/// request the protocol cannot repair: demoting the only Host. The
/// premise asks that the demoted member was not the only Host.
pub proof fn lemma_set_role_preserves_host_ok(r: RoomV, role: UserRole, id: SessionId)
    requires
        r.host_ok(),
        has_member(r.users, id) && !(role is Host) ==> exists|i: int|
            0 <= i < r.users.len() && i != member_idx(r.users, id) && #[trigger] r.users[i].role
                is Host,
    ensures
        spec_set_role(r, role, id).0.host_ok(),
{
    if has_member(r.users, id) {
        lemma_member_idx(r.users, id);
        let k = member_idx(r.users, id);
        let users2 = r.users.update(k, UserV { role, session: r.users[k].session });
        if role is Host {
            assert(users2[k].role is Host);
        } else if r.running && users2.len() > 0 {
            let w = choose|w: int|
                0 <= w < r.users.len() && w != k && #[trigger] r.users[w].role is Host;
            assert(users2[w].role is Host);
        }
    }
}

/// A dispatched request preserves the host invariant. For `SetRole` the
/// premise of `lemma_set_role_preserves_host_ok` applies.
pub proof fn lemma_handle_request_preserves_host_ok(r: RoomV, request: RoomRequest)
    requires
        r.host_ok(),
        match request {
            RoomRequest::SetRole(id, role) => has_member(r.users, id) && !(role is Host)
                ==> exists|i: int|
                0 <= i < r.users.len() && i != member_idx(r.users, id)
                    && #[trigger] r.users[i].role is Host,
            _ => true,
        },
    ensures
        spec_room_handle_request(r, request).0.host_ok(),
{
    match request {
        RoomRequest::GetState => (),
        RoomRequest::SetRole(id, role) => {
            lemma_set_role_preserves_host_ok(r, role, id);
        },
        RoomRequest::Leave(id) => {
            lemma_leave_preserves_host_ok(r, id);
        },
        RoomRequest::UpdateTimeOffset(id, offset) => {
            let r2 = spec_update_offset(r, id, offset);
            if has_member(r.users, id) {
                lemma_member_idx(r.users, id);
            }
            if r2.running && r2.users.len() > 0 {
                assert(members_have_host(r.users));
                let w = choose|w: int| 0 <= w < r.users.len() && r.users[w].role is Host;
                assert(r2.users[w].role is Host) by {
                    if has_member(r.users, id) {
                        lemma_member_idx(r.users, id);
                        let k = member_idx(r.users, id);
                        if w == k {
                            assert(r2.users[k].role == r.users[k].role);
                        } else {
                            assert(r2.users[w] == r.users[w]);
                        }
                    }
                }
                assert(r2.users.len() == r.users.len());
                assert(0 <= w < r2.users.len());
                assert(members_have_host(r2.users));
            }
        },
        RoomRequest::PlaybackHost(_) => (),
        RoomRequest::PlaybackConnect(_) => (),
        RoomRequest::Playback(_, _) => (),
    }
}

/// Removing one member keeps the remaining member ids pairwise distinct
/// and keeps every other session's membership.
proof fn lemma_remove_member(users: Seq<UserV>, k: int)
    requires
        0 <= k < users.len(),
        forall|i: int, j: int|
            0 <= i < j < users.len() ==> users[i].session.id != users[j].session.id,
    ensures
        forall|i: int, j: int|
            0 <= i < j < users.remove(k).len() ==> users.remove(k)[i].session.id != users.remove(
                k,
            )[j].session.id,
        forall|id: SessionId|
            #[trigger] has_member(users, id) && users[k].session.id != id ==> has_member(
                users.remove(k),
                id,
            ),
{
    let s2 = users.remove(k);
    assert forall|i: int, j: int| 0 <= i < j < s2.len() implies s2[i].session.id
        != s2[j].session.id by {
        assert(s2[i] == if i < k { users[i] } else { users[i + 1] });
        assert(s2[j] == if j < k { users[j] } else { users[j + 1] });
    }
    assert forall|id: SessionId|
        has_member(users, id) && users[k].session.id != id implies has_member(s2, id) by {
        let w = choose|w: int| 0 <= w < users.len() && users[w].session.id == id;
        if w < k {
            assert(s2[w].session.id == id);
        } else {
            assert(w != k);
            assert(s2[w - 1].session.id == id);
        }
    }
}

/// Updating one member in place (same session) keeps ids distinct and
/// membership unchanged.
proof fn lemma_update_member(users: Seq<UserV>, k: int, u: UserV)
    requires
        0 <= k < users.len(),
        u.session.id == users[k].session.id,
        forall|i: int, j: int|
            0 <= i < j < users.len() ==> users[i].session.id != users[j].session.id,
    ensures
        forall|i: int, j: int|
            0 <= i < j < users.update(k, u).len() ==> users.update(k, u)[i].session.id
                != users.update(k, u)[j].session.id,
        forall|id: SessionId|
            #[trigger] has_member(users, id) ==> has_member(users.update(k, u), id),
{
    let s2 = users.update(k, u);
    assert forall|id: SessionId| has_member(users, id) implies has_member(s2, id) by {
        let w = choose|w: int| 0 <= w < users.len() && users[w].session.id == id;
        assert(s2[w].session.id == id);
    }
}

/// A dispatched request preserves room well-formedness: member ids stay
/// pairwise distinct, and the playback, if any, stays well-formed and
/// built from members.
pub proof fn lemma_handle_request_preserves_wf(r: RoomV, request: RoomRequest)
    requires
        r.wf(),
    ensures
        spec_room_handle_request(r, request).0.wf(),
{
    match request {
        RoomRequest::GetState => (),
        RoomRequest::SetRole(id, role) => {
            if has_member(r.users, id) {
                lemma_member_idx(r.users, id);
                let k = member_idx(r.users, id);
                lemma_update_member(r.users, k, UserV { role, session: r.users[k].session });
            }
        },
        RoomRequest::Leave(id) => {
            lemma_leave_preserves_wf(r, id);
        },
        RoomRequest::UpdateTimeOffset(id, offset) => {
            lemma_update_offset_preserves_wf(r, id, offset);
        },
        RoomRequest::PlaybackHost(id) => {
            if has_member(r.users, id) {
                lemma_member_idx(r.users, id);
            }
        },
        RoomRequest::PlaybackConnect(id) => {
            match r.playback {
                None => (),
                Some(pb) => {
                    if has_member(r.users, id) {
                        lemma_member_idx(r.users, id);
                        let link = r.users[member_idx(r.users, id)].session;
                        crate::playback::lemma_connect_preserves_wf(pb, link);
                        match spec_connect(pb, link) {
                            Err(_) => (),
                            Ok(step) => {
                                if has_link(pb.subscribers, link.id) {
                                    lemma_link_idx(pb.subscribers, link.id);
                                    assert forall|i: int|
                                        0 <= i < step.0.subscribers.len() implies has_member(
                                        r.users,
                                        step.0.subscribers[i].id,
                                    ) by {
                                        if i != link_idx(pb.subscribers, link.id) {
                                            assert(step.0.subscribers[i] == pb.subscribers[i]);
                                        }
                                    }
                                } else {
                                    assert forall|i: int|
                                        0 <= i < step.0.subscribers.len() implies has_member(
                                        r.users,
                                        step.0.subscribers[i].id,
                                    ) by {
                                        if i < pb.subscribers.len() {
                                            assert(step.0.subscribers[i] == pb.subscribers[i]);
                                        }
                                    }
                                }
                            },
                        }
                    }
                },
            }
        },
        RoomRequest::Playback(id, req) => {
            match r.playback {
                None => (),
                Some(pb) => {
                    crate::playback::lemma_handle_request_preserves_wf(pb, id, req);
                    crate::playback::lemma_handle_request_participants(pb, id, req);
                    match crate::playback::spec_handle_request(pb, id, req) {
                        Err(_) => (),
                        Ok(step) => {
                            assert forall|i: int|
                                0 <= i < step.0.subscribers.len() implies has_member(
                                r.users,
                                step.0.subscribers[i].id,
                            ) by {
                                let j = choose|j: int|
                                    0 <= j < pb.subscribers.len() && pb.subscribers[j]
                                        == step.0.subscribers[i];
                                assert(has_member(r.users, pb.subscribers[j].id));
                            }
                        },
                    }
                },
            }
        },
    }
}

/// Leaving preserves room well-formedness.
pub proof fn lemma_leave_preserves_wf(r: RoomV, id: SessionId)
    requires
        r.wf(),
    ensures
        spec_leave(r, id).0.wf(),
{
    if has_member(r.users, id) {
        lemma_member_idx(r.users, id);
        let k = member_idx(r.users, id);
        lemma_remove_member(r.users, k);
        let users2 = r.users.remove(k);
        let pb2 = spec_leave_playback(r.playback, id).0;
        match r.playback {
            None => (),
            Some(pb) => {
                if pb.host.id == id {
                    assert(pb2 is None);
                } else {
                    crate::playback::lemma_disconnect_preserves_wf(
                        pb,
                        id,
                        crate::playback::DisconnectReason::User,
                    );
                    let q = spec_disconnect(pb, id, crate::playback::DisconnectReason::User).0;
                    assert(has_member(r.users, pb.host.id));
                    assert(has_member(users2, q.host.id));
                    if has_link(pb.subscribers, id) {
                        lemma_link_idx(pb.subscribers, id);
                        let c = link_idx(pb.subscribers, id);
                        assert forall|i: int|
                            0 <= i < q.subscribers.len() implies has_member(
                            users2,
                            q.subscribers[i].id,
                        ) by {
                            let src: int = if i < c {
                                i
                            } else {
                                i + 1
                            };
                            assert(q.subscribers[i] == pb.subscribers[src]);
                            assert(pb.subscribers[src].id != id) by {
                                if src < c {
                                    assert(pb.subscribers[src].id != pb.subscribers[c].id);
                                } else {
                                    assert(pb.subscribers[c].id != pb.subscribers[src].id);
                                }
                            }
                            assert(has_member(r.users, pb.subscribers[src].id));
                        }
                    } else {
                        assert forall|i: int|
                            0 <= i < q.subscribers.len() implies has_member(
                            users2,
                            q.subscribers[i].id,
                        ) by {
                            assert(q.subscribers[i] == pb.subscribers[i]);
                            assert(pb.subscribers[i].id != id);
                            assert(has_member(r.users, pb.subscribers[i].id));
                        }
                    }
                    if users2.len() == 0 {
                        assert(has_member(users2, q.host.id));
                        assert(false);
                    }
                }
            },
        }
        if users2.len() == 0 {
        } else if !members_have_host(users2) {
            let j = succession_idx(users2);
            if has_non_spectator(users2) {
                lemma_first_non_spectator(users2);
            }
            lemma_update_member(users2, j, UserV {
                role: UserRole::Host,
                session: users2[j].session,
            });
        }
    }
}

/// After a leave, the leaver is no longer a member.
pub proof fn lemma_leave_removes_member(r: RoomV, id: SessionId)
    requires
        forall|i: int, j: int|
            0 <= i < j < r.users.len() ==> r.users[i].session.id != r.users[j].session.id,
    ensures
        !has_member(spec_leave(r, id).0.users, id),
{
    if has_member(r.users, id) {
        lemma_member_idx(r.users, id);
        let k = member_idx(r.users, id);
        let users2 = r.users.remove(k);
        assert forall|w: int| 0 <= w < users2.len() implies users2[w].session.id != id by {
            if w < k {
                assert(users2[w] == r.users[w]);
                assert(r.users[w].session.id != r.users[k].session.id);
            } else {
                assert(users2[w] == r.users[w + 1]);
                assert(r.users[k].session.id != r.users[w + 1].session.id);
            }
        }
        assert(!has_member(users2, id));
        if users2.len() == 0 {
        } else if !members_have_host(users2) {
            let j = succession_idx(users2);
            if has_non_spectator(users2) {
                lemma_first_non_spectator(users2);
            }
            let users3 = users2.update(j, UserV { role: UserRole::Host, session: users2[j].session });
            assert forall|w: int| 0 <= w < users3.len() implies users3[w].session.id != id by {
                if w == j {
                    assert(users3[w].session == users2[j].session);
                } else {
                    assert(users3[w] == users2[w]);
                }
            }
            assert(!has_member(users3, id));
        }
    } else {
        let out = spec_leave(r, id).0;
        assert(out.users == r.users);
    }
}

/// Refreshing a clock offset preserves room well-formedness.
pub proof fn lemma_update_offset_preserves_wf(r: RoomV, id: SessionId, offset: i64)
    requires
        r.wf(),
    ensures
        spec_update_offset(r, id, offset).wf(),
{
    let r2 = spec_update_offset(r, id, offset);
    if has_member(r.users, id) {
        lemma_member_idx(r.users, id);
        let k = member_idx(r.users, id);
        lemma_update_member(r.users, k, UserV {
            role: r.users[k].role,
            session: spec_refresh_link(r.users[k].session, id, offset),
        });
    }
    match r.playback {
        None => (),
        Some(pb) => {
            let q = crate::playback::spec_refresh_offset(pb, id, offset);
            if has_link(pb.subscribers, id) {
                lemma_link_idx(pb.subscribers, id);
            }
            assert forall|i: int, j: int| 0 <= i < j < q.subscribers.len() implies q.subscribers[i].id
                != q.subscribers[j].id by {
                assert(q.subscribers[i].id == pb.subscribers[i].id);
                assert(q.subscribers[j].id == pb.subscribers[j].id);
            }
            assert forall|i: int| 0 <= i < q.subscribers.len() implies q.subscribers[i].id
                != q.host.id by {
                assert(q.subscribers[i].id == pb.subscribers[i].id);
            }
            assert(q.host.id == pb.host.id);
            assert(has_member(r2.users, q.host.id)) by {
                let w = choose|w: int|
                    0 <= w < r.users.len() && r.users[w].session.id == pb.host.id;
                assert(r2.users[w].session.id == pb.host.id);
            }
            assert forall|i: int| 0 <= i < q.subscribers.len() implies has_member(
                r2.users,
                q.subscribers[i].id,
            ) by {
                assert(has_member(r.users, pb.subscribers[i].id));
                let w = choose|w: int|
                    0 <= w < r.users.len() && r.users[w].session.id == pb.subscribers[i].id;
                assert(r2.users[w].session.id == pb.subscribers[i].id);
            }
        },
    }
}

/// A room's playback, when present, is hosted by a member, and no
/// subscriber is the playback host: the direct reading of the playback
/// linkage invariant.
pub proof fn lemma_playback_linked_to_members(r: RoomV)
    requires
        r.wf(),
    ensures
        match r.playback {
            None => true,
            Some(pb) => has_member(r.users, pb.host.id) && forall|i: int|
                0 <= i < pb.subscribers.len() ==> #[trigger] pb.subscribers[i].id != pb.host.id
                    && has_member(r.users, pb.subscribers[i].id),
        },
{
}

} // verus!
