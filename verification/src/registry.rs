//! The room registry: the one shared structure of the server. It owns
//! every live room, creates rooms with their first member as Host, checks
//! passwords at join, routes requests, and reaps rooms that stop running.

use vstd::prelude::*;

use crate::ids::{RoomId, SessionId};
use crate::playback::{SessionLink, SessionLinkV};
use crate::room::{
    has_member, members_have_host, spec_broadcast_state, spec_close, spec_join,
    spec_room_handle_request, Room, RoomCloseReason, RoomError, RoomRequest, RoomV, UserRole,
    UserV,
};
use crate::session_msgs::{deliveries_view, Delivery, DeliveryV};

verus! {

/// Why a join attempt was refused.
#[derive(Debug, Clone, Copy, PartialEq, Eq, Structural)]
pub enum JoinError {
    NotFound,
    IncorrectPassword,
    Room(RoomError),
}

/// The wording of each refusal.
pub open spec fn spec_join_error_text(e: JoinError) -> Seq<char> {
    match e {
        JoinError::NotFound => "Room does not exist"@,
        JoinError::IncorrectPassword => "Incorrect password"@,
        JoinError::Room(re) => crate::room::spec_room_error_text(re),
    }
}

impl JoinError {
    /// The wording reported to the requesting peer.
    pub fn describe(&self) -> (r: String)
        ensures
            r@ == spec_join_error_text(*self),
    {
        match self {
            JoinError::NotFound => "Room does not exist".to_owned(),
            JoinError::IncorrectPassword => "Incorrect password".to_owned(),
            JoinError::Room(e) => e.describe(),
        }
    }
}

/// Rooms carry pairwise distinct identifiers and are each well-formed.
pub open spec fn registry_wf(rooms: Seq<RoomV>) -> bool {
    &&& forall|i: int, j: int| 0 <= i < j < rooms.len() ==> rooms[i].id != rooms[j].id
    &&& forall|i: int| 0 <= i < rooms.len() ==> (#[trigger] rooms[i]).wf()
}

/// Whether some room in `s` has identifier `id`.
pub open spec fn has_room(s: Seq<RoomV>, id: RoomId) -> bool {
    exists|i: int| 0 <= i < s.len() && s[i].id == id
}

/// The first position in `s` of the room with identifier `id`.
pub open spec fn room_idx(s: Seq<RoomV>, id: RoomId) -> int
    decreases s.len(),
{
    if s.len() == 0 {
        0
    } else if s[0].id == id {
        0
    } else {
        1 + room_idx(s.drop_first(), id)
    }
}

/// `room_idx` finds the first matching position.
pub proof fn lemma_room_idx(s: Seq<RoomV>, id: RoomId)
    requires
        has_room(s, id),
    ensures
        0 <= room_idx(s, id) < s.len(),
        s[room_idx(s, id)].id == id,
        forall|j: int| 0 <= j < room_idx(s, id) ==> s[j].id != id,
    decreases s.len(),
{
    if s.len() > 0 && s[0].id != id {
        assert(has_room(s.drop_first(), id)) by {
            let i = choose|i: int| 0 <= i < s.len() && s[i].id == id;
            assert(s.drop_first()[i - 1].id == id);
        }
        lemma_room_idx(s.drop_first(), id);
        let k = room_idx(s, id);
        assert(k == 1 + room_idx(s.drop_first(), id));
        assert forall|j: int| 0 <= j < k implies s[j].id != id by {
            if j > 0 {
                assert(s.drop_first()[j - 1] == s[j]);
                assert(s.drop_first()[j - 1].id != id);
            }
        }
    }
}

/// Join through the registry: the room must exist and the password must
/// match its own, letter for letter; the joiner enters as Guest.
pub open spec fn spec_join_room(
    rooms: Seq<RoomV>,
    id: RoomId,
    password: Seq<char>,
    session: SessionLinkV,
) -> Result<(Seq<RoomV>, Seq<DeliveryV>), JoinError> {
    if !has_room(rooms, id) {
        Err(JoinError::NotFound)
    } else {
        let k = room_idx(rooms, id);
        if password != rooms[k].password {
            Err(JoinError::IncorrectPassword)
        } else {
            match spec_join(rooms[k], UserRole::Guest, session) {
                Err(e) => Err(JoinError::Room(e)),
                Ok(step) => Ok((rooms.update(k, step.0), step.1)),
            }
        }
    }
}

/// Close through the registry: the room, if present, broadcasts the
/// reason and its entry is removed.
pub open spec fn spec_close_room(rooms: Seq<RoomV>, id: RoomId, reason: RoomCloseReason) -> (
    Seq<RoomV>,
    Seq<DeliveryV>,
) {
    if !has_room(rooms, id) {
        (rooms, Seq::empty())
    } else {
        let k = room_idx(rooms, id);
        (rooms.remove(k), spec_close(rooms[k], reason).1)
    }
}

/// A routed request: the room steps, and a room that stopped running is
/// reaped from the registry.
pub open spec fn spec_route_request(rooms: Seq<RoomV>, id: RoomId, request: RoomRequest) -> Option<
    (Seq<RoomV>, Seq<DeliveryV>, Result<(), RoomError>),
> {
    if !has_room(rooms, id) {
        None
    } else {
        let k = room_idx(rooms, id);
        let step = spec_room_handle_request(rooms[k], request);
        let rooms2 = if step.0.running {
            rooms.update(k, step.0)
        } else {
            rooms.remove(k)
        };
        Some((rooms2, step.1, step.2))
    }
}

/// Owns every live room.
pub struct RoomManager {
    rooms: Vec<Room>,
}

impl View for RoomManager {
    type V = Seq<RoomV>;

    closed spec fn view(&self) -> Seq<RoomV> {
        Seq::new(self.rooms@.len(), |i: int| self.rooms@[i]@)
    }
}

impl RoomManager {
    pub fn new() -> (m: Self)
        ensures
            m@ == Seq::<RoomV>::empty(),
    {
        let m = RoomManager { rooms: Vec::new() };
        proof {
            assert(m@ =~= Seq::<RoomV>::empty());
        }
        m
    }

    /// The position of the room with identifier `id`, if any.
    fn find_room(&self, id: RoomId) -> (r: Option<usize>)
        ensures
            match r {
                Some(i) => has_room(self@, id) && i == room_idx(self@, id) && i < self@.len(),
                None => !has_room(self@, id),
            },
    {
        let ghost rv = self@;
        let n = self.rooms.len();
        let mut i: usize = 0;
        while i < n
            invariant
                n == self.rooms@.len(),
                rv == self@,
                rv.len() == n,
                i <= n,
                forall|j: int| 0 <= j < i ==> rv[j].id != id,
            decreases n - i,
        {
            if self.rooms[i].id.bits == id.bits {
                proof {
                    assert(rv[i as int] == self.rooms@[i as int]@);
                    assert(rv[i as int].id == id);
                    assert(has_room(rv, id));
                    lemma_room_idx(rv, id);
                    let k = room_idx(rv, id);
                    assert(k >= i) by {
                        if k < i {
                            assert(rv[k].id != id);
                        }
                    }
                    assert(k <= i) by {
                        if k > i {
                            assert(rv[i as int].id != id);
                        }
                    }
                }
                return Some(i);
            }
            proof {
                assert(rv[i as int] == self.rooms@[i as int]@);
            }
            i = i + 1;
        }
        proof {
            if has_room(rv, id) {
                let w = choose|w: int| 0 <= w < rv.len() && rv[w].id == id;
                assert(rv[w].id != id);
            }
        }
        None
    }

    /// Creates a room and joins its initiator as Host. Returns the new
    /// room's identifier and the first state broadcast.
    pub fn create_room(&mut self, name: String, password: String, session: SessionLink) -> (r: (
        RoomId,
        Vec<Delivery>,
    ))
        ensures
            final(self)@.len() == old(self)@.len() + 1,
            forall|i: int| 0 <= i < old(self)@.len() ==> final(self)@[i] == old(self)@[i],
            ({
                let room = final(self)@.last();
                &&& room.id == r.0
                &&& room.running
                &&& room.name == name@
                &&& room.password == password@
                &&& room.users == seq![UserV { role: UserRole::Host, session: session@ }]
                &&& room.playback is None
                &&& deliveries_view(r.1@) == spec_broadcast_state(room)
                &&& room.wf()
                &&& members_have_host(room.users)
            }),
    {
        let mut room = Room::new(name, password);
        let room_id = room.id;
        let fx = match room.join(UserRole::Host, session) {
            Ok(fx) => fx,
            Err(_) => {
                proof {
                    assert(false);
                }
                Vec::new()
            },
        };
        proof {
            assert(room@.users =~= seq![UserV { role: UserRole::Host, session: session@ }]);
            assert(room@.users[0].role is Host);
        }
        let ghost before = self@;
        self.rooms.push(room);
        proof {
            assert(self@ =~= before.push(self.rooms@.last()@));
        }
        (room_id, fx)
    }

    /// The password of the room, where it exists.
    pub fn get_room_password(&self, id: RoomId) -> (r: Option<String>)
        ensures
            match r {
                Some(p) => has_room(self@, id) && p@ == self@[room_idx(self@, id)].password,
                None => !has_room(self@, id),
            },
    {
        match self.find_room(id) {
            None => None,
            Some(i) => Some(self.rooms[i].password.clone()),
        }
    }

    /// Joins a session to a room as Guest, after the password check.
    pub fn join_room(&mut self, id: RoomId, password: &String, session: SessionLink) -> (r: Result<
        Vec<Delivery>,
        JoinError,
    >)
        ensures
            match r {
                Ok(fx) => spec_join_room(old(self)@, id, password@, session@)
                    == Ok::<_, JoinError>((final(self)@, deliveries_view(fx@))),
                Err(e) => spec_join_room(old(self)@, id, password@, session@)
                    == Err::<(Seq<RoomV>, Seq<DeliveryV>), _>(e) && final(self)@ == old(self)@,
            },
    {
        let ghost before = self@;
        let k = match self.find_room(id) {
            None => {
                return Err(JoinError::NotFound);
            },
            Some(k) => k,
        };
        proof {
            assert(before[k as int] == self.rooms@[k as int]@);
        }
        let room = &mut self.rooms[k];
        if !(room.password == *password) {
            return Err(JoinError::IncorrectPassword);
        }
        match room.join(UserRole::Guest, session) {
            Err(e) => {
                proof {
                    assert(self@ =~= before);
                }
                Err(JoinError::Room(e))
            },
            Ok(fx) => {
                proof {
                    let step = spec_join(before[k as int], UserRole::Guest, session@);
                    assert(self@ =~= before.update(k as int, step->Ok_0.0));
                }
                Ok(fx)
            },
        }
    }

    /// Closes a room and removes it from the registry; closing an
    /// unknown room is a no-op.
    pub fn close_room(&mut self, id: RoomId, reason: RoomCloseReason) -> (fx: Vec<Delivery>)
        ensures
            (final(self)@, deliveries_view(fx@)) == spec_close_room(old(self)@, id, reason),
    {
        let ghost before = self@;
        match self.find_room(id) {
            None => {
                let fx: Vec<Delivery> = Vec::new();
                proof {
                    assert(deliveries_view(fx@) =~= Seq::<DeliveryV>::empty());
                }
                fx
            },
            Some(k) => {
                proof {
                    assert(before[k as int] == self.rooms@[k as int]@);
                }
                let room = &mut self.rooms[k];
                let fx = room.close(reason);
                self.rooms.remove(k);
                proof {
                    assert(self@ =~= before.remove(k as int));
                }
                fx
            },
        }
    }

    /// Routes one request to its room; a room that stops running is
    /// removed. Returns None when the room is gone.
    pub fn room_request(&mut self, id: RoomId, request: RoomRequest) -> (r: Option<(
        Vec<Delivery>,
        Result<(), RoomError>,
    )>)
        ensures
            match r {
                None => !has_room(old(self)@, id) && final(self)@ == old(self)@,
                Some(out) => match spec_route_request(old(self)@, id, request) {
                    None => false,
                    Some(step) => final(self)@ == step.0 && deliveries_view(out.0@) == step.1
                        && out.1 == step.2,
                },
            },
    {
        let ghost before = self@;
        let k = match self.find_room(id) {
            None => {
                return None;
            },
            Some(k) => k,
        };
        proof {
            assert(before[k as int] == self.rooms@[k as int]@);
        }
        let room = &mut self.rooms[k];
        let (fx, outcome) = room.handle_request(request);
        if !self.rooms[k].running {
            self.rooms.remove(k);
            proof {
                assert(self@ =~= before.remove(k as int));
            }
        } else {
            proof {
                let step = spec_room_handle_request(before[k as int], request);
                assert(self@ =~= before.update(k as int, step.0));
            }
        }
        Some((fx, outcome))
    }
}

// ---------------------------------------------------------------------
// Laws of the registry
// ---------------------------------------------------------------------

/// The password rule of join: an attempt at an existing room fails with
/// `IncorrectPassword` exactly when the offered password differs from the
/// room's. In particular an empty password is accepted exactly when the
/// room's password is empty.
pub proof fn lemma_join_password_rule(
    rooms: Seq<RoomV>,
    id: RoomId,
    password: Seq<char>,
    session: SessionLinkV,
)
    requires
        has_room(rooms, id),
    ensures
        spec_join_room(rooms, id, password, session) == Err::<
            (Seq<RoomV>, Seq<DeliveryV>),
            JoinError,
        >(JoinError::IncorrectPassword) <==> password != rooms[room_idx(rooms, id)].password,
        password.len() == 0 && rooms[room_idx(rooms, id)].password.len() == 0 ==> spec_join_room(
            rooms,
            id,
            password,
            session,
        ) != Err::<(Seq<RoomV>, Seq<DeliveryV>), JoinError>(JoinError::IncorrectPassword),
{
    lemma_room_idx(rooms, id);
    let k = room_idx(rooms, id);
    if password.len() == 0 && rooms[k].password.len() == 0 {
        assert(password =~= rooms[k].password);
    }
}

} // verus!
