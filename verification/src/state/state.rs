//! The world model: the connected users and the live rooms, held together
//! so that neither can be seen without the other.

use crate::communication::data_fetcher::UserIdsResult;
use crate::state::state_types::{Room, RoomView, User, NO_ROOM};
use std::collections::HashMap;
use vstd::std_specs::hash::{spec_hash_keys_iter, spec_keys_iter};
use vstd::std_specs::iter::IteratorSpec;
use vstd::prelude::*;

verus! {

broadcast use vstd::std_specs::hash::group_hash_axioms;

/// The world as mathematical values: who is connected, and which rooms are
/// live.
pub struct WorldView {
    pub users: Map<i32, User>,
    pub rooms: Map<i32, RoomView>,
}

impl WorldView {
    /// The world with nobody connected and no room live.
    pub open spec fn empty() -> WorldView {
        WorldView { users: Map::empty(), rooms: Map::empty() }
    }

    /// The entry of `user_id` agrees with its key, and where it names a
    /// room, that room is live and lists the user as a member.
    pub open spec fn user_wf(self, user_id: i32) -> bool {
        let user = self.users[user_id];
        &&& user.user_id == user_id
        &&& user.current_room_id != NO_ROOM ==> {
            &&& self.rooms.contains_key(user.current_room_id)
            &&& self.rooms[user.current_room_id].user_ids.contains(user_id)
        }
    }

    /// The entry of `room_id` agrees with its key, is consistent in itself,
    /// and each of its members is connected and placed in this very room.
    pub open spec fn room_wf(self, room_id: i32) -> bool {
        let room = self.rooms[room_id];
        &&& room.room_id == room_id
        &&& room.wf()
        &&& forall|u: i32| #[trigger]
            room.user_ids.contains(u) ==> self.users.contains_key(u)
                && self.users[u].current_room_id == room_id
    }

    /// The consistency that every observable world has: users and rooms
    /// agree with each other, and no room goes by the id `NO_ROOM`.
    pub open spec fn wf(self) -> bool {
        &&& self.users.dom().finite()
        &&& self.rooms.dom().finite()
        &&& !self.rooms.contains_key(NO_ROOM)
        &&& forall|u: i32| #[trigger] self.users.contains_key(u) ==> self.user_wf(u)
        &&& forall|r: i32| #[trigger] self.rooms.contains_key(r) ==> self.room_wf(r)
    }

    /// Whether `user_id` is connected and occupies no room.
    pub open spec fn is_idle(self, user_id: i32) -> bool {
        self.users.contains_key(user_id) && self.users[user_id].current_room_id == NO_ROOM
    }

    /// Whether `room_id` is live and lists `user_id` as a member.
    pub open spec fn is_member(self, room_id: i32, user_id: i32) -> bool {
        self.rooms.contains_key(room_id) && self.rooms[room_id].user_ids.contains(user_id)
    }

    /// The number of members of `room_id`; 0 where the room is not live.
    pub open spec fn room_size(self, room_id: i32) -> nat {
        if self.rooms.contains_key(room_id) {
            self.rooms[room_id].user_ids.len()
        } else {
            0
        }
    }

    /// The precondition of creating a room: the requester is connected and
    /// occupies no room.
    pub open spec fn may_create_room(self, requester_id: i32) -> bool {
        self.is_idle(requester_id)
    }

    /// The precondition of joining: the room is live and public, the peer is
    /// connected and occupies no room, and the peer is not among `blocked`.
    pub open spec fn may_join_room(self, room_id: i32, peer_id: i32, blocked: Set<i32>) -> bool {
        &&& self.rooms.contains_key(room_id)
        &&& self.is_idle(peer_id)
        &&& self.rooms[room_id].public
        &&& !blocked.contains(peer_id)
    }

    /// The precondition shared by blocking, the speaker operations and the
    /// hand operations: the room is live and both the requester and the
    /// peer are members of it.
    pub open spec fn both_in_room(self, room_id: i32, requester_id: i32, peer_id: i32) -> bool {
        self.is_member(room_id, requester_id) && self.is_member(room_id, peer_id)
    }

    /// The world after `user` has connected.
    pub open spec fn connect(self, user: User) -> WorldView {
        WorldView { users: self.users.insert(user.user_id, user), ..self }
    }
}

/// In a consistent world, whoever appears in any set of a live room is
/// connected, and whoever is placed in a room is placed in a live room that
/// lists them as a member.
pub proof fn lemma_users_and_rooms_agree(world: WorldView)
    requires
        world.wf(),
    ensures
        forall|r: i32, u: i32|
            world.rooms.contains_key(r) && (world.rooms[r].user_ids.contains(u)
                || world.rooms[r].muted.contains(u) || world.rooms[r].deaf.contains(u)
                || world.rooms[r].speakers.contains(u) || world.rooms[r].raised_hands.contains(u))
                ==> world.users.contains_key(u),
        forall|u: i32|
            world.users.contains_key(u) && world.users[u].current_room_id != NO_ROOM
                ==> world.is_member(world.users[u].current_room_id, u),
        forall|r: i32| world.rooms.contains_key(r) ==> world.is_member(r, world.rooms[r].owner_user_id),
{
    assert forall|r: i32, u: i32|
        world.rooms.contains_key(r) && (world.rooms[r].user_ids.contains(u)
            || world.rooms[r].muted.contains(u) || world.rooms[r].deaf.contains(u)
            || world.rooms[r].speakers.contains(u) || world.rooms[r].raised_hands.contains(
            u,
        )) implies world.users.contains_key(u) by {
        assert(world.room_wf(r));
        assert(world.rooms[r].user_ids.contains(u));
    }
    assert forall|u: i32|
        world.users.contains_key(u) && world.users[u].current_room_id
            != NO_ROOM implies world.is_member(world.users[u].current_room_id, u) by {
        assert(world.user_wf(u));
    }
    assert forall|r: i32| world.rooms.contains_key(r) implies world.is_member(
        r,
        world.rooms[r].owner_user_id,
    ) by {
        assert(world.room_wf(r));
    }
}

/// In a consistent world nobody is a member of two rooms: the rooms that
/// list a user are one and the same, the one that the user is placed in.
pub proof fn lemma_at_most_one_room(world: WorldView, user_id: i32, first: i32, second: i32)
    requires
        world.wf(),
        world.is_member(first, user_id),
        world.is_member(second, user_id),
    ensures
        first == second,
        world.users.contains_key(user_id),
        world.users[user_id].current_room_id == first,
{
    assert(world.room_wf(first));
    assert(world.room_wf(second));
}

/// The world model. A value of this type is consistent at every moment at
/// which it can be observed: see `WorldView::wf`.
pub struct ServerState {
    pub(crate) active_users: HashMap<i32, User>,
    pub(crate) rooms: HashMap<i32, Room>,
}

impl View for ServerState {
    type V = WorldView;

    open(crate) spec fn view(&self) -> WorldView {
        WorldView { users: self.active_users@, rooms: self.rooms@.map_values(|r: Room| r@) }
    }
}

impl ServerState {
    #[verifier::type_invariant]
    pub open(crate) spec fn consistent(&self) -> bool {
        self@.wf()
    }

    /// The empty world.
    pub fn new() -> (state: Self)
        ensures
            state@ == WorldView::empty(),
            state@.wf(),
    {
        let active_users: HashMap<i32, User> = HashMap::new();
        let rooms: HashMap<i32, Room> = HashMap::new();
        proof {
            let world = WorldView { users: active_users@, rooms: rooms@.map_values(|r: Room| r@) };
            assert(world.rooms =~= Map::<i32, RoomView>::empty());
            assert(world.users.dom().finite());
            assert(world.rooms.dom() =~= Set::<i32>::empty());
            assert(world.wf());
        }
        ServerState { active_users, rooms }
    }

    /// States what holds of every world: it is consistent.
    pub fn check_consistency(&self)
        ensures
            self@.wf(),
    {
        proof {
            use_type_invariant(self);
        }
    }

    /// Registers a client that has just authenticated. Nothing changes if
    /// the id is already connected.
    pub fn connect_user(&mut self, user_id: i32) -> (connected: bool)
        ensures
            connected == !old(self)@.users.contains_key(user_id),
            final(self)@ == (if connected {
                old(self)@.connect(User::fresh(user_id))
            } else {
                old(self)@
            }),
            final(self)@.wf(),
    {
        proof {
            use_type_invariant(&*self);
        }
        if self.active_users.contains_key(&user_id) {
            return false;
        }
        let mut world = ServerState::new();
        std::mem::swap(self, &mut world);
        let ServerState { mut active_users, rooms } = world;
        active_users.insert(
            user_id,
            User { user_id, muted: false, deaf: false, current_room_id: NO_ROOM },
        );
        proof {
            let post = WorldView { users: active_users@, rooms: rooms@.map_values(|r: Room| r@) };
            assert(post == old(self)@.connect(User::fresh(user_id)));
            assert(post.wf());
        }
        *self = ServerState { active_users, rooms };
        true
    }

    /// The entry of `user_id`, if connected.
    pub fn user(&self, user_id: i32) -> (found: Option<User>)
        ensures
            found == (if self@.users.contains_key(user_id) {
                Some(self@.users[user_id])
            } else {
                None
            }),
    {
        match self.active_users.get(&user_id) {
            Some(user) => Some(*user),
            None => None,
        }
    }

    /// The room `room_id`, if live.
    pub fn room(&self, room_id: i32) -> (found: Option<&Room>)
        ensures
            match found {
                Some(room) => self@.rooms.contains_key(room_id) && room@ == self@.rooms[room_id],
                None => !self@.rooms.contains_key(room_id),
            },
    {
        self.rooms.get(&room_id)
    }

    /// The ids of the live rooms, each once, in no particular order.
    pub fn room_ids(&self) -> (ids: Vec<i32>)
        ensures
            ids@.no_duplicates(),
            forall|r: i32| ids@.contains(r) <==> self@.rooms.contains_key(r),
    {
        let mut ids: Vec<i32> = Vec::new();
        let ghost walk = spec_keys_iter(&self.rooms).remaining();
        for id in it: self.rooms.keys()
            invariant
                it.seq() == walk,
                walk == spec_keys_iter(&self.rooms).remaining(),
                ids@ == walk.unref().take(it.index()),
        {
            ids.push(*id);
        }
        proof {
            assert(ids@ == walk.unref());
            assert(walk.unref().to_set() == self.rooms@.dom());
            assert forall|i: int, j: int| 0 <= i < j < ids@.len() implies ids@[i] != ids@[j] by {
                assert(walk[i] != walk[j]);
            }
            assert forall|r: i32| ids@.contains(r) <==> self@.rooms.contains_key(r) by {
                assert(ids@.contains(r) <==> ids@.to_set().contains(r));
            }
        }
        ids
    }

    /// The members of `room_id`, each once, in no particular order; none
    /// where the room is not live.
    pub fn room_member_ids(&self, room_id: i32) -> (ids: Vec<i32>)
        ensures
            ids@.no_duplicates(),
            forall|u: i32| ids@.contains(u) <==> self@.is_member(room_id, u),
    {
        let mut ids: Vec<i32> = Vec::new();
        match self.rooms.get(&room_id) {
            Some(room) => {
                let ghost walk = spec_hash_keys_iter(&room.user_ids).remaining();
                for id in it: room.user_ids.iter()
                    invariant
                        it.seq() == walk,
                        walk == spec_hash_keys_iter(&room.user_ids).remaining(),
                        ids@ == walk.unref().take(it.index()),
                {
                    ids.push(*id);
                }
                proof {
                    assert(ids@ == walk.unref());
                    assert(walk.unref().to_set() == room.user_ids@);
                    assert forall|i: int, j: int| 0 <= i < j < ids@.len() implies ids@[i]
                        != ids@[j] by {
                        assert(walk[i] != walk[j]);
                    }
                    assert forall|u: i32| ids@.contains(u) <==> self@.is_member(room_id, u) by {
                        assert(ids@.contains(u) <==> ids@.to_set().contains(u));
                    }
                }
            },
            None => {},
        }
        ids
    }

    /// The number of members of `room_id`; 0 where the room is not live.
    pub fn room_size(&self, room_id: i32) -> (size: usize)
        ensures
            size == self@.room_size(room_id),
    {
        match self.rooms.get(&room_id) {
            Some(room) => room.user_ids.len(),
            None => 0,
        }
    }

    /// Whether `user_id` is connected and occupies no room.
    pub fn is_idle(&self, user_id: i32) -> (idle: bool)
        ensures
            idle == self@.is_idle(user_id),
    {
        match self.active_users.get(&user_id) {
            Some(user) => user.current_room_id == NO_ROOM,
            None => false,
        }
    }

    /// Evaluates the precondition of creating a room.
    pub fn may_create_room(&self, requester_id: i32) -> (allowed: bool)
        ensures
            allowed == self@.may_create_room(requester_id),
    {
        self.is_idle(requester_id)
    }

    /// Evaluates the precondition of joining, against the blocked ids that
    /// the store reported for the room.
    pub fn may_join_room(&self, room_id: i32, peer_id: i32, blocked: &UserIdsResult) -> (allowed:
        bool)
        ensures
            allowed == self@.may_join_room(room_id, peer_id, blocked.reported()),
    {
        match self.rooms.get(&room_id) {
            Some(room) => self.is_idle(peer_id) && room.public && !blocked.reports(peer_id),
            None => false,
        }
    }

    /// Evaluates the precondition that both the requester and the peer are
    /// members of the room.
    pub fn both_in_room(&self, room_id: i32, requester_id: i32, peer_id: i32) -> (both: bool)
        ensures
            both == self@.both_in_room(room_id, requester_id, peer_id),
    {
        match self.rooms.get(&room_id) {
            Some(room) => room.user_ids.contains(&requester_id) && room.user_ids.contains(
                &peer_id,
            ),
            None => false,
        }
    }

    /// Whether `room_id` is live and lists `user_id` as a member.
    pub fn is_member(&self, room_id: i32, user_id: i32) -> (member: bool)
        ensures
            member == self@.is_member(room_id, user_id),
    {
        match self.rooms.get(&room_id) {
            Some(room) => room.user_ids.contains(&user_id),
            None => false,
        }
    }
}

} // verus!
