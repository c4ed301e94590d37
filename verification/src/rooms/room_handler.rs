//! The transitions that commit an authorised operation to the world.
//!
//! Each transition is to be called with the exclusive view of the world
//! held. It evaluates the operation's precondition once more, against the
//! world as it is at that moment, and leaves the world untouched where the
//! precondition no longer holds: a request that was judged on a snapshot
//! which has since gone stale is turned away here.

use crate::communication::data_fetcher::UserIdsResult;
use crate::communication::types::DeafAndMuteStatusUpdate;
use crate::state::state::{lemma_at_most_one_room, ServerState, WorldView};
use crate::state::state_types::{Room, RoomView, User, NO_ROOM};
use std::collections::{HashMap, HashSet};
use vstd::prelude::*;
use vstd::std_specs::hash::spec_hash_keys_iter;
use vstd::std_specs::iter::IteratorSpec;

verus! {

broadcast use vstd::std_specs::hash::group_hash_axioms;

/// What the store and the voice server assigned to a room when it was
/// registered with them.
pub struct RoomRegistration {
    pub room_id: i32,
    pub voice_server_id: String,
    pub chat_mode: String,
    pub chat_throttle: i32,
    pub auto_speaker: bool,
    pub created_at: String,
}

impl RoomView {
    /// The room as it stands right after `owner` has created it: the owner
    /// is its only member and its only speaker, and nobody has a hand up.
    pub open spec fn opened(
        owner: User,
        registration: RoomRegistration,
        name: Seq<char>,
        desc: Seq<char>,
        public: bool,
    ) -> RoomView {
        RoomView {
            room_id: registration.room_id,
            owner_user_id: owner.user_id,
            muted: if owner.muted {
                set![owner.user_id]
            } else {
                Set::empty()
            },
            voice_server_id: registration.voice_server_id@,
            deaf: if owner.deaf {
                set![owner.user_id]
            } else {
                Set::empty()
            },
            user_ids: set![owner.user_id],
            public,
            chat_mode: registration.chat_mode@,
            auto_speaker: registration.auto_speaker,
            speakers: set![owner.user_id],
            raised_hands: Set::empty(),
            name,
            desc,
            chat_throttle: registration.chat_throttle,
            created_at: registration.created_at@,
        }
    }
}

impl WorldView {
    /// Whether a room may be opened under `room_id` for `requester_id`: the
    /// precondition of creating a room holds, and the id is free and is not
    /// `NO_ROOM`.
    pub open spec fn may_open_room(self, requester_id: i32, room_id: i32) -> bool {
        &&& self.may_create_room(requester_id)
        &&& room_id != NO_ROOM
        &&& !self.rooms.contains_key(room_id)
    }

    /// The world after `room` has been opened and its owner placed in it.
    pub open spec fn with_room_opened(self, room: RoomView) -> WorldView {
        WorldView {
            users: self.users.insert(
                room.owner_user_id,
                self.users[room.owner_user_id].placed_in(room.room_id),
            ),
            rooms: self.rooms.insert(room.room_id, room),
        }
    }

    /// The world after `peer_id` has joined `room_id`.
    pub open spec fn with_member_joined(self, room_id: i32, peer_id: i32) -> WorldView {
        WorldView {
            users: self.users.insert(peer_id, self.users[peer_id].placed_in(room_id)),
            rooms: self.rooms.insert(room_id, self.rooms[room_id].with_member(self.users[peer_id])),
        }
    }

    /// Whether `requester_id` may block `user_id` from `room_id`: both are
    /// members, the requester owns the room, and the two differ.
    pub open spec fn may_block_user(self, room_id: i32, requester_id: i32, user_id: i32) -> bool {
        &&& self.both_in_room(room_id, requester_id, user_id)
        &&& self.rooms[room_id].owner_user_id == requester_id
        &&& user_id != requester_id
    }

    /// The world after `user_id` has been put out of `room_id`.
    pub open spec fn with_member_removed(self, room_id: i32, user_id: i32) -> WorldView {
        WorldView {
            users: self.users.insert(user_id, self.users[user_id].placed_in(NO_ROOM)),
            rooms: self.rooms.insert(room_id, self.rooms[room_id].without_member(user_id)),
        }
    }

    /// The world after `room_id` has been torn down: the room is gone and
    /// each of its members occupies no room.
    pub open spec fn with_room_destroyed(self, room_id: i32) -> WorldView {
        WorldView {
            users: Map::new(
                |u: i32| self.users.contains_key(u),
                |u: i32|
                    if self.rooms[room_id].user_ids.contains(u) {
                        self.users[u].placed_in(NO_ROOM)
                    } else {
                        self.users[u]
                    },
            ),
            rooms: self.rooms.remove(room_id),
        }
    }

    /// Whether `user_id` is connected and occupies a room.
    pub open spec fn occupies_a_room(self, user_id: i32) -> bool {
        self.users.contains_key(user_id) && self.users[user_id].current_room_id != NO_ROOM
    }

    /// The world after `user_id` has left the room it occupies. A room
    /// that its owner leaves is torn down.
    pub open spec fn with_room_left(self, user_id: i32) -> WorldView {
        let room_id = self.users[user_id].current_room_id;
        if self.rooms[room_id].owner_user_id == user_id {
            self.with_room_destroyed(room_id)
        } else {
            self.with_member_removed(room_id, user_id)
        }
    }

    /// The world after `user_id` has disconnected: the user has left the
    /// room it occupied, if any, and is gone.
    pub open spec fn with_user_gone(self, user_id: i32) -> WorldView {
        let left = if self.occupies_a_room(user_id) {
            self.with_room_left(user_id)
        } else {
            self
        };
        WorldView { users: left.users.remove(user_id), ..left }
    }

    /// The world after `user_id` has set its presence flags: the user's
    /// entry carries them, and so do the overlays of the room that the user
    /// occupies, if any.
    pub open spec fn with_presence(self, user_id: i32, muted: bool, deaf: bool) -> WorldView {
        let user = self.users[user_id];
        let room_id = user.current_room_id;
        WorldView {
            users: self.users.insert(user_id, User { muted, deaf, ..user }),
            rooms: if room_id != NO_ROOM {
                self.rooms.insert(room_id, self.rooms[room_id].with_presence(user_id, muted, deaf))
            } else {
                self.rooms
            },
        }
    }

    /// The world after the speakers of `room_id` have been replaced.
    pub open spec fn with_speakers(self, room_id: i32, speakers: Set<i32>) -> WorldView {
        WorldView {
            rooms: self.rooms.insert(room_id, RoomView { speakers, ..self.rooms[room_id] }),
            ..self
        }
    }

    /// The world after the raised hands of `room_id` have been replaced.
    pub open spec fn with_raised_hands(self, room_id: i32, raised_hands: Set<i32>) -> WorldView {
        WorldView {
            rooms: self.rooms.insert(room_id, RoomView { raised_hands, ..self.rooms[room_id] }),
            ..self
        }
    }
}

/// Opening a room keeps the world consistent.
pub proof fn lemma_room_opened_wf(world: WorldView, room: RoomView)
    requires
        world.wf(),
        world.may_open_room(room.owner_user_id, room.room_id),
        room.wf(),
        room.user_ids == set![room.owner_user_id],
    ensures
        world.with_room_opened(room).wf(),
{
    let next = world.with_room_opened(room);
    assert forall|u: i32| #[trigger] next.users.contains_key(u) implies next.user_wf(u) by {
        if u != room.owner_user_id {
            assert(world.users.contains_key(u));
            assert(world.user_wf(u));
        }
    }
    assert forall|r: i32| #[trigger] next.rooms.contains_key(r) implies next.room_wf(r) by {
        if r != room.room_id {
            assert(world.rooms.contains_key(r));
            assert(world.room_wf(r));
        }
    }
}

/// A join that meets its precondition keeps the world consistent.
pub proof fn lemma_member_joined_wf(world: WorldView, room_id: i32, peer_id: i32, blocked: Set<i32>)
    requires
        world.wf(),
        world.may_join_room(room_id, peer_id, blocked),
    ensures
        world.with_member_joined(room_id, peer_id).wf(),
{
    let next = world.with_member_joined(room_id, peer_id);
    assert(world.room_wf(room_id));
    assert(world.user_wf(peer_id));
    assert forall|u: i32| #[trigger] next.users.contains_key(u) implies next.user_wf(u) by {
        if u != peer_id {
            assert(world.users.contains_key(u));
            assert(world.user_wf(u));
        }
    }
    assert forall|r: i32| #[trigger] next.rooms.contains_key(r) implies next.room_wf(r) by {
        assert(world.rooms.contains_key(r));
        assert(world.room_wf(r));
    }
}

/// Putting a member other than the owner out of a room keeps the world
/// consistent.
pub proof fn lemma_member_removed_wf(world: WorldView, room_id: i32, user_id: i32)
    requires
        world.wf(),
        world.is_member(room_id, user_id),
        world.rooms[room_id].owner_user_id != user_id,
    ensures
        world.with_member_removed(room_id, user_id).wf(),
{
    let next = world.with_member_removed(room_id, user_id);
    assert(world.room_wf(room_id));
    assert(world.user_wf(user_id));
    assert forall|u: i32| #[trigger] next.users.contains_key(u) implies next.user_wf(u) by {
        if u != user_id {
            assert(world.users.contains_key(u));
            assert(world.user_wf(u));
        }
    }
    assert forall|r: i32| #[trigger] next.rooms.contains_key(r) implies next.room_wf(r) by {
        assert(world.rooms.contains_key(r));
        assert(world.room_wf(r));
    }
}

/// Tearing a room down keeps the world consistent.
pub proof fn lemma_room_destroyed_wf(world: WorldView, room_id: i32)
    requires
        world.wf(),
        world.rooms.contains_key(room_id),
    ensures
        world.with_room_destroyed(room_id).wf(),
{
    let next = world.with_room_destroyed(room_id);
    assert(next.users.dom() =~= world.users.dom());
    assert(world.room_wf(room_id));
    assert forall|u: i32| #[trigger] next.users.contains_key(u) implies next.user_wf(u) by {
        assert(world.user_wf(u));
        if !world.rooms[room_id].user_ids.contains(u) {
            let placed = world.users[u].current_room_id;
            if placed != NO_ROOM {
                assert(world.room_wf(placed));
            }
        }
    }
    assert forall|r: i32| #[trigger] next.rooms.contains_key(r) implies next.room_wf(r) by {
        assert(world.rooms.contains_key(r));
        assert(world.room_wf(r));
        assert forall|u: i32| #[trigger] next.rooms[r].user_ids.contains(u) implies next.users[u]
            == world.users[u] by {
            if world.rooms[room_id].user_ids.contains(u) {
                lemma_at_most_one_room(world, u, r, room_id);
            }
        }
    }
}

/// Leaving a room keeps the world consistent.
pub proof fn lemma_room_left_wf(world: WorldView, user_id: i32)
    requires
        world.wf(),
        world.occupies_a_room(user_id),
    ensures
        world.with_room_left(user_id).wf(),
{
    assert(world.user_wf(user_id));
    let room_id = world.users[user_id].current_room_id;
    if world.rooms[room_id].owner_user_id == user_id {
        lemma_room_destroyed_wf(world, room_id);
    } else {
        lemma_member_removed_wf(world, room_id, user_id);
    }
}

/// A disconnect keeps the world consistent.
pub proof fn lemma_user_gone_wf(world: WorldView, user_id: i32)
    requires
        world.wf(),
    ensures
        world.with_user_gone(user_id).wf(),
        !world.with_user_gone(user_id).users.contains_key(user_id),
{
    let next = world.with_user_gone(user_id);
    let left = if world.occupies_a_room(user_id) {
        world.with_room_left(user_id)
    } else {
        world
    };
    if world.occupies_a_room(user_id) {
        lemma_room_left_wf(world, user_id);
        assert(world.user_wf(user_id));
    }
    assert(left.wf());
    assert(left.users.contains_key(user_id) ==> left.users[user_id].current_room_id == NO_ROOM);
    assert forall|u: i32| #[trigger] next.users.contains_key(u) implies next.user_wf(u) by {
        assert(left.user_wf(u));
    }
    assert forall|r: i32| #[trigger] next.rooms.contains_key(r) implies next.room_wf(r) by {
        assert(left.room_wf(r));
    }
}

/// A change of presence keeps the world consistent.
pub proof fn lemma_presence_wf(world: WorldView, user_id: i32, muted: bool, deaf: bool)
    requires
        world.wf(),
        world.users.contains_key(user_id),
    ensures
        world.with_presence(user_id, muted, deaf).wf(),
{
    let next = world.with_presence(user_id, muted, deaf);
    assert(world.user_wf(user_id));
    let room_id = world.users[user_id].current_room_id;
    if room_id != NO_ROOM {
        assert(world.room_wf(room_id));
    }
    assert forall|u: i32| #[trigger] next.users.contains_key(u) implies next.user_wf(u) by {
        assert(world.users.contains_key(u));
        assert(world.user_wf(u));
    }
    assert forall|r: i32| #[trigger] next.rooms.contains_key(r) implies next.room_wf(r) by {
        assert(world.rooms.contains_key(r));
        assert(world.room_wf(r));
    }
}

/// Replacing a room's speakers by a set of its members keeps the world
/// consistent.
pub proof fn lemma_speakers_wf(world: WorldView, room_id: i32, speakers: Set<i32>)
    requires
        world.wf(),
        world.rooms.contains_key(room_id),
        speakers.subset_of(world.rooms[room_id].user_ids),
    ensures
        world.with_speakers(room_id, speakers).wf(),
{
    let next = world.with_speakers(room_id, speakers);
    assert(world.room_wf(room_id));
    assert forall|u: i32| #[trigger] next.users.contains_key(u) implies next.user_wf(u) by {
        assert(world.user_wf(u));
    }
    assert forall|r: i32| #[trigger] next.rooms.contains_key(r) implies next.room_wf(r) by {
        assert(world.rooms.contains_key(r));
        assert(world.room_wf(r));
    }
}

/// Replacing a room's raised hands by a set of its members keeps the world
/// consistent.
pub proof fn lemma_raised_hands_wf(world: WorldView, room_id: i32, raised_hands: Set<i32>)
    requires
        world.wf(),
        world.rooms.contains_key(room_id),
        raised_hands.subset_of(world.rooms[room_id].user_ids),
    ensures
        world.with_raised_hands(room_id, raised_hands).wf(),
{
    let next = world.with_raised_hands(room_id, raised_hands);
    assert(world.room_wf(room_id));
    assert forall|u: i32| #[trigger] next.users.contains_key(u) implies next.user_wf(u) by {
        assert(world.user_wf(u));
    }
    assert forall|r: i32| #[trigger] next.rooms.contains_key(r) implies next.room_wf(r) by {
        assert(world.rooms.contains_key(r));
        assert(world.room_wf(r));
    }
}

/// Of two joins of one user, only one can win: once the user has joined a
/// room, the precondition of joining fails for that user, whatever the
/// room and whatever the store reported as blocked.
pub proof fn lemma_second_join_fails(
    world: WorldView,
    user_id: i32,
    first: i32,
    first_blocked: Set<i32>,
    second: i32,
    second_blocked: Set<i32>,
)
    requires
        world.wf(),
        world.may_join_room(first, user_id, first_blocked),
    ensures
        !world.with_member_joined(first, user_id).may_join_room(second, user_id, second_blocked),
        world.with_member_joined(first, user_id).is_member(first, user_id),
{
}

/// Opens a room for `requester_id` and places the requester in it.
///
/// The room is opened where the requester is connected and occupies no
/// room, and the registered id is free and is not `NO_ROOM`. Otherwise
/// nothing changes and the result is `false`.
pub fn create_room(
    state: &mut ServerState,
    requester_id: i32,
    registration: RoomRegistration,
    name: String,
    desc: String,
    public: bool,
) -> (created: bool)
    ensures
        created == old(state)@.may_open_room(requester_id, registration.room_id),
        final(state)@ == (if created {
            old(state)@.with_room_opened(
                RoomView::opened(
                    old(state)@.users[requester_id],
                    registration,
                    name@,
                    desc@,
                    public,
                ),
            )
        } else {
            old(state)@
        }),
        final(state)@.wf(),
{
    proof {
        use_type_invariant(&*state);
    }
    let room_id = registration.room_id;
    if !state.may_create_room(requester_id) || room_id == NO_ROOM || state.rooms.contains_key(
        &room_id,
    ) {
        return false;
    }
    let mut world = ServerState::new();
    std::mem::swap(state, &mut world);
    let ServerState { mut active_users, mut rooms } = world;
    let owner = *active_users.get(&requester_id).unwrap();
    let mut user_ids: HashSet<i32> = HashSet::new();
    user_ids.insert(requester_id);
    let mut speakers: HashSet<i32> = HashSet::new();
    speakers.insert(requester_id);
    let mut muted: HashSet<i32> = HashSet::new();
    if owner.muted {
        muted.insert(requester_id);
    }
    let mut deaf: HashSet<i32> = HashSet::new();
    if owner.deaf {
        deaf.insert(requester_id);
    }
    let ghost opened = RoomView::opened(owner, registration, name@, desc@, public);
    let room = Room {
        room_id,
        owner_user_id: requester_id,
        muted,
        voice_server_id: registration.voice_server_id,
        deaf,
        user_ids,
        public,
        chat_mode: registration.chat_mode,
        auto_speaker: registration.auto_speaker,
        speakers,
        raised_hands: HashSet::new(),
        name,
        desc,
        chat_throttle: registration.chat_throttle,
        created_at: registration.created_at,
    };
    proof {
        assert(old(state)@.user_wf(requester_id));
        assert(room@.user_ids =~= opened.user_ids);
        assert(room@.speakers =~= opened.speakers);
        assert(room@.muted =~= opened.muted);
        assert(room@.deaf =~= opened.deaf);
        assert(room@ == opened);
    }
    rooms.insert(room_id, room);
    active_users.insert(
        requester_id,
        User { user_id: owner.user_id, muted: owner.muted, deaf: owner.deaf, current_room_id: room_id },
    );
    proof {
        let post = WorldView { users: active_users@, rooms: rooms@.map_values(|r: Room| r@) };
        assert(post.rooms =~= old(state)@.rooms.insert(room_id, opened));
        assert(post == old(state)@.with_room_opened(opened));
        lemma_room_opened_wf(old(state)@, opened);
    }
    *state = ServerState { active_users, rooms };
    true
}

/// Places `peer_id` in `room_id`.
///
/// The peer joins where the room is live and public, the peer is connected
/// and occupies no room, and the store did not report the peer among the
/// ids blocked from the room. Otherwise nothing changes and the result is
/// `false`.
pub fn join_room(state: &mut ServerState, room_id: i32, peer_id: i32, blocked: &UserIdsResult) -> (joined:
    bool)
    ensures
        joined == old(state)@.may_join_room(room_id, peer_id, blocked.reported()),
        final(state)@ == (if joined {
            old(state)@.with_member_joined(room_id, peer_id)
        } else {
            old(state)@
        }),
        final(state)@.wf(),
{
    proof {
        use_type_invariant(&*state);
    }
    if !state.may_join_room(room_id, peer_id, blocked) {
        return false;
    }
    let mut world = ServerState::new();
    std::mem::swap(state, &mut world);
    let ServerState { mut active_users, mut rooms } = world;
    let peer = *active_users.get(&peer_id).unwrap();
    let mut room = rooms.remove(&room_id).unwrap();
    room.user_ids.insert(peer_id);
    if peer.muted {
        room.muted.insert(peer_id);
    }
    if peer.deaf {
        room.deaf.insert(peer_id);
    }
    proof {
        assert(old(state)@.user_wf(peer_id));
        assert(room@ == old(state)@.rooms[room_id].with_member(peer));
    }
    rooms.insert(room_id, room);
    active_users.insert(
        peer_id,
        User { user_id: peer.user_id, muted: peer.muted, deaf: peer.deaf, current_room_id: room_id },
    );
    proof {
        let post = WorldView { users: active_users@, rooms: rooms@.map_values(|r: Room| r@) };
        let next = old(state)@.with_member_joined(room_id, peer_id);
        assert(post.rooms =~= next.rooms);
        assert(post == next);
        lemma_member_joined_wf(old(state)@, room_id, peer_id, blocked.reported());
    }
    *state = ServerState { active_users, rooms };
    true
}

/// Puts `user_id` out of `room_id` at the request of `requester_id`.
///
/// The user is put out where both are members of the room, the requester
/// owns it, and the two differ. The user then occupies no room and appears
/// in none of the room's sets. Otherwise nothing changes and the result is
/// `false`.
pub fn block_user_from_room(
    user_id: i32,
    room_id: i32,
    requester_id: i32,
    state: &mut ServerState,
) -> (blocked: bool)
    ensures
        blocked == old(state)@.may_block_user(room_id, requester_id, user_id),
        final(state)@ == (if blocked {
            old(state)@.with_member_removed(room_id, user_id)
        } else {
            old(state)@
        }),
        final(state)@.wf(),
{
    proof {
        use_type_invariant(&*state);
    }
    if !state.both_in_room(room_id, requester_id, user_id) || user_id == requester_id {
        return false;
    }
    if state.rooms.get(&room_id).unwrap().owner_user_id != requester_id {
        return false;
    }
    let mut world = ServerState::new();
    std::mem::swap(state, &mut world);
    let ServerState { mut active_users, mut rooms } = world;
    proof {
        assert(old(state)@.room_wf(room_id));
    }
    let user = *active_users.get(&user_id).unwrap();
    let mut room = rooms.remove(&room_id).unwrap();
    room.user_ids.remove(&user_id);
    room.muted.remove(&user_id);
    room.deaf.remove(&user_id);
    room.speakers.remove(&user_id);
    room.raised_hands.remove(&user_id);
    proof {
        assert(old(state)@.user_wf(user_id));
        assert(room@ == old(state)@.rooms[room_id].without_member(user_id));
    }
    rooms.insert(room_id, room);
    active_users.insert(
        user_id,
        User { user_id: user.user_id, muted: user.muted, deaf: user.deaf, current_room_id: NO_ROOM },
    );
    proof {
        let post = WorldView { users: active_users@, rooms: rooms@.map_values(|r: Room| r@) };
        let next = old(state)@.with_member_removed(room_id, user_id);
        assert(post.rooms =~= next.rooms);
        assert(post == next);
        lemma_member_removed_wf(old(state)@, room_id, user_id);
    }
    *state = ServerState { active_users, rooms };
    true
}

/// Makes `peer_id` a speaker of `room_id` at the request of `requester_id`.
///
/// Applied where both are members of the room. Otherwise nothing changes
/// and the result is `false`.
pub fn add_speaker(room_id: i32, peer_id: i32, requester_id: i32, state: &mut ServerState) -> (applied:
    bool)
    ensures
        applied == old(state)@.both_in_room(room_id, requester_id, peer_id),
        final(state)@ == (if applied {
            old(state)@.with_speakers(
                room_id,
                old(state)@.rooms[room_id].speakers.insert(peer_id),
            )
        } else {
            old(state)@
        }),
        final(state)@.wf(),
{
    proof {
        use_type_invariant(&*state);
    }
    if !state.both_in_room(room_id, requester_id, peer_id) {
        return false;
    }
    let mut world = ServerState::new();
    std::mem::swap(state, &mut world);
    let ServerState { active_users, mut rooms } = world;
    let mut room = rooms.remove(&room_id).unwrap();
    room.speakers.insert(peer_id);
    rooms.insert(room_id, room);
    proof {
        let post = WorldView { users: active_users@, rooms: rooms@.map_values(|r: Room| r@) };
        let speakers = old(state)@.rooms[room_id].speakers.insert(peer_id);
        let next = old(state)@.with_speakers(room_id, speakers);
        assert(old(state)@.room_wf(room_id));
        assert(post.rooms =~= next.rooms);
        assert(post == next);
        lemma_speakers_wf(old(state)@, room_id, speakers);
    }
    *state = ServerState { active_users, rooms };
    true
}

/// Takes `peer_id` from the speakers of `room_id` at the request of
/// `requester_id`.
///
/// Applied where both are members of the room. Otherwise nothing changes
/// and the result is `false`.
pub fn remove_speaker(room_id: i32, peer_id: i32, requester_id: i32, state: &mut ServerState) -> (applied:
    bool)
    ensures
        applied == old(state)@.both_in_room(room_id, requester_id, peer_id),
        final(state)@ == (if applied {
            old(state)@.with_speakers(
                room_id,
                old(state)@.rooms[room_id].speakers.remove(peer_id),
            )
        } else {
            old(state)@
        }),
        final(state)@.wf(),
{
    proof {
        use_type_invariant(&*state);
    }
    if !state.both_in_room(room_id, requester_id, peer_id) {
        return false;
    }
    let mut world = ServerState::new();
    std::mem::swap(state, &mut world);
    let ServerState { active_users, mut rooms } = world;
    let mut room = rooms.remove(&room_id).unwrap();
    room.speakers.remove(&peer_id);
    rooms.insert(room_id, room);
    proof {
        let post = WorldView { users: active_users@, rooms: rooms@.map_values(|r: Room| r@) };
        let speakers = old(state)@.rooms[room_id].speakers.remove(peer_id);
        let next = old(state)@.with_speakers(room_id, speakers);
        assert(old(state)@.room_wf(room_id));
        assert(post.rooms =~= next.rooms);
        assert(post == next);
        lemma_speakers_wf(old(state)@, room_id, speakers);
    }
    *state = ServerState { active_users, rooms };
    true
}

/// Raises the hand of `requester_id` in `room_id`.
///
/// Applied where both the requester and `peer_id` are members of the room.
/// Otherwise nothing changes and the result is `false`.
pub fn raise_hand(state: &mut ServerState, room_id: i32, peer_id: i32, requester_id: i32) -> (applied:
    bool)
    ensures
        applied == old(state)@.both_in_room(room_id, requester_id, peer_id),
        final(state)@ == (if applied {
            old(state)@.with_raised_hands(
                room_id,
                old(state)@.rooms[room_id].raised_hands.insert(requester_id),
            )
        } else {
            old(state)@
        }),
        final(state)@.wf(),
{
    proof {
        use_type_invariant(&*state);
    }
    if !state.both_in_room(room_id, requester_id, peer_id) {
        return false;
    }
    let mut world = ServerState::new();
    std::mem::swap(state, &mut world);
    let ServerState { active_users, mut rooms } = world;
    let mut room = rooms.remove(&room_id).unwrap();
    room.raised_hands.insert(requester_id);
    rooms.insert(room_id, room);
    proof {
        let post = WorldView { users: active_users@, rooms: rooms@.map_values(|r: Room| r@) };
        let raised = old(state)@.rooms[room_id].raised_hands.insert(requester_id);
        let next = old(state)@.with_raised_hands(room_id, raised);
        assert(old(state)@.room_wf(room_id));
        assert(post.rooms =~= next.rooms);
        assert(post == next);
        lemma_raised_hands_wf(old(state)@, room_id, raised);
    }
    *state = ServerState { active_users, rooms };
    true
}

/// Lowers the hand of `peer_id` in `room_id` at the request of
/// `requester_id`.
///
/// Applied where both are members of the room. Otherwise nothing changes
/// and the result is `false`.
pub fn lower_hand(state: &mut ServerState, room_id: i32, peer_id: i32, requester_id: i32) -> (applied:
    bool)
    ensures
        applied == old(state)@.both_in_room(room_id, requester_id, peer_id),
        final(state)@ == (if applied {
            old(state)@.with_raised_hands(
                room_id,
                old(state)@.rooms[room_id].raised_hands.remove(peer_id),
            )
        } else {
            old(state)@
        }),
        final(state)@.wf(),
{
    proof {
        use_type_invariant(&*state);
    }
    if !state.both_in_room(room_id, requester_id, peer_id) {
        return false;
    }
    let mut world = ServerState::new();
    std::mem::swap(state, &mut world);
    let ServerState { active_users, mut rooms } = world;
    let mut room = rooms.remove(&room_id).unwrap();
    room.raised_hands.remove(&peer_id);
    rooms.insert(room_id, room);
    proof {
        let post = WorldView { users: active_users@, rooms: rooms@.map_values(|r: Room| r@) };
        let raised = old(state)@.rooms[room_id].raised_hands.remove(peer_id);
        let next = old(state)@.with_raised_hands(room_id, raised);
        assert(old(state)@.room_wf(room_id));
        assert(post.rooms =~= next.rooms);
        assert(post == next);
        lemma_raised_hands_wf(old(state)@, room_id, raised);
    }
    *state = ServerState { active_users, rooms };
    true
}

/// Sets the presence flags of a connected user.
///
/// Applied where the user is connected: the user's entry then carries the
/// flags, and so do the overlays of the room that the user occupies, if
/// any. Otherwise nothing changes and the result is `false`.
pub fn update_deaf_and_mute_status(state: &mut ServerState, update: &DeafAndMuteStatusUpdate) -> (applied:
    bool)
    ensures
        applied == old(state)@.users.contains_key(update.user_id),
        final(state)@ == (if applied {
            old(state)@.with_presence(update.user_id, update.muted, update.deaf)
        } else {
            old(state)@
        }),
        final(state)@.wf(),
{
    proof {
        use_type_invariant(&*state);
    }
    let user_id = update.user_id;
    let user = match state.user(user_id) {
        Some(user) => user,
        None => {
            return false;
        },
    };
    let mut world = ServerState::new();
    std::mem::swap(state, &mut world);
    let ServerState { mut active_users, mut rooms } = world;
    let room_id = user.current_room_id;
    proof {
        assert(old(state)@.user_wf(user_id));
    }
    if room_id != NO_ROOM {
        let mut room = rooms.remove(&room_id).unwrap();
        if update.muted {
            room.muted.insert(user_id);
        } else {
            room.muted.remove(&user_id);
        }
        if update.deaf {
            room.deaf.insert(user_id);
        } else {
            room.deaf.remove(&user_id);
        }
        proof {
            assert(room@ == old(state)@.rooms[room_id].with_presence(
                user_id,
                update.muted,
                update.deaf,
            ));
        }
        rooms.insert(room_id, room);
    }
    active_users.insert(
        user_id,
        User {
            user_id: user.user_id,
            muted: update.muted,
            deaf: update.deaf,
            current_room_id: user.current_room_id,
        },
    );
    proof {
        let post = world_of(active_users@, rooms@);
        let next = old(state)@.with_presence(user_id, update.muted, update.deaf);
        assert(post.rooms =~= next.rooms);
        assert(post.users =~= next.users);
        lemma_presence_wf(old(state)@, user_id, update.muted, update.deaf);
    }
    *state = ServerState { active_users, rooms };
    true
}

/// The world that the two tables stand for.
pub open spec fn world_of(users: Map<i32, User>, rooms: Map<i32, Room>) -> WorldView {
    WorldView { users, rooms: rooms.map_values(|r: Room| r@) }
}

/// Sends every member of `room` back to no room.
fn release_members(active_users: &mut HashMap<i32, User>, room: &Room)
    requires
        forall|u: i32| room.user_ids@.contains(u) ==> old(active_users)@.contains_key(u),
    ensures
        final(active_users)@ == Map::new(
            |u: i32| old(active_users)@.contains_key(u),
            |u: i32|
                if room.user_ids@.contains(u) {
                    old(active_users)@[u].placed_in(NO_ROOM)
                } else {
                    old(active_users)@[u]
                },
        ),
{
    let ghost before = active_users@;
    let ghost walk = spec_hash_keys_iter(&room.user_ids).remaining();
    for id in it: room.user_ids.iter()
        invariant
            it.seq() == walk,
            walk == spec_hash_keys_iter(&room.user_ids).remaining(),
            forall|u: i32| room.user_ids@.contains(u) ==> before.contains_key(u),
            active_users@ == Map::new(
                |u: i32| before.contains_key(u),
                |u: i32|
                    if walk.unref().take(it.index()).contains(u) {
                        before[u].placed_in(NO_ROOM)
                    } else {
                        before[u]
                    },
            ),
    {
        let ghost done = walk.unref().take(it.index());
        let ghost current = active_users@;
        proof {
            assert(walk.unref().to_set() == room.user_ids@);
            assert(walk.unref()[it.index()] == *id);
            assert(walk.unref().to_set().contains(*id));
        }
        let user = *active_users.get(id).unwrap();
        active_users.insert(
            *id,
            User { user_id: user.user_id, muted: user.muted, deaf: user.deaf, current_room_id: NO_ROOM },
        );
        proof {
            let longer = walk.unref().take(it.index() + 1);
            assert(longer == done.push(*id));
            assert forall|u: i32| longer.contains(u) <==> (done.contains(u) || u == *id) by {
                if done.contains(u) {
                    let i = choose|i: int| 0 <= i < done.len() && done[i] == u;
                    assert(longer[i] == u);
                }
                if u == *id {
                    assert(longer[longer.len() - 1] == u);
                }
            }
            assert(user == current[*id]);
            assert(current[*id] == before[*id] || current[*id] == before[*id].placed_in(NO_ROOM));
            assert(active_users@ =~= Map::new(
                |u: i32| before.contains_key(u),
                |u: i32|
                    if longer.contains(u) {
                        before[u].placed_in(NO_ROOM)
                    } else {
                        before[u]
                    },
            ));
        }
    }
    proof {
        let all = walk.unref();
        assert(all.take(all.len() as int) == all);
        assert(all.to_set() == room.user_ids@);
        assert forall|u: i32| all.contains(u) <==> room.user_ids@.contains(u) by {
            assert(all.contains(u) <==> all.to_set().contains(u));
        }
        assert(active_users@ =~= Map::new(
            |u: i32| before.contains_key(u),
            |u: i32|
                if room.user_ids@.contains(u) {
                    before[u].placed_in(NO_ROOM)
                } else {
                    before[u]
                },
        ));
    }
}

/// Takes `user_id` out of the room it occupies, in the two tables.
fn vacate(active_users: &mut HashMap<i32, User>, rooms: &mut HashMap<i32, Room>, user_id: i32)
    requires
        world_of(old(active_users)@, old(rooms)@).wf(),
        world_of(old(active_users)@, old(rooms)@).occupies_a_room(user_id),
    ensures
        world_of(final(active_users)@, final(rooms)@) == world_of(
            old(active_users)@,
            old(rooms)@,
        ).with_room_left(user_id),
{
    let ghost pre = world_of(active_users@, rooms@);
    let user = *active_users.get(&user_id).unwrap();
    let room_id = user.current_room_id;
    proof {
        assert(pre.user_wf(user_id));
        assert(pre.room_wf(room_id));
    }
    let mut room = rooms.remove(&room_id).unwrap();
    if room.owner_user_id == user_id {
        release_members(active_users, &room);
        proof {
            let post = world_of(active_users@, rooms@);
            let next = pre.with_room_destroyed(room_id);
            assert(post.rooms =~= next.rooms);
            assert(post.users =~= next.users);
        }
    } else {
        room.user_ids.remove(&user_id);
        room.muted.remove(&user_id);
        room.deaf.remove(&user_id);
        room.speakers.remove(&user_id);
        room.raised_hands.remove(&user_id);
        proof {
            assert(room@ == pre.rooms[room_id].without_member(user_id));
        }
        rooms.insert(room_id, room);
        active_users.insert(
            user_id,
            User { user_id: user.user_id, muted: user.muted, deaf: user.deaf, current_room_id: NO_ROOM },
        );
        proof {
            let post = world_of(active_users@, rooms@);
            let next = pre.with_member_removed(room_id, user_id);
            assert(post.rooms =~= next.rooms);
            assert(post.users =~= next.users);
        }
    }
}

/// Takes `user_id` out of the room it occupies.
///
/// Applied where the user is connected and occupies a room. A member
/// leaves the membership and every other set of the room; where the owner
/// leaves, the room is torn down and each of its members is sent back to
/// no room. Otherwise nothing changes and the result is `false`.
pub fn leave_room(state: &mut ServerState, user_id: i32) -> (left: bool)
    ensures
        left == old(state)@.occupies_a_room(user_id),
        final(state)@ == (if left {
            old(state)@.with_room_left(user_id)
        } else {
            old(state)@
        }),
        final(state)@.wf(),
{
    proof {
        use_type_invariant(&*state);
    }
    match state.user(user_id) {
        Some(user) => {
            if user.current_room_id == NO_ROOM {
                return false;
            }
        },
        None => {
            return false;
        },
    }
    let mut world = ServerState::new();
    std::mem::swap(state, &mut world);
    let ServerState { mut active_users, mut rooms } = world;
    vacate(&mut active_users, &mut rooms, user_id);
    proof {
        lemma_room_left_wf(old(state)@, user_id);
    }
    *state = ServerState { active_users, rooms };
    true
}

/// Takes a client that has disconnected out of the world.
///
/// The user first leaves the room it occupies, if any, as by `leave_room`,
/// and is then gone. Nothing changes where the id is not connected, and
/// the result is then `false`.
pub fn disconnect_user(state: &mut ServerState, user_id: i32) -> (gone: bool)
    ensures
        gone == old(state)@.users.contains_key(user_id),
        final(state)@ == (if gone {
            old(state)@.with_user_gone(user_id)
        } else {
            old(state)@
        }),
        final(state)@.wf(),
{
    proof {
        use_type_invariant(&*state);
    }
    let placed = match state.user(user_id) {
        Some(user) => user.current_room_id != NO_ROOM,
        None => {
            return false;
        },
    };
    let mut world = ServerState::new();
    std::mem::swap(state, &mut world);
    let ServerState { mut active_users, mut rooms } = world;
    if placed {
        vacate(&mut active_users, &mut rooms, user_id);
    }
    active_users.remove(&user_id);
    proof {
        lemma_user_gone_wf(old(state)@, user_id);
        let post = world_of(active_users@, rooms@);
        assert(post == old(state)@.with_user_gone(user_id));
    }
    *state = ServerState { active_users, rooms };
    true
}

} // verus!
