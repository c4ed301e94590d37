//! The records that make up the world model.

use std::collections::HashSet;
use vstd::prelude::*;

verus! {

/// The room id that stands for "not in any room".
pub const NO_ROOM: i32 = -1;

/// The permissions that the owner of a board has handed out.
pub struct Board {
    pub room_id: String,
    pub owner_user_id: String,
    /// Those granted permissions by the owner.
    pub users_with_permission: HashSet<String>,
}

/// A connected, authenticated client.
///
/// The connection itself belongs to the transport; the world model refers
/// to it by `user_id` alone.
#[derive(Clone, Copy, Debug, PartialEq, Eq, Structural)]
pub struct User {
    pub user_id: i32,
    pub muted: bool,
    pub deaf: bool,
    /// The room that the user occupies, or `NO_ROOM`.
    pub current_room_id: i32,
}

impl User {
    /// A user who has just connected: in no room, neither muted nor deaf.
    pub open spec fn fresh(user_id: i32) -> User {
        User { user_id, muted: false, deaf: false, current_room_id: NO_ROOM }
    }

    /// This user, placed in `room_id`.
    pub open spec fn placed_in(self, room_id: i32) -> User {
        User { current_room_id: room_id, ..self }
    }

    /// Whether the user occupies no room.
    pub fn is_idle(&self) -> (idle: bool)
        ensures
            idle == (self.current_room_id == NO_ROOM),
    {
        self.current_room_id == NO_ROOM
    }
}

/// A live room.
pub struct Room {
    pub room_id: i32,
    pub owner_user_id: i32,
    /// Members who are muted.
    pub muted: HashSet<i32>,
    /// The id under which the voice server knows this room.
    pub voice_server_id: String,
    /// Members who are deafened.
    pub deaf: HashSet<i32>,
    /// The members.
    pub user_ids: HashSet<i32>,
    pub public: bool,
    pub chat_mode: String,
    pub auto_speaker: bool,
    /// Members who may speak.
    pub speakers: HashSet<i32>,
    /// Members who have asked to speak.
    pub raised_hands: HashSet<i32>,
    pub name: String,
    pub desc: String,
    pub chat_throttle: i32,
    pub created_at: String,
}

/// What a `Room` holds, as mathematical values.
pub struct RoomView {
    pub room_id: i32,
    pub owner_user_id: i32,
    pub muted: Set<i32>,
    pub voice_server_id: Seq<char>,
    pub deaf: Set<i32>,
    pub user_ids: Set<i32>,
    pub public: bool,
    pub chat_mode: Seq<char>,
    pub auto_speaker: bool,
    pub speakers: Set<i32>,
    pub raised_hands: Set<i32>,
    pub name: Seq<char>,
    pub desc: Seq<char>,
    pub chat_throttle: i32,
    pub created_at: Seq<char>,
}

impl View for Room {
    type V = RoomView;

    open spec fn view(&self) -> RoomView {
        RoomView {
            room_id: self.room_id,
            owner_user_id: self.owner_user_id,
            muted: self.muted@,
            voice_server_id: self.voice_server_id@,
            deaf: self.deaf@,
            user_ids: self.user_ids@,
            public: self.public,
            chat_mode: self.chat_mode@,
            auto_speaker: self.auto_speaker,
            speakers: self.speakers@,
            raised_hands: self.raised_hands@,
            name: self.name@,
            desc: self.desc@,
            chat_throttle: self.chat_throttle,
            created_at: self.created_at@,
        }
    }
}

impl RoomView {
    /// The room's own consistency: it is finite, its owner is a member, and
    /// every overlay or role set lies within the membership.
    pub open spec fn wf(self) -> bool {
        &&& self.user_ids.finite()
        &&& self.user_ids.contains(self.owner_user_id)
        &&& self.muted.subset_of(self.user_ids)
        &&& self.deaf.subset_of(self.user_ids)
        &&& self.speakers.subset_of(self.user_ids)
        &&& self.raised_hands.subset_of(self.user_ids)
    }

    /// The room after `user` has come in. The presence overlays take
    /// the user's own flags.
    pub open spec fn with_member(self, user: User) -> RoomView {
        RoomView {
            user_ids: self.user_ids.insert(user.user_id),
            muted: if user.muted {
                self.muted.insert(user.user_id)
            } else {
                self.muted
            },
            deaf: if user.deaf {
                self.deaf.insert(user.user_id)
            } else {
                self.deaf
            },
            ..self
        }
    }

    /// The room after the member `user_id` has set its presence flags.
    pub open spec fn with_presence(self, user_id: i32, muted: bool, deaf: bool) -> RoomView {
        RoomView {
            muted: if muted {
                self.muted.insert(user_id)
            } else {
                self.muted.remove(user_id)
            },
            deaf: if deaf {
                self.deaf.insert(user_id)
            } else {
                self.deaf.remove(user_id)
            },
            ..self
        }
    }

    /// The room after `user_id` has been taken out of the membership and of
    /// every overlay and role set.
    pub open spec fn without_member(self, user_id: i32) -> RoomView {
        RoomView {
            user_ids: self.user_ids.remove(user_id),
            muted: self.muted.remove(user_id),
            deaf: self.deaf.remove(user_id),
            speakers: self.speakers.remove(user_id),
            raised_hands: self.raised_hands.remove(user_id),
            ..self
        }
    }
}

} // verus!
