//! The parts that the request handlers share.

use crate::communication::data_fetcher::UserIdsResult;
use crate::communication::types::{
    CommunicationRoom,
    GetFollowListResponse,
    RoomDetails,
    UserPreview,
};
use crate::state::state::{ServerState, WorldView};
use crate::state::state_types::{Room, RoomView};
use std::collections::HashMap;
use vstd::prelude::*;
use vstd::std_specs::hash::spec_hash_keys_iter;
use vstd::std_specs::iter::IteratorSpec;

verus! {

broadcast use vstd::std_specs::hash::group_hash_axioms;

/// The integer that the JSON reader finds in the text `text` under `key`:
/// `Some` where the reader accepts the text as a JSON document, the
/// document is an object with a member `key`, and the reader holds that
/// member as an integer of 64 bits with a sign; `None` otherwise.
pub uninterp spec fn json_integer_member(text: Seq<char>, key: Seq<char>) -> Option<i64>;

/// Reads the integer member `key` of the JSON object `text`.
///
/// Calls `serde_json::from_str` for a `serde_json::Value`, then
/// `Value::get` with the key and `Value::as_i64` on what it finds. The
/// contract only gives the outcome its name: the same text and key always
/// give the same outcome.
#[verifier::external_body]
fn integer_member(text: &str, key: &str) -> (found: Option<i64>)
    ensures
        found == json_integer_member(text@, key@),
{
    let document: serde_json::Value = serde_json::from_str(text).ok()?;
    document.get(key)?.as_i64()
}

/// The room and the peer that a signalling payload refers to: its integer
/// members `roomId` and `peerId`.
pub fn signalling_ids(payload: &str) -> (ids: (Option<i64>, Option<i64>))
    ensures
        ids.0 == json_integer_member(payload@, "roomId"@),
        ids.1 == json_integer_member(payload@, "peerId"@),
{
    (integer_member(payload, "roomId"), integer_member(payload, "peerId"))
}

/// When a signalling request may be relayed: the payload names a room and
/// a peer, the peer is the requester itself, and the requester is a member
/// of that room.
pub open spec fn web_rtc_request_valid(
    world: WorldView,
    room_id: Option<i64>,
    peer_id: Option<i64>,
    requester_id: i32,
) -> bool {
    &&& room_id is Some
    &&& peer_id is Some
    &&& i32::MIN <= room_id->0 <= i32::MAX
    &&& peer_id->0 == requester_id
    &&& world.is_member(room_id->0 as i32, requester_id)
}

/// Judges a signalling request by the room and peer read from its payload.
pub fn web_rtc_request_is_valid(
    state: &ServerState,
    room_id: Option<i64>,
    peer_id: Option<i64>,
    requester_id: i32,
) -> (valid: bool)
    ensures
        valid == web_rtc_request_valid(state@, room_id, peer_id, requester_id),
{
    match (room_id, peer_id) {
        (Some(room), Some(peer)) => {
            if room < -0x8000_0000i64 || room > 0x7fff_ffffi64 || peer != requester_id as i64 {
                false
            } else {
                state.is_member(room as i32, requester_id)
            }
        },
        _ => false,
    }
}

/// Whether the tag `tag` reads `expected`.
pub fn tag_is(tag: &str, expected: &str) -> (same: bool)
    ensures
        same == (tag@ == expected@),
{
    tag.to_owned() == expected.to_owned()
}

/// Puts together the follow list of `peer_id` for `requester_id`.
///
/// The result holds each id that the store reported, once, in no
/// particular order, and names `peer_id` as the user it is about. A query
/// that failed gives the empty list. The result is `None` where the
/// requester is no longer connected. The world is left as it was.
pub fn send_follow_list(
    target: &UserIdsResult,
    state: &mut ServerState,
    requester_id: i32,
    peer_id: i32,
) -> (response: Option<GetFollowListResponse>)
    ensures
        final(state)@ == old(state)@,
        response is Some == old(state)@.users.contains_key(requester_id),
        response matches Some(list) ==> {
            &&& list.for_user == peer_id
            &&& list.user_ids@.no_duplicates()
            &&& forall|u: i32| list.user_ids@.contains(u) <==> target.reported().contains(u)
        },
{
    if !state.active_users.contains_key(&requester_id) {
        return None;
    }
    let mut user_ids: Vec<i32> = Vec::new();
    if target.ok {
        let ghost walk = spec_hash_keys_iter(&target.user_ids).remaining();
        for id in it: target.user_ids.iter()
            invariant
                it.seq() == walk,
                walk == spec_hash_keys_iter(&target.user_ids).remaining(),
                user_ids@ == walk.unref().take(it.index()),
        {
            user_ids.push(*id);
        }
        proof {
            assert(user_ids@ == walk.unref());
            assert(walk.unref().to_set() == target.user_ids@);
            assert forall|i: int, j: int| 0 <= i < j < user_ids@.len() implies user_ids@[i]
                != user_ids@[j] by {
                assert(walk[i] != walk[j]);
            }
            assert forall|u: i32| user_ids@.contains(u) <==> target.reported().contains(u) by {
                assert(user_ids@.contains(u) <==> user_ids@.to_set().contains(u));
            }
        }
    }
    Some(GetFollowListResponse { user_ids, for_user: peer_id })
}

/// Whether room `first` comes before room `second` among the top rooms:
/// it has fewer members, or as many and the smaller id.
pub open spec fn ranks_before(world: WorldView, first: i32, second: i32) -> bool {
    world.room_size(first) < world.room_size(second) || (world.room_size(first)
        == world.room_size(second) && first < second)
}

/// Whether `ranking` lists rooms by the number of their members, fewest
/// first, and rooms of equal size by their ids.
pub open spec fn ranked_by_size(world: WorldView, ranking: Seq<i32>) -> bool {
    forall|i: int, j: int|
        0 <= i < j < ranking.len() ==> ranks_before(world, #[trigger] ranking[i], #[trigger] ranking[j])
}

/// Ranks the live rooms by the number of their members, fewest first.
/// Rooms of equal size come by their ids, smallest first.
pub fn rank_rooms(state: &ServerState) -> (ranking: Vec<i32>)
    ensures
        ranking@.no_duplicates(),
        forall|r: i32| ranking@.contains(r) <==> state@.rooms.contains_key(r),
        ranked_by_size(state@, ranking@),
{
    let ids = state.room_ids();
    let mut ranking: Vec<i32> = Vec::new();
    let mut taken: usize = 0;
    while taken < ids.len()
        invariant
            taken <= ids.len(),
            ids@.no_duplicates(),
            ranking@.no_duplicates(),
            forall|r: i32| ranking@.contains(r) <==> ids@.take(taken as int).contains(r),
            ranked_by_size(state@, ranking@),
        decreases ids.len() - taken,
    {
        let id = ids[taken];
        let size = state.room_size(id);
        let mut at: usize = 0;
        while at < ranking.len() && (state.room_size(ranking[at]) < size || (state.room_size(
            ranking[at],
        ) == size && ranking[at] < id))
            invariant
                at <= ranking.len(),
                size == state@.room_size(id),
                forall|i: int| 0 <= i < at ==> ranks_before(state@, #[trigger] ranking@[i], id),
            decreases ranking.len() - at,
        {
            at += 1;
        }
        let ghost before = ranking@;
        ranking.insert(at, id);
        proof {
            let after = ranking@;
            assert(!before.contains(id)) by {
                if before.contains(id) {
                    let i = choose|i: int| 0 <= i < taken && ids@.take(taken as int)[i] == id;
                    assert(ids@[i] == ids@[taken as int]);
                }
            }
            assert forall|i: int| 0 <= i < after.len() implies #[trigger] after[i] == (if i < at {
                before[i]
            } else if i == at {
                id
            } else {
                before[i - 1]
            }) by {}
            assert forall|i: int, j: int| 0 <= i < j < after.len() implies ranks_before(
                state@,
                #[trigger] after[i],
                #[trigger] after[j],
            ) by {
                let bi = if i < at { i } else { i - 1 };
                let bj = if j < at { j } else { j - 1 };
                if i != at && j != at {
                    assert(ranks_before(state@, before[bi], before[bj]));
                } else if i == at {
                    assert(before.contains(before[at as int]));
                    assert(ranks_before(state@, id, before[at as int]));
                    if bj > at {
                        assert(ranks_before(state@, before[at as int], before[bj]));
                    }
                }
            }
            assert forall|i: int, j: int| 0 <= i < j < after.len() implies after[i] != after[j] by {
                assert(ranks_before(state@, after[i], after[j]));
            }
            assert forall|r: i32| after.contains(r) <==> ids@.take(taken + 1).contains(r) by {
                let prefix = ids@.take(taken as int);
                let longer = ids@.take(taken + 1);
                if after.contains(r) {
                    let i = choose|i: int| 0 <= i < after.len() && after[i] == r;
                    if i == at {
                        assert(longer[taken as int] == r);
                    } else {
                        let bi = if i < at { i } else { i - 1 };
                        assert(before.contains(before[bi]));
                        assert(prefix.contains(r));
                        let k = choose|k: int| 0 <= k < prefix.len() && prefix[k] == r;
                        assert(longer[k] == r);
                    }
                }
                if longer.contains(r) {
                    let k = choose|k: int| 0 <= k < longer.len() && longer[k] == r;
                    if k == taken {
                        assert(after[at as int] == r);
                    } else {
                        assert(prefix[k] == r);
                        assert(before.contains(r));
                        let i = choose|i: int| 0 <= i < before.len() && before[i] == r;
                        if i < at {
                            assert(after[i] == r);
                        } else {
                            assert(after[i + 1] == r);
                        }
                    }
                }
            }
        }
        taken += 1;
    }
    proof {
        assert(ids@.take(taken as int) == ids@);
    }
    ranking
}

/// The number of people shown for a room of `members` members: the number
/// itself, or the largest `i32` where it does not fit.
pub open spec fn people_count(members: nat) -> i32 {
    if members <= i32::MAX {
        members as i32
    } else {
        i32::MAX
    }
}

/// Whether `entry` shows `room` with the previews, the owner and the chat
/// mode that the store gave for it.
pub open spec fn shows_room(
    entry: CommunicationRoom,
    room: RoomView,
    previews: HashMap<i32, UserPreview>,
    owner_id: i32,
    chat_mode: Seq<char>,
) -> bool {
    &&& entry.details.name@ == room.name
    &&& entry.details.chat_throttle == room.chat_throttle
    &&& entry.details.is_private == !room.public
    &&& entry.details.description@ == room.desc
    &&& entry.room_id == room.room_id
    &&& entry.num_of_people_in_room == people_count(room.user_ids.len())
    &&& entry.voice_server_id@ == room.voice_server_id
    &&& entry.creator_id == owner_id
    &&& entry.people_preview_data == previews
    &&& entry.auto_speaker_setting == room.auto_speaker
    &&& entry.created_at@ == room.created_at
    &&& entry.chat_mode@ == chat_mode
}

/// Appends to `communication_rooms` the entry that shows `room` with what
/// the store gave for it.
pub fn construct_communication_room(
    previews: HashMap<i32, UserPreview>,
    room: &Room,
    communication_rooms: &mut Vec<CommunicationRoom>,
    owner_id: i32,
    chat_mode: String,
)
    ensures
        final(communication_rooms)@.len() == old(communication_rooms)@.len() + 1,
        final(communication_rooms)@.drop_last() == old(communication_rooms)@,
        shows_room(final(communication_rooms)@.last(), room@, previews, owner_id, chat_mode@),
{
    let members = room.user_ids.len();
    let num_of_people_in_room: i32 = if members > 0x7fff_ffff {
        0x7fff_ffff
    } else {
        members as i32
    };
    let entry = CommunicationRoom {
        details: RoomDetails {
            name: room.name.clone(),
            chat_throttle: room.chat_throttle,
            is_private: !room.public,
            description: room.desc.clone(),
        },
        room_id: room.room_id,
        num_of_people_in_room,
        voice_server_id: room.voice_server_id.clone(),
        creator_id: owner_id,
        people_preview_data: previews,
        auto_speaker_setting: room.auto_speaker,
        created_at: room.created_at.clone(),
        chat_mode,
    };
    communication_rooms.push(entry);
    proof {
        assert(communication_rooms@.drop_last() =~= old(communication_rooms)@);
    }
}

} // verus!
