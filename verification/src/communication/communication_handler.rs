//! The request handlers: the checks that every request passes before
//! anything is committed.
//!
//! A handler judges a request against the shared view of the world and
//! answers with a `Directive`: what is to be done next. It changes nothing
//! itself. Where the directive names a transition, the caller takes the
//! exclusive view and runs that transition, which judges the request once
//! more. Every failure, of the payload or of the precondition, is answered
//! by the same `Directive::Reject`, which tells the requester nothing of
//! the reason.

use crate::common::common_response_logic::send_to_requester_channel;
use crate::communication::communication_handler_helpers::{
    construct_communication_room,
    json_integer_member,
    rank_rooms,
    ranked_by_size,
    ranks_before,
    shows_room,
    signalling_ids,
    tag_is,
    web_rtc_request_is_valid,
    web_rtc_request_valid,
};
use crate::communication::data_fetcher::{RoomEnrichment, UserIdsResult};
use crate::communication::types::{
    BasicRequest,
    BasicResponse,
    BasicRoomCreation,
    BlockUserFromRoom,
    CommunicationRoom,
    GenericRoomIdAndPeerId,
    GetFollowList,
};
use crate::state::state::{ServerState, WorldView};
use std::collections::HashMap;
use vstd::prelude::*;

verus! {

broadcast use vstd::std_specs::hash::group_hash_axioms;

/// What a handler asks its caller to do next.
#[derive(Clone, Copy, Debug, PartialEq, Eq, Structural)]
pub enum Directive {
    /// Send the requester the uniform rejection.
    Reject,
    /// Register a room for the requester and commit its creation.
    CreateRoom,
    /// Commit the peer's entry into the room.
    JoinRoom { room_id: i32, peer_id: i32 },
    /// Commit the user's removal from the room, and record the block.
    BlockUser { room_id: i32, user_id: i32 },
    /// Commit the peer's promotion to speaker.
    AddSpeaker { room_id: i32, peer_id: i32 },
    /// Commit the peer's demotion from speaker.
    RemoveSpeaker { room_id: i32, peer_id: i32 },
    /// Commit the raising of the requester's hand.
    RaiseHand { room_id: i32, peer_id: i32 },
    /// Commit the lowering of the peer's hand.
    LowerHand { room_id: i32, peer_id: i32 },
    /// Pass the signalling payload on to the voice server.
    RelayWebRtc,
    /// Ask the store for the followers of the user.
    FetchFollowers { user_id: i32 },
    /// Ask the store for the users that the user follows.
    FetchFollowing { user_id: i32 },
}

/// The tag of the uniform rejection.
pub open spec fn rejection_op_code() -> Seq<char> {
    "invalid_request"@
}

/// The text of the uniform rejection.
pub open spec fn rejection_text() -> Seq<char> {
    "issue with request"@
}

/// The directive for a request to create a room. `parsed` tells whether
/// the payload had the shape of a room creation.
pub open spec fn create_room_directive(parsed: bool, world: WorldView, requester_id: i32) -> Directive {
    if parsed && world.may_create_room(requester_id) {
        Directive::CreateRoom
    } else {
        Directive::Reject
    }
}

/// The directive for a request to block a user from a room.
pub open spec fn block_user_directive(
    request: Option<BlockUserFromRoom>,
    world: WorldView,
    requester_id: i32,
) -> Directive {
    match request {
        Some(data) => if world.both_in_room(data.room_id, requester_id, data.user_id) {
            Directive::BlockUser { room_id: data.room_id, user_id: data.user_id }
        } else {
            Directive::Reject
        },
        None => Directive::Reject,
    }
}

/// The directive for a request to join a room, given the ids that the
/// store reported as blocked from that room.
pub open spec fn join_room_directive(
    request: Option<GenericRoomIdAndPeerId>,
    world: WorldView,
    blocked: Set<i32>,
) -> Directive {
    match request {
        Some(data) => if world.may_join_room(data.roomId, data.peerId, blocked) {
            Directive::JoinRoom { room_id: data.roomId, peer_id: data.peerId }
        } else {
            Directive::Reject
        },
        None => Directive::Reject,
    }
}

/// The directive for a request to add or remove a speaker. The tag `add`
/// asks to add; any other tag asks to remove.
pub open spec fn speaker_directive(
    request: Option<GenericRoomIdAndPeerId>,
    world: WorldView,
    requester_id: i32,
    add_or_remove: Seq<char>,
) -> Directive {
    match request {
        Some(data) => if !world.both_in_room(data.roomId, requester_id, data.peerId) {
            Directive::Reject
        } else if add_or_remove == "add"@ {
            Directive::AddSpeaker { room_id: data.roomId, peer_id: data.peerId }
        } else {
            Directive::RemoveSpeaker { room_id: data.roomId, peer_id: data.peerId }
        },
        None => Directive::Reject,
    }
}

/// The directive for a request to raise or lower a hand. The tag `lower`
/// asks to lower; any other tag asks to raise.
pub open spec fn hand_directive(
    request: Option<GenericRoomIdAndPeerId>,
    world: WorldView,
    requester_id: i32,
    type_of_hand_action: Seq<char>,
) -> Directive {
    match request {
        Some(data) => if !world.both_in_room(data.roomId, requester_id, data.peerId) {
            Directive::Reject
        } else if type_of_hand_action == "lower"@ {
            Directive::LowerHand { room_id: data.roomId, peer_id: data.peerId }
        } else {
            Directive::RaiseHand { room_id: data.roomId, peer_id: data.peerId }
        },
        None => Directive::Reject,
    }
}

/// The directive for a signalling request, given the room and the peer
/// read from its payload.
pub open spec fn web_rtc_directive(
    room_id: Option<i64>,
    peer_id: Option<i64>,
    world: WorldView,
    requester_id: i32,
) -> Directive {
    if web_rtc_request_valid(world, room_id, peer_id, requester_id) {
        Directive::RelayWebRtc
    } else {
        Directive::Reject
    }
}

/// The directive for a request for a follow list. The tag `followers`
/// asks for the followers; any other tag asks for the users followed.
pub open spec fn follow_list_directive(
    request: Option<GetFollowList>,
    type_of_request: Seq<char>,
) -> Directive {
    match request {
        Some(data) => if type_of_request == "followers"@ {
            Directive::FetchFollowers { user_id: data.user_id }
        } else {
            Directive::FetchFollowing { user_id: data.user_id }
        },
        None => Directive::Reject,
    }
}

/// A payload that did not parse is rejected, whatever the operation, the
/// world, the requester and the tags.
pub proof fn lemma_malformed_payload_is_rejected(
    world: WorldView,
    requester_id: i32,
    blocked: Set<i32>,
    tag: Seq<char>,
)
    ensures
        create_room_directive(false, world, requester_id) == Directive::Reject,
        block_user_directive(None, world, requester_id) == Directive::Reject,
        join_room_directive(None, world, blocked) == Directive::Reject,
        speaker_directive(None, world, requester_id, tag) == Directive::Reject,
        hand_directive(None, world, requester_id, tag) == Directive::Reject,
        follow_list_directive(None, tag) == Directive::Reject,
        forall|peer_id: Option<i64>|
            web_rtc_directive(None, peer_id, world, requester_id) == Directive::Reject,
        forall|room_id: Option<i64>|
            web_rtc_directive(room_id, None, world, requester_id) == Directive::Reject,
{
}

/// A peer that the store reported as blocked from a room is not let in,
/// whether the room is public or private.
pub proof fn lemma_blocked_peer_is_rejected(
    world: WorldView,
    request: GenericRoomIdAndPeerId,
    blocked: Set<i32>,
)
    requires
        blocked.contains(request.peerId),
    ensures
        join_room_directive(Some(request), world, blocked) == Directive::Reject,
        !world.may_join_room(request.roomId, request.peerId, blocked),
{
}

/// The speaker operations and the hand operations are rejected where the
/// peer is not a member of the room.
pub proof fn lemma_outsider_is_rejected(
    world: WorldView,
    request: GenericRoomIdAndPeerId,
    requester_id: i32,
    tag: Seq<char>,
)
    requires
        !world.is_member(request.roomId, request.peerId),
    ensures
        speaker_directive(Some(request), world, requester_id, tag) == Directive::Reject,
        hand_directive(Some(request), world, requester_id, tag) == Directive::Reject,
{
}

/// The handlers and the transitions judge by the same preconditions: a
/// handler names a transition exactly where the precondition of the
/// operation holds of the world it was shown, and a transition that applies
/// to a world is one that the handler would name for that world. So on a
/// world that has not changed in between, whatever a handler passed is
/// committed, but for a block by a requester without the authority.
pub proof fn lemma_handlers_and_transitions_agree(
    world: WorldView,
    request: GenericRoomIdAndPeerId,
    requester_id: i32,
    blocked: Set<i32>,
    tag: Seq<char>,
    new_room_id: i32,
)
    ensures
        create_room_directive(true, world, requester_id) == Directive::CreateRoom
            <==> world.may_create_room(requester_id),
        world.may_open_room(requester_id, new_room_id) ==> create_room_directive(
            true,
            world,
            requester_id,
        ) == Directive::CreateRoom,
        join_room_directive(Some(request), world, blocked) == (Directive::JoinRoom {
            room_id: request.roomId,
            peer_id: request.peerId,
        }) <==> world.may_join_room(request.roomId, request.peerId, blocked),
        speaker_directive(Some(request), world, requester_id, tag) != Directive::Reject
            <==> world.both_in_room(request.roomId, requester_id, request.peerId),
        hand_directive(Some(request), world, requester_id, tag) != Directive::Reject
            <==> world.both_in_room(request.roomId, requester_id, request.peerId),
        world.may_block_user(request.roomId, requester_id, request.peerId)
            ==> block_user_directive(
            Some(BlockUserFromRoom { user_id: request.peerId, room_id: request.roomId }),
            world,
            requester_id,
        ) == (Directive::BlockUser { room_id: request.roomId, user_id: request.peerId }),
{
}

/// Judges a request to create a room. `request` is the parsed payload, or
/// `None` where the payload did not parse.
///
/// The room may be created where the requester is connected and occupies
/// no room.
pub fn create_room(request: &Option<BasicRoomCreation>, state: &ServerState, requester_id: i32) -> (directive:
    Directive)
    ensures
        directive == create_room_directive(request is Some, state@, requester_id),
{
    if request.is_some() && state.may_create_room(requester_id) {
        Directive::CreateRoom
    } else {
        Directive::Reject
    }
}

/// Judges a request to block a user from a room. `request` is the parsed
/// payload, or `None` where the payload did not parse.
///
/// The request goes on where the room is live and both the requester and
/// the user are members of it. Whether the requester has the authority is
/// left to the transition.
pub fn block_user_from_room(
    request: &Option<BlockUserFromRoom>,
    requester_id: i32,
    state: &ServerState,
) -> (directive: Directive)
    ensures
        directive == block_user_directive(*request, state@, requester_id),
{
    match request {
        Some(data) => {
            if state.both_in_room(data.room_id, requester_id, data.user_id) {
                Directive::BlockUser { room_id: data.room_id, user_id: data.user_id }
            } else {
                Directive::Reject
            }
        },
        None => Directive::Reject,
    }
}

/// Tells whether the blocked ids of a room are wanted for a request to
/// join: `Some` with the room's id where the payload parsed, the room is
/// live and public and the peer is connected and occupies no room, and
/// `None` where the request is to be rejected without asking the store.
pub fn blocked_ids_wanted(request: &Option<GenericRoomIdAndPeerId>, state: &ServerState) -> (wanted:
    Option<i32>)
    ensures
        wanted == (match *request {
            Some(data) => if state@.may_join_room(data.roomId, data.peerId, Set::empty()) {
                Some(data.roomId)
            } else {
                None
            },
            None => None,
        }),
{
    match request {
        Some(data) => {
            match state.room(data.roomId) {
                Some(room) => {
                    if state.is_idle(data.peerId) && room.public {
                        Some(data.roomId)
                    } else {
                        None
                    }
                },
                None => None,
            }
        },
        None => None,
    }
}

/// Judges a request to join a room. `request` is the parsed payload, or
/// `None` where the payload did not parse; `blocked` is what the store
/// answered when asked for the ids blocked from the room.
///
/// The peer may join where the room is live and public, the peer is
/// connected and occupies no room, and the store did not report the peer as
/// blocked.
pub fn join_room(
    request: &Option<GenericRoomIdAndPeerId>,
    state: &ServerState,
    blocked: &UserIdsResult,
) -> (directive: Directive)
    ensures
        directive == join_room_directive(*request, state@, blocked.reported()),
        request matches Some(data) && blocked.reported().contains(data.peerId) ==> directive
            == Directive::Reject,
{
    match request {
        Some(data) => {
            if state.may_join_room(data.roomId, data.peerId, blocked) {
                Directive::JoinRoom { room_id: data.roomId, peer_id: data.peerId }
            } else {
                Directive::Reject
            }
        },
        None => Directive::Reject,
    }
}

/// Judges a request to add or remove a speaker. `request` is the parsed
/// payload, or `None` where the payload did not parse.
///
/// The request goes on where the room is live and both the requester and
/// the peer are members of it.
pub fn add_or_remove_speaker(
    request: &Option<GenericRoomIdAndPeerId>,
    requester_id: i32,
    state: &ServerState,
    add_or_remove: &str,
) -> (directive: Directive)
    ensures
        directive == speaker_directive(*request, state@, requester_id, add_or_remove@),
{
    match request {
        Some(data) => {
            if !state.both_in_room(data.roomId, requester_id, data.peerId) {
                Directive::Reject
            } else if tag_is(add_or_remove, "add") {
                Directive::AddSpeaker { room_id: data.roomId, peer_id: data.peerId }
            } else {
                Directive::RemoveSpeaker { room_id: data.roomId, peer_id: data.peerId }
            }
        },
        None => Directive::Reject,
    }
}

/// Judges a signalling request by its raw payload.
///
/// The request is relayed where the payload is a JSON object whose integer
/// members `roomId` and `peerId` name a room of which the requester is a
/// member and the requester itself.
pub fn handle_web_rtc_request(request: &BasicRequest, state: &ServerState, requester_id: i32) -> (directive:
    Directive)
    ensures
        directive == web_rtc_directive(
            json_integer_member(request.request_containing_data@, "roomId"@),
            json_integer_member(request.request_containing_data@, "peerId"@),
            state@,
            requester_id,
        ),
{
    let ids = signalling_ids(request.request_containing_data.as_str());
    if web_rtc_request_is_valid(state, ids.0, ids.1, requester_id) {
        Directive::RelayWebRtc
    } else {
        Directive::Reject
    }
}

/// Judges a request for a follow list. `request` is the parsed payload, or
/// `None` where the payload did not parse. Nothing of the world is
/// consulted.
pub fn get_followers_or_following_list(request: &Option<GetFollowList>, type_of_request: &str) -> (directive:
    Directive)
    ensures
        directive == follow_list_directive(*request, type_of_request@),
{
    match request {
        Some(data) => {
            if tag_is(type_of_request, "followers") {
                Directive::FetchFollowers { user_id: data.user_id }
            } else {
                Directive::FetchFollowing { user_id: data.user_id }
            }
        },
        None => Directive::Reject,
    }
}

/// Judges a request to raise or lower a hand. `request` is the parsed
/// payload, or `None` where the payload did not parse.
///
/// The request goes on where the room is live and both the requester and
/// the peer are members of it.
pub fn raise_hand_or_lower_hand(
    request: &Option<GenericRoomIdAndPeerId>,
    state: &ServerState,
    requester_id: i32,
    type_of_hand_action: &str,
) -> (directive: Directive)
    ensures
        directive == hand_directive(*request, state@, requester_id, type_of_hand_action@),
{
    match request {
        Some(data) => {
            if !state.both_in_room(data.roomId, requester_id, data.peerId) {
                Directive::Reject
            } else if tag_is(type_of_hand_action, "lower") {
                Directive::LowerHand { room_id: data.roomId, peer_id: data.peerId }
            } else {
                Directive::RaiseHand { room_id: data.roomId, peer_id: data.peerId }
            }
        },
        None => Directive::Reject,
    }
}

/// Whether `entry` shows a live room of `world` with what `enrichments`
/// holds for that room.
pub open spec fn shows_live_room(
    entry: CommunicationRoom,
    world: WorldView,
    enrichments: Map<i32, RoomEnrichment>,
) -> bool {
    let id = entry.room_id;
    &&& world.rooms.contains_key(id)
    &&& enrichments.contains_key(id)
    &&& shows_room(
        entry,
        world.rooms[id],
        enrichments[id].previews.previews,
        enrichments[id].owner_and_settings.owner_id,
        enrichments[id].owner_and_settings.chat_mode@,
    )
}

/// Whether `listing` holds an entry for `room_id`.
pub open spec fn lists_room(listing: Seq<CommunicationRoom>, room_id: i32) -> bool {
    exists|i: int| 0 <= i < listing.len() && (#[trigger] listing[i]).room_id == room_id
}

/// The ids of the rooms that `listing` shows, in its order.
pub open spec fn listed_ids(listing: Seq<CommunicationRoom>) -> Seq<i32> {
    listing.map_values(|entry: CommunicationRoom| entry.room_id)
}

/// Puts together the listing of top rooms.
///
/// `enrichments` holds, by room id, what the store answered about each
/// room. The listing shows every live room for which both answers are
/// there and succeeded, and no other; a room for which a query failed is
/// left out and the rest is still shown. Each room is shown once, with
/// what the store gave for it. The rooms come by the number of their
/// members, fewest first; rooms of equal size come by their ids, smallest
/// first.
pub fn get_top_rooms(state: &ServerState, enrichments: HashMap<i32, RoomEnrichment>) -> (listing: Vec<
    CommunicationRoom,
>)
    ensures
        forall|r: i32|
            lists_room(listing@, r) <==> (state@.rooms.contains_key(r)
                && enrichments@.contains_key(r) && enrichments@[r].complete()),
        listed_ids(listing@).no_duplicates(),
        ranked_by_size(state@, listed_ids(listing@)),
        forall|i: int|
            0 <= i < listing@.len() ==> shows_live_room(#[trigger] listing@[i], state@, enrichments@),
{
    proof {
        use_type_invariant(state);
    }
    let ranking = rank_rooms(state);
    let mut pending = enrichments;
    let mut listing: Vec<CommunicationRoom> = Vec::new();
    let ghost mut positions: Seq<int> = Seq::empty();
    let mut at: usize = 0;
    while at < ranking.len()
        invariant
            at <= ranking.len(),
            state@.wf(),
            ranking@.no_duplicates(),
            forall|r: i32| ranking@.contains(r) <==> state@.rooms.contains_key(r),
            ranked_by_size(state@, ranking@),
            forall|key: i32| #[trigger]
                pending@.contains_key(key) <==> (enrichments@.contains_key(key) && !ranking@.take(
                    at as int,
                ).contains(key)),
            forall|key: i32| #[trigger]
                pending@.contains_key(key) ==> pending@[key] == enrichments@[key],
            positions.len() == listing@.len(),
            forall|i: int|
                0 <= i < positions.len() ==> 0 <= #[trigger] positions[i] < at && listing@[i].room_id
                    == ranking@[positions[i]],
            forall|i: int, j: int|
                0 <= i < j < positions.len() ==> #[trigger] positions[i] < #[trigger] positions[j],
            forall|j: int|
                0 <= j < at ==> ((enrichments@.contains_key(#[trigger] ranking@[j])
                    && enrichments@[ranking@[j]].complete()) <==> positions.contains(j)),
            forall|i: int|
                0 <= i < listing@.len() ==> shows_live_room(
                    #[trigger] listing@[i],
                    state@,
                    enrichments@,
                ),
        decreases ranking.len() - at,
    {
        let id = ranking[at];
        let ghost before = listing@;
        let ghost positions_before = positions;
        let ghost pending_before = pending@;
        proof {
            assert(ranking@.contains(id));
            assert(!ranking@.take(at as int).contains(id)) by {
                if ranking@.take(at as int).contains(id) {
                    let i = choose|i: int| 0 <= i < at && ranking@.take(at as int)[i] == id;
                    assert(ranking@[i] == ranking@[at as int]);
                }
            }
        }
        let found = pending.remove(&id);
        let mut shown = false;
        match found {
            Some(enrichment) => {
                if enrichment.previews.ok && enrichment.owner_and_settings.ok {
                    match state.room(id) {
                        Some(room) => {
                            construct_communication_room(
                                enrichment.previews.previews,
                                room,
                                &mut listing,
                                enrichment.owner_and_settings.owner_id,
                                enrichment.owner_and_settings.chat_mode,
                            );
                            proof {
                                positions = positions.push(at as int);
                            }
                            shown = true;
                        },
                        None => {},
                    }
                }
            },
            None => {},
        }
        proof {
            let longer = ranking@.take(at + 1);
            let prefix = ranking@.take(at as int);
            assert forall|key: i32| #[trigger]
                pending@.contains_key(key) <==> (enrichments@.contains_key(key) && !longer.contains(
                    key,
                )) by {
                if longer.contains(key) {
                    let i = choose|i: int| 0 <= i < longer.len() && longer[i] == key;
                    if i < at {
                        assert(prefix[i] == key);
                    }
                }
                if prefix.contains(key) {
                    let i = choose|i: int| 0 <= i < prefix.len() && prefix[i] == key;
                    assert(longer[i] == key);
                }
                if key == id {
                    assert(longer[at as int] == key);
                }
                assert(pending_before.contains_key(key) <==> (enrichments@.contains_key(key)
                    && !prefix.contains(key)));
            }
            assert(shown <==> (enrichments@.contains_key(id) && enrichments@[id].complete())) by {
                assert(pending_before.contains_key(id) <==> enrichments@.contains_key(id));
            }
            if shown {
                assert(state@.room_wf(id));
                assert(pending_before[id] == enrichments@[id]);
                assert forall|i: int| 0 <= i < listing@.len() implies shows_live_room(
                    #[trigger] listing@[i],
                    state@,
                    enrichments@,
                ) by {
                    if i < before.len() {
                        assert(listing@.drop_last()[i] == listing@[i]);
                    }
                }
            }
            assert forall|j: int| 0 <= j < at + 1 implies ((enrichments@.contains_key(
                #[trigger] ranking@[j],
            ) && enrichments@[ranking@[j]].complete()) <==> positions.contains(j)) by {
                if j < at {
                    if positions_before.contains(j) {
                        let i = choose|i: int|
                            0 <= i < positions_before.len() && positions_before[i] == j;
                        assert(positions[i] == j);
                    }
                    if positions.contains(j) {
                        let i = choose|i: int| 0 <= i < positions.len() && positions[i] == j;
                        assert(positions_before[i] == j);
                    }
                } else {
                    if shown {
                        assert(positions[positions.len() - 1] == j);
                    }
                    if positions.contains(j) {
                        let i = choose|i: int| 0 <= i < positions.len() && positions[i] == j;
                        if i < positions_before.len() {
                            assert(positions_before[i] < at);
                        }
                    }
                }
            }
        }
        at += 1;
    }
    proof {
        let ids = listed_ids(listing@);
        assert forall|i: int, j: int| 0 <= i < j < ids.len() implies ids[i] != ids[j] by {
            assert(positions[i] < positions[j]);
            assert(listing@[i].room_id == ranking@[positions[i]]);
            assert(listing@[j].room_id == ranking@[positions[j]]);
        }
        assert forall|i: int, j: int| 0 <= i < j < ids.len() implies ranks_before(
            state@,
            #[trigger] ids[i],
            #[trigger] ids[j],
        ) by {
            assert(listing@[i].room_id == ranking@[positions[i]]);
            assert(listing@[j].room_id == ranking@[positions[j]]);
            assert(positions[i] < positions[j]);
        }
        assert forall|r: i32|
            lists_room(listing@, r) <==> (state@.rooms.contains_key(r) && enrichments@.contains_key(
                r,
            ) && enrichments@[r].complete()) by {
            if lists_room(listing@, r) {
                let i = choose|i: int| 0 <= i < listing@.len() && listing@[i].room_id == r;
                assert(positions.contains(positions[i]));
                assert(ranking@.contains(ranking@[positions[i]]));
            }
            if state@.rooms.contains_key(r) && enrichments@.contains_key(r)
                && enrichments@[r].complete() {
                assert(ranking@.contains(r));
                let j = choose|j: int| 0 <= j < ranking@.len() && ranking@[j] == r;
                assert(positions.contains(j));
                let i = choose|i: int| 0 <= i < positions.len() && positions[i] == j;
                assert(listing@[i].room_id == r);
            }
        }
    }
    listing
}

/// Frames the uniform rejection for `requester_id`.
///
/// The response is the same whatever went wrong. It is `None` where the
/// requester is no longer connected. The world is left as it was.
pub fn send_error_response_to_requester(state: &mut ServerState, requester_id: i32) -> (framed: Option<
    BasicResponse,
>)
    ensures
        final(state)@ == old(state)@,
        framed is Some == old(state)@.users.contains_key(requester_id),
        framed matches Some(response) ==> response.response_op_code@ == rejection_op_code()
            && response.response_containing_data@ == rejection_text(),
{
    send_to_requester_channel(
        "issue with request".to_owned(),
        requester_id,
        state,
        "invalid_request".to_owned(),
    )
}

} // verus!
