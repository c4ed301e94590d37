use room_coordinator::common::common_response_logic::send_to_requester_channel;
use room_coordinator::communication::communication_handler::{
    add_or_remove_speaker, block_user_from_room, blocked_ids_wanted, create_room,
    get_followers_or_following_list, get_top_rooms, handle_web_rtc_request, join_room,
    raise_hand_or_lower_hand, send_error_response_to_requester, Directive,
};
use room_coordinator::communication::communication_handler_helpers::{
    construct_communication_room, rank_rooms, send_follow_list, signalling_ids, tag_is,
    web_rtc_request_is_valid,
};
use room_coordinator::communication::data_fetcher::{
    RoomEnrichment, RoomOwnerAndSettings, UserIdsResult, UserPreviewsResult,
};
use room_coordinator::communication::types::{
    BasicRequest, BasicRoomCreation, BlockUserFromRoom, CommunicationRoom, GenericRoomIdAndPeerId,
    GetFollowList, UserPreview,
};
use room_coordinator::rooms::room_handler;
use room_coordinator::rooms::room_handler::RoomRegistration;
use room_coordinator::state::state::ServerState;
use std::collections::{HashMap, HashSet};

fn registration(room_id: i32) -> RoomRegistration {
    RoomRegistration {
        room_id,
        voice_server_id: format!("voice-{}", room_id),
        chat_mode: "open".to_string(),
        chat_throttle: 1000,
        auto_speaker: room_id % 20 == 0,
        created_at: "2021-06-01T00:00:00Z".to_string(),
    }
}

fn ids(list: &[i32]) -> UserIdsResult {
    UserIdsResult { ok: true, user_ids: list.iter().copied().collect() }
}

fn room_and_peer(room_id: i32, peer_id: i32) -> Option<GenericRoomIdAndPeerId> {
    Some(GenericRoomIdAndPeerId { roomId: room_id, peerId: peer_id })
}

fn creation() -> Option<BasicRoomCreation> {
    Some(BasicRoomCreation { name: "x".to_string(), desc: "y".to_string(), public: true })
}

fn signal(payload: &str) -> BasicRequest {
    BasicRequest {
        request_op_code: "@connect-transport".to_string(),
        request_containing_data: payload.to_string(),
    }
}

/// Users 1 to 5 connected; room 10 is public, owned by 1, with member 2;
/// room 20 is private, owned by 3; users 4 and 5 occupy no room.
fn world() -> ServerState {
    let mut state = ServerState::new();
    for id in 1..=5 {
        assert!(state.connect_user(id));
    }
    assert!(room_handler::create_room(
        &mut state,
        1,
        registration(10),
        "lobby".to_string(),
        "where it starts".to_string(),
        true
    ));
    assert!(room_handler::create_room(
        &mut state,
        3,
        registration(20),
        "den".to_string(),
        "by invitation".to_string(),
        false
    ));
    assert!(room_handler::join_room(&mut state, 10, 2, &ids(&[])));
    state
}

fn preview(name: &str) -> UserPreview {
    UserPreview { display_name: name.to_string(), avatar_url: format!("https://a/{}", name) }
}

fn enrichment(previews_ok: bool, owner_ok: bool, owner_id: i32, members: &[i32]) -> RoomEnrichment {
    let mut previews = HashMap::new();
    for id in members {
        previews.insert(*id, preview(&format!("user-{}", id)));
    }
    RoomEnrichment {
        previews: UserPreviewsResult { ok: previews_ok, previews },
        owner_and_settings: RoomOwnerAndSettings {
            ok: owner_ok,
            owner_id,
            chat_mode: "slow".to_string(),
        },
    }
}

fn listed(listing: &[CommunicationRoom]) -> Vec<i32> {
    listing.iter().map(|entry| entry.room_id).collect()
}

#[test]
fn create_room_is_judged_by_the_requester() {
    let state = world();
    assert_eq!(create_room(&creation(), &state, 4), Directive::CreateRoom);
    // already in a room
    assert_eq!(create_room(&creation(), &state, 1), Directive::Reject);
    assert_eq!(create_room(&creation(), &state, 2), Directive::Reject);
    // not connected
    assert_eq!(create_room(&creation(), &state, 9), Directive::Reject);
}

#[test]
fn join_room_is_judged_by_room_and_peer() {
    let state = world();
    assert_eq!(
        join_room(&room_and_peer(10, 4), &state, &ids(&[])),
        Directive::JoinRoom { room_id: 10, peer_id: 4 }
    );
    assert_eq!(
        join_room(&room_and_peer(10, 4), &state, &ids(&[5, 2])),
        Directive::JoinRoom { room_id: 10, peer_id: 4 }
    );
    // no such room
    assert_eq!(join_room(&room_and_peer(30, 4), &state, &ids(&[])), Directive::Reject);
    // the peer occupies a room
    assert_eq!(join_room(&room_and_peer(10, 3), &state, &ids(&[])), Directive::Reject);
    assert_eq!(join_room(&room_and_peer(10, 2), &state, &ids(&[])), Directive::Reject);
    // the peer is not connected
    assert_eq!(join_room(&room_and_peer(10, 9), &state, &ids(&[])), Directive::Reject);
    // the room is private
    assert_eq!(join_room(&room_and_peer(20, 4), &state, &ids(&[])), Directive::Reject);
}

#[test]
fn a_blocked_peer_is_rejected_from_any_room() {
    let state = world();
    // public room
    assert_eq!(join_room(&room_and_peer(10, 4), &state, &ids(&[4])), Directive::Reject);
    assert_eq!(join_room(&room_and_peer(10, 4), &state, &ids(&[1, 4, 5])), Directive::Reject);
    // private room
    assert_eq!(join_room(&room_and_peer(20, 4), &state, &ids(&[4])), Directive::Reject);
    // the other idle user is not affected
    assert_eq!(
        join_room(&room_and_peer(10, 5), &state, &ids(&[4])),
        Directive::JoinRoom { room_id: 10, peer_id: 5 }
    );
    let mut state = state;
    assert!(!room_handler::join_room(&mut state, 10, 4, &ids(&[4])));
    assert!(!room_handler::join_room(&mut state, 20, 4, &ids(&[4])));
    assert!(!state.is_member(10, 4));
}

#[test]
fn a_failed_block_query_lets_the_peer_in() {
    let state = world();
    let failed = UserIdsResult { ok: false, user_ids: HashSet::new() };
    assert_eq!(
        join_room(&room_and_peer(10, 4), &state, &failed),
        Directive::JoinRoom { room_id: 10, peer_id: 4 }
    );
}

#[test]
fn the_blocked_ids_are_asked_for_only_when_the_rest_holds() {
    let state = world();
    assert_eq!(blocked_ids_wanted(&room_and_peer(10, 4), &state), Some(10));
    assert_eq!(blocked_ids_wanted(&room_and_peer(20, 4), &state), None);
    assert_eq!(blocked_ids_wanted(&room_and_peer(30, 4), &state), None);
    assert_eq!(blocked_ids_wanted(&room_and_peer(10, 2), &state), None);
    assert_eq!(blocked_ids_wanted(&room_and_peer(10, 9), &state), None);
    assert_eq!(blocked_ids_wanted(&None, &state), None);
}

#[test]
fn block_user_needs_both_in_the_room() {
    let state = world();
    let request = |user_id, room_id| Some(BlockUserFromRoom { user_id, room_id });
    assert_eq!(
        block_user_from_room(&request(2, 10), 1, &state),
        Directive::BlockUser { room_id: 10, user_id: 2 }
    );
    // authority is left to the transition
    assert_eq!(
        block_user_from_room(&request(1, 10), 2, &state),
        Directive::BlockUser { room_id: 10, user_id: 1 }
    );
    assert_eq!(block_user_from_room(&request(4, 10), 1, &state), Directive::Reject);
    assert_eq!(block_user_from_room(&request(2, 10), 4, &state), Directive::Reject);
    assert_eq!(block_user_from_room(&request(2, 30), 1, &state), Directive::Reject);
    assert_eq!(block_user_from_room(&request(2, 20), 1, &state), Directive::Reject);
}

#[test]
fn speaker_requests_follow_the_tag() {
    let state = world();
    assert_eq!(
        add_or_remove_speaker(&room_and_peer(10, 2), 1, &state, "add"),
        Directive::AddSpeaker { room_id: 10, peer_id: 2 }
    );
    assert_eq!(
        add_or_remove_speaker(&room_and_peer(10, 2), 1, &state, "remove"),
        Directive::RemoveSpeaker { room_id: 10, peer_id: 2 }
    );
    assert_eq!(
        add_or_remove_speaker(&room_and_peer(10, 2), 1, &state, "Add"),
        Directive::RemoveSpeaker { room_id: 10, peer_id: 2 }
    );
    assert_eq!(
        add_or_remove_speaker(&room_and_peer(10, 2), 1, &state, ""),
        Directive::RemoveSpeaker { room_id: 10, peer_id: 2 }
    );
}

#[test]
fn speaker_request_for_an_outsider_is_rejected() {
    let mut state = world();
    for tag in ["add", "remove"] {
        // the peer is not a member
        assert_eq!(add_or_remove_speaker(&room_and_peer(10, 4), 1, &state, tag), Directive::Reject);
        assert_eq!(add_or_remove_speaker(&room_and_peer(10, 3), 1, &state, tag), Directive::Reject);
        // the requester is not a member
        assert_eq!(add_or_remove_speaker(&room_and_peer(10, 2), 4, &state, tag), Directive::Reject);
        // no such room
        assert_eq!(add_or_remove_speaker(&room_and_peer(30, 2), 1, &state, tag), Directive::Reject);
    }
    let before: Vec<i32> = state.room(10).unwrap().speakers.iter().copied().collect();
    assert!(!room_handler::add_speaker(10, 4, 1, &mut state));
    let after: Vec<i32> = state.room(10).unwrap().speakers.iter().copied().collect();
    assert_eq!(before, vec![1]);
    assert_eq!(after, vec![1]);
    let framed = send_error_response_to_requester(&mut state, 1).unwrap();
    assert_eq!(framed.response_op_code, "invalid_request");
}

#[test]
fn hand_requests_follow_the_tag() {
    let state = world();
    assert_eq!(
        raise_hand_or_lower_hand(&room_and_peer(10, 2), &state, 1, "lower"),
        Directive::LowerHand { room_id: 10, peer_id: 2 }
    );
    assert_eq!(
        raise_hand_or_lower_hand(&room_and_peer(10, 2), &state, 2, "raise"),
        Directive::RaiseHand { room_id: 10, peer_id: 2 }
    );
    assert_eq!(
        raise_hand_or_lower_hand(&room_and_peer(10, 1), &state, 2, "anything"),
        Directive::RaiseHand { room_id: 10, peer_id: 1 }
    );
    assert_eq!(raise_hand_or_lower_hand(&room_and_peer(10, 4), &state, 1, "lower"), Directive::Reject);
    assert_eq!(raise_hand_or_lower_hand(&room_and_peer(10, 2), &state, 4, "raise"), Directive::Reject);
    assert_eq!(raise_hand_or_lower_hand(&room_and_peer(30, 2), &state, 1, "raise"), Directive::Reject);
}

#[test]
fn follow_list_requests_follow_the_tag() {
    let request = Some(GetFollowList { user_id: 42 });
    assert_eq!(
        get_followers_or_following_list(&request, "followers"),
        Directive::FetchFollowers { user_id: 42 }
    );
    assert_eq!(
        get_followers_or_following_list(&request, "following"),
        Directive::FetchFollowing { user_id: 42 }
    );
    assert_eq!(
        get_followers_or_following_list(&request, "Followers"),
        Directive::FetchFollowing { user_id: 42 }
    );
}

#[test]
fn a_malformed_payload_is_always_rejected() {
    let mut state = world();
    for requester in [1, 2, 3, 4, 9] {
        assert_eq!(create_room(&None, &state, requester), Directive::Reject);
        assert_eq!(block_user_from_room(&None, requester, &state), Directive::Reject);
        assert_eq!(join_room(&None, &state, &ids(&[])), Directive::Reject);
        for tag in ["add", "remove", "lower", "raise", "followers"] {
            assert_eq!(add_or_remove_speaker(&None, requester, &state, tag), Directive::Reject);
            assert_eq!(raise_hand_or_lower_hand(&None, &state, requester, tag), Directive::Reject);
            assert_eq!(get_followers_or_following_list(&None, tag), Directive::Reject);
        }
        for payload in ["", "{", "not json", "{\"roomId\":10,\"peerId\":1} trailing", "[10, 1]"] {
            assert_eq!(handle_web_rtc_request(&signal(payload), &state, requester), Directive::Reject);
        }
    }
    // the rejection is the same each time, and leaves the world alone
    for requester in [1, 4] {
        for _ in 0..2 {
            let framed = send_error_response_to_requester(&mut state, requester).unwrap();
            assert_eq!(framed.response_op_code, "invalid_request");
            assert_eq!(framed.response_containing_data, "issue with request");
        }
    }
    assert!(send_error_response_to_requester(&mut state, 9).is_none());
    let mut rooms = state.room_ids();
    rooms.sort();
    assert_eq!(rooms, vec![10, 20]);
    let mut members = state.room_member_ids(10);
    members.sort();
    assert_eq!(members, vec![1, 2]);
    assert_eq!(state.user(4).unwrap().current_room_id, -1);
}

#[test]
fn a_response_reaches_only_a_connected_requester() {
    let mut state = world();
    let framed =
        send_to_requester_channel("[1,2]".to_string(), 2, &mut state, "top_rooms".to_string())
            .unwrap();
    assert_eq!(framed.response_op_code, "top_rooms");
    assert_eq!(framed.response_containing_data, "[1,2]");
    assert!(send_to_requester_channel("x".to_string(), 9, &mut state, "y".to_string()).is_none());
    assert!(room_handler::disconnect_user(&mut state, 2));
    assert!(send_to_requester_channel("x".to_string(), 2, &mut state, "y".to_string()).is_none());
}

#[test]
fn signalling_ids_are_read_from_the_payload() {
    assert_eq!(signalling_ids("{\"roomId\": 10, \"peerId\": 2}"), (Some(10), Some(2)));
    assert_eq!(signalling_ids("{\"peerId\": -7, \"sdp\": \"v=0\"}"), (None, Some(-7)));
    assert_eq!(
        signalling_ids("{\"roomId\": 9223372036854775807, \"peerId\": 9223372036854775808}"),
        (Some(i64::MAX), None)
    );
    // members that are no integers
    assert_eq!(signalling_ids("{\"roomId\": \"10\", \"peerId\": 2.5}"), (None, None));
    assert_eq!(signalling_ids("{\"roomId\": null, \"peerId\": true}"), (None, None));
    assert_eq!(signalling_ids("{\"roomId\": [10], \"peerId\": {\"id\": 2}}"), (None, None));
    // other names
    assert_eq!(signalling_ids("{\"roomid\": 10, \"peer_id\": 2}"), (None, None));
    // no object, or no JSON
    assert_eq!(signalling_ids("[10, 2]"), (None, None));
    assert_eq!(signalling_ids("10"), (None, None));
    assert_eq!(signalling_ids("roomId"), (None, None));
    assert_eq!(signalling_ids(""), (None, None));
    assert_eq!(signalling_ids("{\"roomId\": 10, \"peerId\": 2"), (None, None));
}

#[test]
fn a_signalling_request_is_relayed_for_a_member_speaking_for_itself() {
    let state = world();
    let payload = "{\"roomId\": 10, \"peerId\": 2, \"dtlsParameters\": {\"role\": \"client\"}}";
    assert_eq!(handle_web_rtc_request(&signal(payload), &state, 2), Directive::RelayWebRtc);
    // the peer is not the requester
    assert_eq!(handle_web_rtc_request(&signal(payload), &state, 1), Directive::Reject);
    // the requester is in another room, or in none
    assert_eq!(
        handle_web_rtc_request(&signal("{\"roomId\": 10, \"peerId\": 3}"), &state, 3),
        Directive::Reject
    );
    assert_eq!(
        handle_web_rtc_request(&signal("{\"roomId\": 10, \"peerId\": 4}"), &state, 4),
        Directive::Reject
    );
    // no such room
    assert_eq!(
        handle_web_rtc_request(&signal("{\"roomId\": 30, \"peerId\": 2}"), &state, 2),
        Directive::Reject
    );
    // a member is missing
    assert_eq!(handle_web_rtc_request(&signal("{\"roomId\": 10}"), &state, 2), Directive::Reject);
    assert_eq!(handle_web_rtc_request(&signal("{\"peerId\": 2}"), &state, 2), Directive::Reject);
    // ids given as text
    assert_eq!(
        handle_web_rtc_request(&signal("{\"roomId\": \"10\", \"peerId\": \"2\"}"), &state, 2),
        Directive::Reject
    );
}

#[test]
fn signalling_ids_beyond_32_bits_are_rejected() {
    let state = world();
    // 4294967306 is 10 modulo 2^32, 4294967298 is 2
    assert!(!web_rtc_request_is_valid(&state, Some(4294967306), Some(2), 2));
    assert!(!web_rtc_request_is_valid(&state, Some(10), Some(4294967298), 2));
    assert!(!web_rtc_request_is_valid(&state, Some(i64::MIN), Some(2), 2));
    assert!(!web_rtc_request_is_valid(&state, Some(-2147483649), Some(2), 2));
    assert!(!web_rtc_request_is_valid(&state, Some(2147483648), Some(2), 2));
    assert!(!web_rtc_request_is_valid(&state, None, Some(2), 2));
    assert!(!web_rtc_request_is_valid(&state, Some(10), None, 2));
    assert!(web_rtc_request_is_valid(&state, Some(10), Some(2), 2));
    assert!(web_rtc_request_is_valid(&state, Some(20), Some(3), 3));
    assert_eq!(
        handle_web_rtc_request(&signal("{\"roomId\": 4294967306, \"peerId\": 2}"), &state, 2),
        Directive::Reject
    );
}

#[test]
fn tags_are_compared_letter_by_letter() {
    assert!(tag_is("add", "add"));
    assert!(!tag_is("add ", "add"));
    assert!(!tag_is("ADD", "add"));
    assert!(!tag_is("", "add"));
    assert!(tag_is("", ""));
}

#[test]
fn rooms_are_ranked_by_size_fewest_first() {
    let mut state = ServerState::new();
    for id in 1..=9 {
        state.connect_user(id);
    }
    assert!(rank_rooms(&state).is_empty());
    for (owner, room_id) in [(1, 10), (2, 20), (3, 30)] {
        assert!(room_handler::create_room(
            &mut state,
            owner,
            registration(room_id),
            "n".to_string(),
            "d".to_string(),
            true
        ));
    }
    for (room_id, peer) in [(20, 4), (20, 5), (20, 6), (10, 7)] {
        assert!(room_handler::join_room(&mut state, room_id, peer, &ids(&[])));
    }
    // sizes: 30 has 1, 10 has 2, 20 has 4
    assert_eq!(rank_rooms(&state), vec![30, 10, 20]);
    assert!(room_handler::join_room(&mut state, 30, 8, &ids(&[])));
    assert!(room_handler::join_room(&mut state, 30, 9, &ids(&[])));
    // sizes: 10 has 2, 30 has 3, 20 has 4
    assert_eq!(rank_rooms(&state), vec![10, 30, 20]);
}

#[test]
fn rooms_of_equal_size_are_ranked_by_id() {
    let mut state = ServerState::new();
    for id in 1..=5 {
        state.connect_user(id);
        assert!(room_handler::create_room(
            &mut state,
            id,
            registration(id * 10),
            "n".to_string(),
            "d".to_string(),
            true
        ));
    }
    state.connect_user(6);
    assert!(room_handler::join_room(&mut state, 30, 6, &ids(&[])));
    assert_eq!(rank_rooms(&state), vec![10, 20, 40, 50, 30]);
}

#[test]
fn top_rooms_partial_failure() {
    let mut state = ServerState::new();
    for id in 1..=6 {
        state.connect_user(id);
    }
    for (owner, room_id) in [(1, 10), (2, 20), (3, 30)] {
        assert!(room_handler::create_room(
            &mut state,
            owner,
            registration(room_id),
            format!("room {}", room_id),
            format!("about {}", room_id),
            room_id != 30
        ));
    }
    for (room_id, peer) in [(10, 4), (10, 5), (20, 6)] {
        assert!(room_handler::join_room(&mut state, room_id, peer, &ids(&[])));
    }
    // sizes: 30 has 1, 20 has 2, 10 has 3; the previews of 20 could not be had
    let mut enrichments = HashMap::new();
    enrichments.insert(10, enrichment(true, true, 1, &[1, 4, 5]));
    enrichments.insert(20, enrichment(false, true, 2, &[]));
    enrichments.insert(30, enrichment(true, true, 3, &[3]));
    let listing = get_top_rooms(&state, enrichments);
    assert_eq!(listed(&listing), vec![30, 10]);

    let first = &listing[0];
    assert_eq!(first.room_id, 30);
    assert_eq!(first.num_of_people_in_room, 1);
    assert_eq!(first.details.name, "room 30");
    assert_eq!(first.details.description, "about 30");
    assert_eq!(first.details.chat_throttle, 1000);
    assert!(first.details.is_private);
    assert_eq!(first.voice_server_id, "voice-30");
    assert_eq!(first.creator_id, 3);
    assert!(!first.auto_speaker_setting);
    assert_eq!(first.created_at, "2021-06-01T00:00:00Z");
    assert_eq!(first.chat_mode, "slow");
    assert_eq!(first.people_preview_data.len(), 1);
    assert_eq!(first.people_preview_data[&3].display_name, "user-3");
    assert_eq!(first.people_preview_data[&3].avatar_url, "https://a/user-3");

    let second = &listing[1];
    assert_eq!(second.room_id, 10);
    assert_eq!(second.num_of_people_in_room, 3);
    assert!(!second.details.is_private);
    assert_eq!(second.creator_id, 1);
    assert_eq!(second.people_preview_data.len(), 3);
}

#[test]
fn top_rooms_leave_out_what_the_store_did_not_answer() {
    let mut state = ServerState::new();
    for id in 1..=4 {
        state.connect_user(id);
        assert!(room_handler::create_room(
            &mut state,
            id,
            registration(id * 10),
            "n".to_string(),
            "d".to_string(),
            true
        ));
    }
    state.connect_user(5);
    state.connect_user(6);
    assert!(room_handler::join_room(&mut state, 40, 5, &ids(&[])));
    assert!(room_handler::join_room(&mut state, 40, 6, &ids(&[])));
    assert!(room_handler::join_room(&mut state, 20, 5, &ids(&[])) == false);
    assert!(get_top_rooms(&state, HashMap::new()).is_empty());

    let mut enrichments = HashMap::new();
    // the owner query failed
    enrichments.insert(10, enrichment(true, false, 1, &[1]));
    // both failed
    enrichments.insert(20, enrichment(false, false, 2, &[2]));
    // nothing for 30; 40 is complete; 50 is no live room
    enrichments.insert(40, enrichment(true, true, 4, &[4, 5, 6]));
    enrichments.insert(50, enrichment(true, true, 9, &[9]));
    let listing = get_top_rooms(&state, enrichments);
    assert_eq!(listed(&listing), vec![40]);
    assert_eq!(listing[0].num_of_people_in_room, 3);
    assert!(listing[0].auto_speaker_setting);

    let mut all = HashMap::new();
    for id in 1..=4 {
        all.insert(id * 10, enrichment(true, true, id, &[id]));
    }
    let listing = get_top_rooms(&state, all);
    assert_eq!(listed(&listing), vec![10, 20, 30, 40]);
}

#[test]
fn an_entry_shows_the_room_with_what_the_store_gave() {
    let state = world();
    let mut listing: Vec<CommunicationRoom> = Vec::new();
    let mut previews = HashMap::new();
    previews.insert(1, preview("ann"));
    construct_communication_room(
        previews,
        state.room(10).unwrap(),
        &mut listing,
        77,
        "emotes".to_string(),
    );
    construct_communication_room(
        HashMap::new(),
        state.room(20).unwrap(),
        &mut listing,
        3,
        "open".to_string(),
    );
    assert_eq!(listed(&listing), vec![10, 20]);
    assert_eq!(listing[0].details.name, "lobby");
    assert_eq!(listing[0].details.description, "where it starts");
    assert!(!listing[0].details.is_private);
    assert_eq!(listing[0].num_of_people_in_room, 2);
    assert_eq!(listing[0].creator_id, 77);
    assert_eq!(listing[0].chat_mode, "emotes");
    assert_eq!(listing[0].people_preview_data[&1].display_name, "ann");
    assert!(!listing[0].auto_speaker_setting);
    assert!(listing[1].details.is_private);
    assert_eq!(listing[1].num_of_people_in_room, 1);
    assert!(listing[1].auto_speaker_setting);
    assert!(listing[1].people_preview_data.is_empty());
}

#[test]
fn a_follow_list_names_its_user_and_each_id_once() {
    let mut state = world();
    let list = send_follow_list(&ids(&[7, 8, 9]), &mut state, 1, 42).unwrap();
    assert_eq!(list.for_user, 42);
    let mut user_ids = list.user_ids;
    user_ids.sort();
    assert_eq!(user_ids, vec![7, 8, 9]);

    let list = send_follow_list(&ids(&[]), &mut state, 1, 42).unwrap();
    assert!(list.user_ids.is_empty());

    // a query that failed gives the empty list
    let failed = UserIdsResult { ok: false, user_ids: [7, 8].into_iter().collect() };
    let list = send_follow_list(&failed, &mut state, 1, 42).unwrap();
    assert_eq!(list.for_user, 42);
    assert!(list.user_ids.is_empty());

    // the requester is gone
    assert!(send_follow_list(&ids(&[7]), &mut state, 9, 42).is_none());
}
