//! The records that travel with a request or a response.
//!
//! Every request and response starts as a `BasicRequest` or a
//! `BasicResponse`; what it is about travels in its data field as JSON.
//! Field names are snake case where possible; the voice server asks for
//! camel case.

use std::collections::HashMap;
use vstd::prelude::*;

verus! {

pub struct BasicRequest {
    pub request_op_code: String,
    pub request_containing_data: String,
}

pub struct BasicResponse {
    pub response_op_code: String,
    pub response_containing_data: String,
}

pub struct JoinRoomAndGetInfo {
    pub room_id: i32,
}

pub struct GetFollowList {
    pub user_id: i32,
}

pub struct GetFollowListResponse {
    pub user_ids: Vec<i32>,
    pub for_user: i32,
}

pub struct BasicRoomCreation {
    pub name: String,
    pub desc: String,
    pub public: bool,
}

pub struct DeafAndMuteStatus {
    pub muted: bool,
    pub deaf: bool,
}

pub struct DeafAndMuteStatusUpdate {
    pub muted: bool,
    pub deaf: bool,
    pub user_id: i32,
}

pub struct UserRemovedFromRoom {
    pub user_id: i32,
    pub type_of_ban: String,
    pub requester: i32,
    pub room_id: i32,
}

pub struct GetUserProfile {
    pub user_id: i32,
}

pub struct CommunicationRoom {
    pub details: RoomDetails,
    pub room_id: i32,
    pub num_of_people_in_room: i32,
    pub voice_server_id: String,
    pub creator_id: i32,
    pub people_preview_data: HashMap<i32, UserPreview>,
    pub auto_speaker_setting: bool,
    pub created_at: String,
    pub chat_mode: String,
}

pub struct AllUsersInRoomResponse {
    pub room_id: i32,
    pub users: Vec<User>,
}

pub struct RoomDetails {
    pub name: String,
    pub chat_throttle: i32,
    pub is_private: bool,
    pub description: String,
}

pub struct RoomPermissions {
    pub asked_to_speak: bool,
    pub is_speaker: bool,
    pub is_mod: bool,
}

pub struct UserPreview {
    pub display_name: String,
    pub avatar_url: String,
}

pub struct UserProfileEdit {
    pub display_name: Option<String>,
    pub username: Option<String>,
    pub bio: Option<String>,
    pub avatar_url: Option<String>,
    pub banner_url: Option<String>,
}

pub struct RoomSettingsEditOrCreation {
    pub name: String,
    pub scheduled_for: String,
    pub description: String,
}

pub struct BlockUserFromRoom {
    pub user_id: i32,
    pub room_id: i32,
}

pub struct ScheduledRoomUpdate {
    pub room_id: i32,
    pub name: String,
    pub scheduled_for: String,
    pub description: String,
}

pub struct RoomUpdate {
    pub name: String,
    pub public: bool,
    pub chat_throttle: i32,
    pub description: String,
    pub auto_speaker: bool,
}

pub struct GenericOnlyUserId {
    pub user_id: i32,
}

/// A user's profile as another user sees it.
pub struct User {
    pub you_are_following: bool,
    pub username: String,
    pub they_blocked_you: bool,
    pub num_following: i32,
    pub num_followers: i32,
    pub last_online: String,
    pub user_id: i32,
    pub follows_you: bool,
    pub contributions: i32,
    pub display_name: String,
    pub bio: String,
    pub avatar_url: String,
    pub banner_url: String,
    pub i_blocked_them: bool,
}

pub struct BaseUser {
    pub username: String,
    pub last_online: String,
    pub user_id: i32,
    pub bio: String,
    pub display_name: String,
    pub avatar_url: String,
    pub banner_url: String,
    pub num_following: i32,
    pub num_followers: i32,
    pub contributions: i32,
}

#[allow(non_snake_case)]
pub struct VoiceServerDestroyRoom {
    pub roomId: String,
}

#[allow(non_snake_case)]
pub struct VoiceServerCreateRoom {
    pub roomId: String,
}

#[allow(non_snake_case)]
pub struct VoiceServerClosePeer {
    pub roomId: String,
    pub peerId: String,
    pub kicked: bool,
}

#[allow(non_snake_case)]
pub struct GenericRoomIdAndPeerId {
    pub roomId: i32,
    pub peerId: i32,
}

pub struct GenericRoomId {
    pub room_id: i32,
}

pub struct GenericUserId {
    pub user_id: i32,
}

/// A request to the voice server: an operation, its data and the id of
/// the user it concerns.
pub struct VoiceServerRequest<T> {
    pub op: String,
    pub d: T,
    pub uid: String,
}

pub struct AuthCredentials {
    pub access: String,
    pub refresh: String,
    pub oauth_type: String,
}

/// The tokens are optional: a refresh token need not be exchanged for a
/// new pair.
pub struct AuthResponse {
    pub new_access: Option<String>,
    pub new_refresh: Option<String>,
}

} // verus!
