//! What the persistent store answers to the coordinator's queries, as plain
//! values. The queries themselves are made elsewhere; every answer carries
//! a flag that tells whether the query succeeded.

use crate::communication::types::UserPreview;
use std::collections::{HashMap, HashSet};
use vstd::prelude::*;

verus! {

broadcast use vstd::std_specs::hash::group_hash_axioms;

/// The answer to a query for a set of user ids: the ids blocked from a
/// room, the followers of a user, or the users that a user follows.
pub struct UserIdsResult {
    /// Whether the query succeeded.
    pub ok: bool,
    pub user_ids: HashSet<i32>,
}

impl UserIdsResult {
    /// The ids that the store reported. A query that failed reported none.
    pub open spec fn reported(&self) -> Set<i32> {
        if self.ok {
            self.user_ids@
        } else {
            Set::empty()
        }
    }

    /// Whether the store reported `user_id`.
    pub fn reports(&self, user_id: i32) -> (found: bool)
        ensures
            found == self.reported().contains(user_id),
    {
        self.ok && self.user_ids.contains(&user_id)
    }
}

/// The answer to a query for a room's owner and chat mode.
pub struct RoomOwnerAndSettings {
    /// Whether the query succeeded.
    pub ok: bool,
    pub owner_id: i32,
    pub chat_mode: String,
}

/// The answer to a query for the previews of a set of users.
pub struct UserPreviewsResult {
    /// Whether the query succeeded.
    pub ok: bool,
    pub previews: HashMap<i32, UserPreview>,
}

/// What the store answered about one room when the top rooms were put
/// together: the previews of its members, and its owner and chat mode.
pub struct RoomEnrichment {
    pub previews: UserPreviewsResult,
    pub owner_and_settings: RoomOwnerAndSettings,
}

impl RoomEnrichment {
    /// Whether both queries succeeded.
    pub open spec fn complete(&self) -> bool {
        self.previews.ok && self.owner_and_settings.ok
    }
}

} // verus!
