//! Routing a response to the requester's connection.

use crate::communication::types::BasicResponse;
use crate::state::state::ServerState;
use vstd::prelude::*;

verus! {

broadcast use vstd::std_specs::hash::group_hash_axioms;

/// Frames a response for `requester_id`.
///
/// The result is the response to write to the requester's connection, or
/// `None` where the requester is no longer connected: the response is then
/// dropped in silence. The exclusive view of the world is asked for, so
/// that no disconnect can run between this look-up and the write; the
/// world itself is left as it was.
pub fn send_to_requester_channel(
    response_data: String,
    requester_id: i32,
    state: &mut ServerState,
    op_code: String,
) -> (framed: Option<BasicResponse>)
    ensures
        final(state)@ == old(state)@,
        framed is Some == old(state)@.users.contains_key(requester_id),
        framed matches Some(response) ==> response.response_op_code@ == op_code@
            && response.response_containing_data@ == response_data@,
{
    if state.active_users.contains_key(&requester_id) {
        Some(BasicResponse { response_op_code: op_code, response_containing_data: response_data })
    } else {
        None
    }
}

} // verus!
