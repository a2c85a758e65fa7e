//! What the host's user does to a room: each command changes the room and
//! sends the room, as it then is, to every connection bound to it.

use crate::room::{ticket_of, JiraTicket};
use crate::state::{
    after_remove_participant, after_reset_votes, after_set_revealed, after_set_ticket,
    is_broadcast, AppState,
};
use vstd::prelude::*;

verus! {

/// Shows the votes of the room `room_id` to everyone.
pub fn reveal_votes(state: &mut AppState, room_id: &str)
    ensures
        is_broadcast(after_set_revealed(old(state)@, room_id@, true), room_id@, final(state)@),
{
    state.set_votes_revealed(room_id, true);
    state.broadcast_room_update(room_id);
}

/// Hides the votes of the room `room_id` again.
pub fn hide_votes(state: &mut AppState, room_id: &str)
    ensures
        is_broadcast(after_set_revealed(old(state)@, room_id@, false), room_id@, final(state)@),
{
    state.set_votes_revealed(room_id, false);
    state.broadcast_room_update(room_id);
}

/// Clears the votes of the room `room_id` for the next round.
pub fn reset_votes(state: &mut AppState, room_id: &str)
    ensures
        is_broadcast(after_reset_votes(old(state)@, room_id@), room_id@, final(state)@),
{
    state.reset_votes(room_id);
    state.broadcast_room_update(room_id);
}

/// Removes a participant from the room `room_id` and severs the
/// participant's connection.
pub fn kick_participant(state: &mut AppState, room_id: &str, participant_id: &str)
    ensures
        is_broadcast(
            after_remove_participant(old(state)@, room_id@, participant_id@),
            room_id@,
            final(state)@,
        ),
{
    state.remove_participant(room_id, participant_id);
    state.broadcast_room_update(room_id);
}

/// Attaches a ticket to the room `room_id`, or detaches its ticket.
pub fn show_ticket(state: &mut AppState, room_id: &str, ticket: Option<JiraTicket>)
    ensures
        is_broadcast(
            after_set_ticket(old(state)@, room_id@, ticket_of(ticket)),
            room_id@,
            final(state)@,
        ),
{
    state.set_current_ticket(room_id, ticket);
    state.broadcast_room_update(room_id);
}

/// Detaches the ticket of the room `room_id`.
pub fn clear_current_ticket(state: &mut AppState, room_id: &str)
    ensures
        is_broadcast(after_set_ticket(old(state)@, room_id@, None), room_id@, final(state)@),
{
    show_ticket(state, room_id, None)
}

} // verus!
