//! What the host offers to a participant's client: the session protocol of
//! a live connection, and the requests that need no connection.
//!
//! A session is one live connection. It starts unjoined, is joined once the
//! client has entered a room, and is closed when the transport ends. The
//! transport itself is the caller's: it hands each event to
//! [`Session::handle_event`], sends the reply on that connection, and
//! delivers what the store has queued.

use crate::room::{
    story_point_tokens, story_points, Participant, ParticipantView, Room, RoomView,
    WsMessage, WsMessageView,
};
use crate::state::{
    after_add_participant, after_register, after_remove_participant, after_set_vote,
    after_unregister, is_broadcast, AppState, AppStateView,
};
use crate::text::text_of;
use vstd::prelude::*;
use vstd::string::*;

verus! {

/// The story-point tokens that clients offer for voting.
pub fn get_story_points() -> (points: Vec<&'static str>)
    ensures
        points@.map_values(|t: &'static str| t@) == story_point_tokens(),
{
    story_points()
}

/// The participant that a client becomes when it joins under `name`: not
/// the host, and without a vote.
pub open spec fn joining(id: Seq<char>, name: Seq<char>) -> ParticipantView {
    ParticipantView { id: id, name: name, vote: None, is_host: false }
}

/// What a client gets that has joined by request: its id and the room.
#[derive(Debug, PartialEq, Eq)]
pub struct JoinResponse {
    pub participant_id: String,
    pub room: Room,
}

/// Whether `after` and `response` are what joining the room `room_id` as
/// `participant` makes of the store `before`: the participant is appended
/// and the room is sent to its connections; the response holds the
/// participant's id and the room as it then is. Of a room that does not
/// exist nothing changes and there is no response.
pub open spec fn is_join_by_request(
    before: AppStateView,
    room_id: Seq<char>,
    participant: ParticipantView,
    after: AppStateView,
    response: Option<(Seq<char>, RoomView)>,
) -> bool {
    if before.rooms.contains_key(room_id) {
        let entered = after_add_participant(before, room_id, participant);
        &&& is_broadcast(entered, room_id, after)
        &&& response == Some((participant.id, entered.rooms[room_id]))
    } else {
        after == before && response is None
    }
}

/// The view of a response to a join.
pub open spec fn response_of(r: Option<JoinResponse>) -> Option<(Seq<char>, RoomView)> {
    match r {
        Some(response) => Some((response.participant_id@, response.room@)),
        None => None,
    }
}

/// Joins the room `room_id` under `name`, with a fresh participant id.
pub fn join_room(state: &mut AppState, room_id: &str, name: String) -> (response: Option<
    JoinResponse,
>)
    ensures
        exists|id: Seq<char>|
            is_join_by_request(
                old(state)@,
                room_id@,
                #[trigger] joining(id, name@),
                final(state)@,
                response_of(response),
            ),
{
    let participant = Participant::new(name, false);
    assert(participant@ == joining(participant@.id, name@));
    join_room_as(state, room_id, participant)
}

/// Joins the room `room_id` as `participant`.
pub fn join_room_as(state: &mut AppState, room_id: &str, participant: Participant) -> (response:
    Option<JoinResponse>)
    ensures
        is_join_by_request(
            old(state)@,
            room_id@,
            participant@,
            final(state)@,
            response_of(response),
        ),
{
    let participant_id = participant.id.clone();
    if state.add_participant(room_id, participant).is_some() {
        let ghost entered = state@;
        state.broadcast_room_update(room_id);
        match state.get_room(room_id) {
            Some(room) => {
                return Some(JoinResponse { participant_id: participant_id, room: room });
            },
            None => {},
        }
    }
    None
}

/// Where a session stands.
#[derive(Debug, PartialEq, Eq)]
pub enum Session {
    /// The client has not entered a room.
    Unjoined,
    /// The client is the participant `participant_id` of the room `room_id`.
    Joined { participant_id: String, room_id: String },
    /// The connection has ended.
    Closed,
}

/// What a [`Session`] holds, as plain text.
pub enum SessionView {
    Unjoined,
    Joined { participant_id: Seq<char>, room_id: Seq<char> },
    Closed,
}

impl View for Session {
    type V = SessionView;

    open spec fn view(&self) -> SessionView {
        match *self {
            Session::Unjoined => SessionView::Unjoined,
            Session::Joined { participant_id, room_id } => SessionView::Joined {
                participant_id: participant_id@,
                room_id: room_id@,
            },
            Session::Closed => SessionView::Closed,
        }
    }
}

/// What the transport of a session reports.
#[derive(Debug, PartialEq, Eq)]
pub enum SessionEvent {
    /// A message that could be decoded.
    Message(WsMessage),
    /// A payload that could not be decoded.
    Malformed,
    /// A close frame, the end of the stream or a transport error.
    Closed,
}

/// What a [`SessionEvent`] holds, as plain values.
pub enum SessionEventView {
    Message(WsMessageView),
    Malformed,
    Closed,
}

impl View for SessionEvent {
    type V = SessionEventView;

    open spec fn view(&self) -> SessionEventView {
        match *self {
            SessionEvent::Message(m) => SessionEventView::Message(m@),
            SessionEvent::Malformed => SessionEventView::Malformed,
            SessionEvent::Closed => SessionEventView::Closed,
        }
    }
}

/// The view of an optional message.
pub open spec fn message_of(m: Option<WsMessage>) -> Option<WsMessageView> {
    match m {
        Some(message) => Some(message@),
        None => None,
    }
}

/// The reply to a client that asks for a room that does not exist.
pub open spec fn room_not_found() -> WsMessageView {
    WsMessageView::Error { message: "Room not found"@ }
}

/// Whether nothing has happened: the session and the store are as before,
/// and there is no reply.
pub open spec fn is_ignored(
    session: SessionView,
    store: AppStateView,
    next: SessionView,
    after: AppStateView,
    reply: Option<WsMessageView>,
) -> bool {
    next == session && after == store && reply is None
}

/// Whether `next`, `after` and `reply` are what the request to join the
/// room `room_id` as `participant` makes of a session and the store. Where
/// the room exists, the participant is appended, the session is joined and
/// its connection bound to the room, and the room is sent to its
/// connections. Where it does not, nothing changes and the reply says so.
pub open spec fn is_join(
    session: SessionView,
    store: AppStateView,
    room_id: Seq<char>,
    participant: ParticipantView,
    next: SessionView,
    after: AppStateView,
    reply: Option<WsMessageView>,
) -> bool {
    if store.rooms.contains_key(room_id) {
        &&& next == (SessionView::Joined { participant_id: participant.id, room_id: room_id })
        &&& is_broadcast(
            after_register(
                after_add_participant(store, room_id, participant),
                participant.id,
                room_id,
            ),
            room_id,
            after,
        )
        &&& reply is None
    } else {
        next == session && after == store && reply == Some(room_not_found())
    }
}

/// Whether `next`, `after` and `reply` are what a vote makes of a session
/// and the store: the vote of a joined session is recorded and the room
/// sent to its connections; the vote of an unjoined session is ignored.
pub open spec fn is_vote(
    session: SessionView,
    store: AppStateView,
    vote: Option<Seq<char>>,
    next: SessionView,
    after: AppStateView,
    reply: Option<WsMessageView>,
) -> bool {
    match session {
        SessionView::Joined { participant_id, room_id } => {
            &&& next == session
            &&& is_broadcast(after_set_vote(store, room_id, participant_id, vote), room_id, after)
            &&& reply is None
        },
        _ => is_ignored(session, store, next, after, reply),
    }
}

/// Whether `next`, `after` and `reply` are what the end of the transport
/// makes of a session and the store: the session is closed; if it was
/// joined, its connection is forgotten, its participant leaves the room,
/// and the room is sent to the connections that remain.
pub open spec fn is_close(
    session: SessionView,
    store: AppStateView,
    next: SessionView,
    after: AppStateView,
    reply: Option<WsMessageView>,
) -> bool {
    &&& next is Closed
    &&& reply is None
    &&& match session {
        SessionView::Joined { participant_id, room_id } => is_broadcast(
            after_remove_participant(
                after_unregister(store, participant_id),
                room_id,
                participant_id,
            ),
            room_id,
            after,
        ),
        _ => after == store,
    }
}

/// Whether `next`, `after` and `reply` are what the event `event` makes of
/// a session and the store. A closed session takes no further event; a
/// payload that cannot be decoded, and a message that only the host sends,
/// are ignored; a ping is answered and changes nothing.
pub open spec fn is_step(
    session: SessionView,
    store: AppStateView,
    event: SessionEventView,
    next: SessionView,
    after: AppStateView,
    reply: Option<WsMessageView>,
) -> bool {
    if session is Closed {
        is_ignored(session, store, next, after, reply)
    } else {
        match event {
            SessionEventView::Closed => is_close(session, store, next, after, reply),
            SessionEventView::Malformed => is_ignored(session, store, next, after, reply),
            SessionEventView::Message(WsMessageView::Join { room_id, name }) => exists|
                id: Seq<char>,
            |
                is_join(session, store, room_id, #[trigger] joining(id, name), next, after, reply),
            SessionEventView::Message(WsMessageView::Vote { vote }) => is_vote(
                session,
                store,
                vote,
                next,
                after,
                reply,
            ),
            SessionEventView::Message(WsMessageView::Ping) => next == session && after == store
                && reply == Some(WsMessageView::Pong),
            SessionEventView::Message(_) => is_ignored(session, store, next, after, reply),
        }
    }
}

impl Session {
    /// The session of a connection that has just been accepted.
    pub fn new() -> (session: Session)
        ensures
            session@ == SessionView::Unjoined,
    {
        Session::Unjoined
    }

    /// Takes one event of the transport, and gives the reply that goes to
    /// this connection only, if there is one.
    pub fn handle_event(&mut self, state: &mut AppState, event: SessionEvent) -> (reply: Option<
        WsMessage,
    >)
        ensures
            is_step(
                old(self)@,
                old(state)@,
                event@,
                final(self)@,
                final(state)@,
                message_of(reply),
            ),
    {
        match self {
            Session::Closed => {
                return None;
            },
            _ => {},
        }
        match event {
            SessionEvent::Closed => {
                self.close(state);
                None
            },
            SessionEvent::Malformed => None,
            SessionEvent::Message(message) => match message {
                WsMessage::Join { room_id, name } => {
                    let participant = Participant::new(name, false);
                    assert(participant@ == joining(participant@.id, name@));
                    self.join(state, room_id, participant)
                },
                WsMessage::Vote { vote } => {
                    self.vote(state, vote);
                    None
                },
                WsMessage::Ping => Some(WsMessage::Pong),
                _ => None,
            },
        }
    }

    /// Enters the room `room_id` as `participant`.
    pub fn join(&mut self, state: &mut AppState, room_id: String, participant: Participant) -> (reply:
        Option<WsMessage>)
        ensures
            is_join(
                old(self)@,
                old(state)@,
                room_id@,
                participant@,
                final(self)@,
                final(state)@,
                message_of(reply),
            ),
    {
        let participant_id = participant.id.clone();
        if state.add_participant(room_id.as_str(), participant).is_some() {
            state.register_connection(participant_id.clone(), room_id.clone());
            state.broadcast_room_update(room_id.as_str());
            *self = Session::Joined { participant_id: participant_id, room_id: room_id };
            None
        } else {
            Some(WsMessage::Error { message: String::from_str("Room not found") })
        }
    }

    /// Records the vote of the session's participant.
    pub fn vote(&mut self, state: &mut AppState, vote: Option<String>)
        ensures
            is_vote(old(self)@, old(state)@, text_of(vote), final(self)@, final(state)@, None),
    {
        match self {
            Session::Joined { participant_id, room_id } => {
                state.set_vote(room_id.as_str(), participant_id.as_str(), vote);
                state.broadcast_room_update(room_id.as_str());
            },
            _ => {},
        }
    }

    /// Ends the session.
    pub fn close(&mut self, state: &mut AppState)
        ensures
            is_close(old(self)@, old(state)@, final(self)@, final(state)@, None),
    {
        match self {
            Session::Joined { participant_id, room_id } => {
                state.unregister_connection(participant_id.as_str());
                state.remove_participant(room_id.as_str(), participant_id.as_str());
                state.broadcast_room_update(room_id.as_str());
            },
            _ => {},
        }
        *self = Session::Closed;
    }
}

} // verus!
