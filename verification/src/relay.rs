//! The relay client: the host's side of the mirroring protocol.
//!
//! A relay makes the host's rooms reachable where the host itself is not.
//! The client keeps its own list of the rooms as the relay reports them,
//! and a queue of the messages that are to go to the relay. It does not
//! own the transport: whoever does hands each event of the transport to
//! [`RelayClient::handle_event`] and sends what [`RelayClient::take_outbox`]
//! gives.

use crate::room::{
    clone_rooms, room_of, rooms_of, JiraTicket, JiraTicketView, Room, RoomView,
};
use crate::scan::{first_index, lemma_first_index_is};
use vstd::prelude::*;
use vstd::string::*;

verus! {

/// The relay that is used where the caller names none.
pub const DEFAULT_RELAY_URL: &'static str = "wss://scrum-poker-hydra.ngrok.dev";

/// The seconds between two heartbeats to the relay.
pub const HEARTBEAT_SECS: u64 = 30;

/// A message from the host to the relay.
#[derive(Debug, PartialEq, Eq)]
pub enum OutgoingMessage {
    HostRegister,
    HostCreateRoom { name: String },
    HostSyncRoom { room: Room },
    HostDeleteRoom { room_id: String },
    HostRevealVotes { room_id: String },
    HostHideVotes { room_id: String },
    HostResetVotes { room_id: String },
    HostKickParticipant { room_id: String, participant_id: String },
    HostSetTicket { room_id: String, ticket: JiraTicket },
    HostClearTicket { room_id: String },
    Ping,
}

/// What an [`OutgoingMessage`] holds, as plain values.
pub enum OutgoingMessageView {
    HostRegister,
    HostCreateRoom { name: Seq<char> },
    HostSyncRoom { room: RoomView },
    HostDeleteRoom { room_id: Seq<char> },
    HostRevealVotes { room_id: Seq<char> },
    HostHideVotes { room_id: Seq<char> },
    HostResetVotes { room_id: Seq<char> },
    HostKickParticipant { room_id: Seq<char>, participant_id: Seq<char> },
    HostSetTicket { room_id: Seq<char>, ticket: JiraTicketView },
    HostClearTicket { room_id: Seq<char> },
    Ping,
}

impl View for OutgoingMessage {
    type V = OutgoingMessageView;

    open spec fn view(&self) -> OutgoingMessageView {
        match *self {
            OutgoingMessage::HostRegister => OutgoingMessageView::HostRegister,
            OutgoingMessage::HostCreateRoom { name } => OutgoingMessageView::HostCreateRoom {
                name: name@,
            },
            OutgoingMessage::HostSyncRoom { room } => OutgoingMessageView::HostSyncRoom {
                room: room@,
            },
            OutgoingMessage::HostDeleteRoom { room_id } => OutgoingMessageView::HostDeleteRoom {
                room_id: room_id@,
            },
            OutgoingMessage::HostRevealVotes { room_id } => OutgoingMessageView::HostRevealVotes {
                room_id: room_id@,
            },
            OutgoingMessage::HostHideVotes { room_id } => OutgoingMessageView::HostHideVotes {
                room_id: room_id@,
            },
            OutgoingMessage::HostResetVotes { room_id } => OutgoingMessageView::HostResetVotes {
                room_id: room_id@,
            },
            OutgoingMessage::HostKickParticipant {
                room_id,
                participant_id,
            } => OutgoingMessageView::HostKickParticipant {
                room_id: room_id@,
                participant_id: participant_id@,
            },
            OutgoingMessage::HostSetTicket { room_id, ticket } => OutgoingMessageView::HostSetTicket {
                room_id: room_id@,
                ticket: ticket@,
            },
            OutgoingMessage::HostClearTicket { room_id } => OutgoingMessageView::HostClearTicket {
                room_id: room_id@,
            },
            OutgoingMessage::Ping => OutgoingMessageView::Ping,
        }
    }
}

/// The tag under which a message to the relay travels.
pub open spec fn outgoing_tag(m: OutgoingMessageView) -> Seq<char> {
    match m {
        OutgoingMessageView::HostRegister => "host_register"@,
        OutgoingMessageView::HostCreateRoom { .. } => "host_create_room"@,
        OutgoingMessageView::HostSyncRoom { .. } => "host_sync_room"@,
        OutgoingMessageView::HostDeleteRoom { .. } => "host_delete_room"@,
        OutgoingMessageView::HostRevealVotes { .. } => "host_reveal_votes"@,
        OutgoingMessageView::HostHideVotes { .. } => "host_hide_votes"@,
        OutgoingMessageView::HostResetVotes { .. } => "host_reset_votes"@,
        OutgoingMessageView::HostKickParticipant { .. } => "host_kick_participant"@,
        OutgoingMessageView::HostSetTicket { .. } => "host_set_ticket"@,
        OutgoingMessageView::HostClearTicket { .. } => "host_clear_ticket"@,
        OutgoingMessageView::Ping => "ping"@,
    }
}

impl OutgoingMessage {
    /// The value of the field `type` under which the message travels.
    pub fn tag(&self) -> (t: &'static str)
        ensures
            t@ == outgoing_tag(self@),
    {
        match self {
            OutgoingMessage::HostRegister => "host_register",
            OutgoingMessage::HostCreateRoom { .. } => "host_create_room",
            OutgoingMessage::HostSyncRoom { .. } => "host_sync_room",
            OutgoingMessage::HostDeleteRoom { .. } => "host_delete_room",
            OutgoingMessage::HostRevealVotes { .. } => "host_reveal_votes",
            OutgoingMessage::HostHideVotes { .. } => "host_hide_votes",
            OutgoingMessage::HostResetVotes { .. } => "host_reset_votes",
            OutgoingMessage::HostKickParticipant { .. } => "host_kick_participant",
            OutgoingMessage::HostSetTicket { .. } => "host_set_ticket",
            OutgoingMessage::HostClearTicket { .. } => "host_clear_ticket",
            OutgoingMessage::Ping => "ping",
        }
    }
}

/// A message from the relay to the host.
#[derive(Debug, PartialEq, Eq)]
pub enum IncomingMessage {
    HostRegistered { rooms: Vec<Room>, relay_url: String },
    RoomCreated { room: Room },
    RoomSynced { room: Room },
    RoomDeleted { room_id: String },
    RoomUpdate { room: Room },
    Error { message: String },
    Pong,
}

/// What an [`IncomingMessage`] holds, as plain values.
pub enum IncomingMessageView {
    HostRegistered { rooms: Seq<RoomView>, relay_url: Seq<char> },
    RoomCreated { room: RoomView },
    RoomSynced { room: RoomView },
    RoomDeleted { room_id: Seq<char> },
    RoomUpdate { room: RoomView },
    Error { message: Seq<char> },
    Pong,
}

impl View for IncomingMessage {
    type V = IncomingMessageView;

    open spec fn view(&self) -> IncomingMessageView {
        match *self {
            IncomingMessage::HostRegistered {
                rooms,
                relay_url,
            } => IncomingMessageView::HostRegistered {
                rooms: rooms_of(rooms@),
                relay_url: relay_url@,
            },
            IncomingMessage::RoomCreated { room } => IncomingMessageView::RoomCreated {
                room: room@,
            },
            IncomingMessage::RoomSynced { room } => IncomingMessageView::RoomSynced {
                room: room@,
            },
            IncomingMessage::RoomDeleted { room_id } => IncomingMessageView::RoomDeleted {
                room_id: room_id@,
            },
            IncomingMessage::RoomUpdate { room } => IncomingMessageView::RoomUpdate {
                room: room@,
            },
            IncomingMessage::Error { message } => IncomingMessageView::Error {
                message: message@,
            },
            IncomingMessage::Pong => IncomingMessageView::Pong,
        }
    }
}

/// The tag under which a message from the relay travels.
pub open spec fn incoming_tag(m: IncomingMessageView) -> Seq<char> {
    match m {
        IncomingMessageView::HostRegistered { .. } => "host_registered"@,
        IncomingMessageView::RoomCreated { .. } => "room_created"@,
        IncomingMessageView::RoomSynced { .. } => "room_synced"@,
        IncomingMessageView::RoomDeleted { .. } => "room_deleted"@,
        IncomingMessageView::RoomUpdate { .. } => "room_update"@,
        IncomingMessageView::Error { .. } => "error"@,
        IncomingMessageView::Pong => "pong"@,
    }
}

impl IncomingMessage {
    /// The value of the field `type` under which the message travels.
    pub fn tag(&self) -> (t: &'static str)
        ensures
            t@ == incoming_tag(self@),
    {
        match self {
            IncomingMessage::HostRegistered { .. } => "host_registered",
            IncomingMessage::RoomCreated { .. } => "room_created",
            IncomingMessage::RoomSynced { .. } => "room_synced",
            IncomingMessage::RoomDeleted { .. } => "room_deleted",
            IncomingMessage::RoomUpdate { .. } => "room_update",
            IncomingMessage::Error { .. } => "error",
            IncomingMessage::Pong => "pong",
        }
    }
}

/// What the transport to the relay reports.
#[derive(Debug, PartialEq, Eq)]
pub enum RelayEvent {
    /// A message that could be decoded.
    Message(IncomingMessage),
    /// A payload that could not be decoded.
    Malformed,
    /// A close frame or a transport error: the end of the connection.
    Closed,
}

/// What a [`RelayEvent`] holds, as plain values.
pub enum RelayEventView {
    Message(IncomingMessageView),
    Malformed,
    Closed,
}

impl View for RelayEvent {
    type V = RelayEventView;

    open spec fn view(&self) -> RelayEventView {
        match *self {
            RelayEvent::Message(m) => RelayEventView::Message(m@),
            RelayEvent::Malformed => RelayEventView::Malformed,
            RelayEvent::Closed => RelayEventView::Closed,
        }
    }
}

/// Where a relay client stands. `Disconnected` is final: a new connection
/// is a new client.
#[derive(Debug, Clone, Copy, PartialEq, Eq, Structural)]
pub enum RelayPhase {
    /// The transport stands and the relay has not yet answered the
    /// registration.
    Connecting,
    /// The relay has registered the host.
    Registered,
    /// The connection has ended.
    Disconnected,
}

/// The state of a relay client, as plain values.
pub struct RelayClientView {
    /// The rooms as the relay has reported them.
    pub rooms: Seq<RoomView>,
    /// The address under which the relay can be shared.
    pub relay_url: Seq<char>,
    pub phase: RelayPhase,
    /// Whether the outbound path still takes messages.
    pub sending: bool,
    /// The messages that wait to be sent, the oldest first.
    pub outbox: Seq<OutgoingMessageView>,
}

/// The condition "has the id `id`" on rooms.
pub open spec fn room_has_id(id: Seq<char>) -> spec_fn(RoomView) -> bool {
    |r: RoomView| r.id == id
}

/// The condition "has another id than `id`" on rooms.
pub open spec fn room_has_other_id(id: Seq<char>) -> spec_fn(RoomView) -> bool {
    |r: RoomView| r.id != id
}

/// The first room of `rooms` with the id `id`.
pub open spec fn find_room(rooms: Seq<RoomView>, id: Seq<char>) -> Option<RoomView> {
    let i = first_index(rooms, room_has_id(id)) as int;
    if i < rooms.len() {
        Some(rooms[i])
    } else {
        None
    }
}

/// `rooms` with its first room of `room`'s id replaced by `room`; where it
/// holds no such room, `rooms` itself.
pub open spec fn with_room_replaced(rooms: Seq<RoomView>, room: RoomView) -> Seq<RoomView> {
    let i = first_index(rooms, room_has_id(room.id)) as int;
    if i < rooms.len() {
        rooms.update(i, room)
    } else {
        rooms
    }
}

/// The client after the message `m` from the relay.
pub open spec fn after_message(c: RelayClientView, m: IncomingMessageView) -> RelayClientView {
    match m {
        IncomingMessageView::HostRegistered { rooms, relay_url } => RelayClientView {
            rooms: rooms,
            relay_url: relay_url,
            phase: RelayPhase::Registered,
            ..c
        },
        IncomingMessageView::RoomCreated { room } => RelayClientView {
            rooms: c.rooms.push(room),
            ..c
        },
        IncomingMessageView::RoomDeleted { room_id } => RelayClientView {
            rooms: c.rooms.filter(room_has_other_id(room_id)),
            ..c
        },
        IncomingMessageView::RoomUpdate { room } => RelayClientView {
            rooms: with_room_replaced(c.rooms, room),
            ..c
        },
        IncomingMessageView::RoomSynced { .. } => c,
        IncomingMessageView::Error { .. } => c,
        IncomingMessageView::Pong => c,
    }
}

/// The client after the event `e` of the transport. A client that is
/// disconnected takes no further event.
pub open spec fn after_event(c: RelayClientView, e: RelayEventView) -> RelayClientView {
    if c.phase == RelayPhase::Disconnected {
        c
    } else {
        match e {
            RelayEventView::Message(m) => after_message(c, m),
            RelayEventView::Malformed => c,
            RelayEventView::Closed => RelayClientView { phase: RelayPhase::Disconnected, ..c },
        }
    }
}

/// The room that the event `e` announces to whoever follows the rooms: a
/// room that the relay has created, or one that it has updated and that
/// the client knew.
pub open spec fn announced_room(c: RelayClientView, e: RelayEventView) -> Option<RoomView> {
    if c.phase == RelayPhase::Disconnected {
        None
    } else {
        match e {
            RelayEventView::Message(IncomingMessageView::RoomCreated { room }) => Some(room),
            RelayEventView::Message(IncomingMessageView::RoomUpdate { room }) => {
                if find_room(c.rooms, room.id) is Some {
                    Some(room)
                } else {
                    None
                }
            },
            _ => None,
        }
    }
}

/// The client as it stands once the transport is established: no rooms
/// yet, and the registration as the first message to send.
pub open spec fn connected_client(url: Seq<char>) -> RelayClientView {
    RelayClientView {
        rooms: Seq::empty(),
        relay_url: url,
        phase: RelayPhase::Connecting,
        sending: true,
        outbox: seq![OutgoingMessageView::HostRegister],
    }
}

/// The client after `m` has been handed to it for sending: queued behind
/// what waits, as long as the outbound path takes messages.
pub open spec fn after_send(c: RelayClientView, m: OutgoingMessageView) -> RelayClientView {
    if c.sending {
        RelayClientView { outbox: c.outbox.push(m), ..c }
    } else {
        c
    }
}

/// The messages of a list, each as plain values, in the list's order.
pub open spec fn outgoing_of(ms: Seq<OutgoingMessage>) -> Seq<OutgoingMessageView> {
    ms.map_values(|m: OutgoingMessage| m@)
}

/// The client's side of the mirroring protocol.
#[derive(Debug)]
pub struct RelayClient {
    rooms: Vec<Room>,
    relay_url: String,
    phase: RelayPhase,
    sending: bool,
    outbox: Vec<OutgoingMessage>,
}

impl View for RelayClient {
    type V = RelayClientView;

    closed spec fn view(&self) -> RelayClientView {
        RelayClientView {
            rooms: rooms_of(self.rooms@),
            relay_url: self.relay_url@,
            phase: self.phase,
            sending: self.sending,
            outbox: outgoing_of(self.outbox@),
        }
    }
}

/// What `url::Url::parse` makes of `text`: nothing where it accepts it as an
/// absolute URL, else the text of its error.
pub uninterp spec fn url_parse(text: Seq<char>) -> Result<(), Seq<char>>;

/// The text of a parse result, as plain values.
pub open spec fn parsed_of(r: Result<(), String>) -> Result<(), Seq<char>> {
    match r {
        Ok(_) => Ok(()),
        Err(e) => Err(e@),
    }
}

/// Parses `text` with `url::Url::parse` and drops the URL: only whether it
/// parsed is kept, and the error's text where it did not. The parser reads
/// nothing but its argument, so the same text always fares the same.
#[verifier::external_body]
fn check_url(text: &str) -> (r: Result<(), String>)
    ensures
        parsed_of(r) == url_parse(text@),
{
    match url::Url::parse(text) {
        Ok(_) => Ok(()),
        Err(e) => Err(e.to_string()),
    }
}

/// What connecting to `url` yields, given what the parser made of it: a
/// client in its first state, or the failure with the parser's words.
pub open spec fn connect_outcome(url: Seq<char>, parsed: Result<(), Seq<char>>) -> Result<
    RelayClientView,
    Seq<char>,
> {
    match parsed {
        Ok(_) => Ok(connected_client(url)),
        Err(e) => Err("Invalid relay URL: "@ + e),
    }
}

/// The view of the result of connecting.
pub open spec fn connected_of(r: Result<RelayClient, String>) -> Result<
    RelayClientView,
    Seq<char>,
> {
    match r {
        Ok(c) => Ok(c@),
        Err(e) => Err(e@),
    }
}

/// The URL to connect to: the one named, or the default relay.
pub open spec fn chosen_url(relay_url: Option<&str>) -> Seq<char> {
    match relay_url {
        Some(url) => url@,
        None => DEFAULT_RELAY_URL@,
    }
}

/// The failure of handing a message to an outbound path that has ended.
pub open spec fn send_failure() -> Seq<char> {
    "Failed to send message to relay"@
}

/// The result of handing `m` to the client `c` for sending.
pub open spec fn send_result(c: RelayClientView) -> Result<(), Seq<char>> {
    if c.sending {
        Ok(())
    } else {
        Err(send_failure())
    }
}

impl RelayClient {
    /// The client for the relay at `relay_url`, or at the default relay
    /// where none is named. Fails where the URL does not parse. The client
    /// is returned as it stands once the transport is established: the
    /// caller establishes it, and drops the client if that fails.
    pub fn connect(relay_url: Option<&str>) -> (r: Result<RelayClient, String>)
        ensures
            connected_of(r) == connect_outcome(
                chosen_url(relay_url),
                url_parse(chosen_url(relay_url)),
            ),
    {
        let url: &str = match relay_url {
            Some(url) => url,
            None => DEFAULT_RELAY_URL,
        };
        let parsed = check_url(url);
        RelayClient::from_parsed(url, parsed)
    }

    /// The client for the relay at `url`, given what parsing `url` gave.
    pub fn from_parsed(url: &str, parsed: Result<(), String>) -> (r: Result<RelayClient, String>)
        ensures
            connected_of(r) == connect_outcome(url@, parsed_of(parsed)),
    {
        match parsed {
            Ok(_) => {
                let mut outbox: Vec<OutgoingMessage> = Vec::new();
                outbox.push(OutgoingMessage::HostRegister);
                let client = RelayClient {
                    rooms: Vec::new(),
                    relay_url: String::from_str(url),
                    phase: RelayPhase::Connecting,
                    sending: true,
                    outbox: outbox,
                };
                assert(client@.rooms =~= Seq::empty());
                assert(client@.outbox =~= seq![OutgoingMessageView::HostRegister]);
                Ok(client)
            },
            Err(e) => {
                let mut message = String::from_str("Invalid relay URL: ");
                message.append(e.as_str());
                Err(message)
            },
        }
    }

    /// Applies one event of the transport, and gives the room that the
    /// event announces, if it announces one.
    pub fn handle_event(&mut self, event: RelayEvent) -> (announced: Option<Room>)
        ensures
            final(self)@ == after_event(old(self)@, event@),
            room_of(announced) == announced_room(old(self)@, event@),
    {
        if self.phase == RelayPhase::Disconnected {
            return None;
        }
        match event {
            RelayEvent::Malformed => None,
            RelayEvent::Closed => {
                self.phase = RelayPhase::Disconnected;
                None
            },
            RelayEvent::Message(message) => self.handle_message(message),
        }
    }

    /// Applies one message from the relay.
    fn handle_message(&mut self, message: IncomingMessage) -> (announced: Option<Room>)
        requires
            old(self)@.phase != RelayPhase::Disconnected,
        ensures
            final(self)@ == after_message(old(self)@, message@),
            room_of(announced) == announced_room(old(self)@, RelayEventView::Message(message@)),
    {
        match message {
            IncomingMessage::HostRegistered { rooms, relay_url } => {
                self.rooms = rooms;
                self.relay_url = relay_url;
                self.phase = RelayPhase::Registered;
                None
            },
            IncomingMessage::RoomCreated { room } => {
                self.rooms.push(room.clone());
                assert(self@.rooms =~= old(self)@.rooms.push(room@));
                Some(room)
            },
            IncomingMessage::RoomSynced { room } => None,
            IncomingMessage::RoomDeleted { room_id } => {
                self.forget_room(room_id.as_str());
                None
            },
            IncomingMessage::RoomUpdate { room } => {
                if self.replace_room(&room) {
                    Some(room)
                } else {
                    None
                }
            },
            IncomingMessage::Error { message } => None,
            IncomingMessage::Pong => None,
        }
    }

    /// Replaces the first mirrored room of `room`'s id by a copy of `room`.
    /// Says whether there was one.
    fn replace_room(&mut self, room: &Room) -> (found: bool)
        ensures
            final(self)@ == (RelayClientView {
                rooms: with_room_replaced(old(self)@.rooms, room@),
                ..old(self)@
            }),
            found == (find_room(old(self)@.rooms, room@.id) is Some),
    {
        let mut i: usize = 0;
        while i < self.rooms.len()
            invariant
                i <= self.rooms.len(),
                *self == *old(self),
                forall|j: int| 0 <= j < i ==> !room_has_id(room@.id)(#[trigger] self@.rooms[j]),
            decreases self.rooms.len() - i,
        {
            if self.rooms[i].id.as_str().eq(room.id.as_str()) {
                self.rooms[i] = room.clone();
                proof {
                    lemma_first_index_is(old(self)@.rooms, room_has_id(room@.id), i as int);
                    assert(self@.rooms =~= with_room_replaced(old(self)@.rooms, room@));
                }
                return true;
            }
            i += 1;
        }
        proof {
            lemma_first_index_is(old(self)@.rooms, room_has_id(room@.id), i as int);
        }
        false
    }

    /// Drops every mirrored room whose id is `room_id`.
    fn forget_room(&mut self, room_id: &str)
        ensures
            final(self)@ == (RelayClientView {
                rooms: old(self)@.rooms.filter(room_has_other_id(room_id@)),
                ..old(self)@
            }),
    {
        let ghost before = old(self)@.rooms;
        let ghost keep = room_has_other_id(room_id@);
        let mut i: usize = 0;
        let ghost mut seen: int = 0;
        assert(before.take(0).filter(keep) =~= Seq::<RoomView>::empty());
        while i < self.rooms.len()
            invariant
                i <= self.rooms.len(),
                0 <= seen,
                seen + (self.rooms.len() - i) == before.len(),
                (RelayClientView { rooms: before, ..self@ }) == old(self)@,
                before == old(self)@.rooms,
                keep == room_has_other_id(room_id@),
                self@.rooms.take(i as int) == before.take(seen).filter(keep),
                self@.rooms.skip(i as int) == before.skip(seen),
            decreases self.rooms.len() - i,
        {
            proof {
                let s = before.take(seen + 1);
                assert(s.drop_last() =~= before.take(seen));
                assert(s.last() == before[seen]);
                assert(self@.rooms.skip(i as int)[0] == before.skip(seen)[0]);
                reveal(Seq::filter);
            }
            let ghost current = self@.rooms;
            if self.rooms[i].id.as_str().eq(room_id) {
                self.rooms.remove(i);
                proof {
                    assert(self@.rooms =~= current.remove(i as int));
                    assert(self@.rooms.take(i as int) =~= current.take(i as int));
                    assert(self@.rooms.skip(i as int) =~= current.skip(i as int + 1));
                    assert(current.skip(i as int + 1) =~= current.skip(i as int).skip(1));
                    assert(before.skip(seen + 1) =~= before.skip(seen).skip(1));
                }
            } else {
                proof {
                    assert(current.take(i as int + 1) =~= current.take(i as int).push(
                        current[i as int],
                    ));
                    assert(current.skip(i as int + 1) =~= current.skip(i as int).skip(1));
                    assert(before.skip(seen + 1) =~= before.skip(seen).skip(1));
                }
                i += 1;
            }
            proof {
                seen = seen + 1;
            }
        }
        proof {
            assert(self@.rooms.take(i as int) =~= self@.rooms);
            assert(before.take(seen) =~= before);
        }
    }

    /// Hands `message` to the outbound path: it is queued behind what
    /// waits. Fails, and queues nothing, once that path has ended.
    pub fn send(&mut self, message: OutgoingMessage) -> (r: Result<(), String>)
        ensures
            final(self)@ == after_send(old(self)@, message@),
            parsed_of(r) == send_result(old(self)@),
    {
        if self.sending {
            self.outbox.push(message);
            assert(self@.outbox =~= old(self)@.outbox.push(message@));
            Ok(())
        } else {
            Err(String::from_str("Failed to send message to relay"))
        }
    }

    /// Asks the relay to create a room.
    pub fn create_room(&mut self, name: String) -> (r: Result<(), String>)
        ensures
            final(self)@ == after_send(
                old(self)@,
                OutgoingMessageView::HostCreateRoom { name: name@ },
            ),
            parsed_of(r) == send_result(old(self)@),
    {
        self.send(OutgoingMessage::HostCreateRoom { name: name })
    }

    /// Asks the relay to delete a room.
    pub fn delete_room(&mut self, room_id: String) -> (r: Result<(), String>)
        ensures
            final(self)@ == after_send(
                old(self)@,
                OutgoingMessageView::HostDeleteRoom { room_id: room_id@ },
            ),
            parsed_of(r) == send_result(old(self)@),
    {
        self.send(OutgoingMessage::HostDeleteRoom { room_id: room_id })
    }

    /// Asks the relay to reveal the votes of a room.
    pub fn reveal_votes(&mut self, room_id: String) -> (r: Result<(), String>)
        ensures
            final(self)@ == after_send(
                old(self)@,
                OutgoingMessageView::HostRevealVotes { room_id: room_id@ },
            ),
            parsed_of(r) == send_result(old(self)@),
    {
        self.send(OutgoingMessage::HostRevealVotes { room_id: room_id })
    }

    /// Asks the relay to hide the votes of a room.
    pub fn hide_votes(&mut self, room_id: String) -> (r: Result<(), String>)
        ensures
            final(self)@ == after_send(
                old(self)@,
                OutgoingMessageView::HostHideVotes { room_id: room_id@ },
            ),
            parsed_of(r) == send_result(old(self)@),
    {
        self.send(OutgoingMessage::HostHideVotes { room_id: room_id })
    }

    /// Asks the relay to clear the votes of a room.
    pub fn reset_votes(&mut self, room_id: String) -> (r: Result<(), String>)
        ensures
            final(self)@ == after_send(
                old(self)@,
                OutgoingMessageView::HostResetVotes { room_id: room_id@ },
            ),
            parsed_of(r) == send_result(old(self)@),
    {
        self.send(OutgoingMessage::HostResetVotes { room_id: room_id })
    }

    /// Asks the relay to remove a participant from a room.
    pub fn kick_participant(&mut self, room_id: String, participant_id: String) -> (r: Result<
        (),
        String,
    >)
        ensures
            final(self)@ == after_send(
                old(self)@,
                OutgoingMessageView::HostKickParticipant {
                    room_id: room_id@,
                    participant_id: participant_id@,
                },
            ),
            parsed_of(r) == send_result(old(self)@),
    {
        self.send(
            OutgoingMessage::HostKickParticipant {
                room_id: room_id,
                participant_id: participant_id,
            },
        )
    }

    /// Asks the relay to attach a ticket to a room.
    pub fn set_ticket(&mut self, room_id: String, ticket: JiraTicket) -> (r: Result<(), String>)
        ensures
            final(self)@ == after_send(
                old(self)@,
                OutgoingMessageView::HostSetTicket { room_id: room_id@, ticket: ticket@ },
            ),
            parsed_of(r) == send_result(old(self)@),
    {
        self.send(OutgoingMessage::HostSetTicket { room_id: room_id, ticket: ticket })
    }

    /// Asks the relay to detach the ticket of a room.
    pub fn clear_ticket(&mut self, room_id: String) -> (r: Result<(), String>)
        ensures
            final(self)@ == after_send(
                old(self)@,
                OutgoingMessageView::HostClearTicket { room_id: room_id@ },
            ),
            parsed_of(r) == send_result(old(self)@),
    {
        self.send(OutgoingMessage::HostClearTicket { room_id: room_id })
    }

    /// Sends the relay a room of the host as it now is.
    pub fn sync_room(&mut self, room: Room) -> (r: Result<(), String>)
        ensures
            final(self)@ == after_send(old(self)@, OutgoingMessageView::HostSyncRoom { room: room@ }),
            parsed_of(r) == send_result(old(self)@),
    {
        self.send(OutgoingMessage::HostSyncRoom { room: room })
    }

    /// One beat of the heartbeat: queues a ping. Says whether the heartbeat
    /// goes on; it stops once the outbound path has ended.
    pub fn heartbeat(&mut self) -> (alive: bool)
        ensures
            final(self)@ == after_send(old(self)@, OutgoingMessageView::Ping),
            alive == old(self)@.sending,
    {
        self.send(OutgoingMessage::Ping).is_ok()
    }

    /// Takes the messages that wait to be sent, the oldest first.
    pub fn take_outbox(&mut self) -> (messages: Vec<OutgoingMessage>)
        ensures
            outgoing_of(messages@) == old(self)@.outbox,
            final(self)@ == (RelayClientView { outbox: Seq::empty(), ..old(self)@ }),
    {
        let mut messages: Vec<OutgoingMessage> = Vec::new();
        std::mem::swap(&mut messages, &mut self.outbox);
        assert(self@.outbox =~= Seq::empty());
        messages
    }

    /// Records that a write to the relay has failed: the outbound path has
    /// ended, and what still waited is dropped. The connection itself counts
    /// as standing until the transport reports its end.
    pub fn outbound_closed(&mut self)
        ensures
            final(self)@ == (RelayClientView {
                sending: false,
                outbox: Seq::empty(),
                ..old(self)@
            }),
    {
        self.sending = false;
        self.outbox = Vec::new();
        assert(self@.outbox =~= Seq::empty());
    }

    /// The address under which the relay can be shared.
    pub fn get_relay_url(&self) -> (url: String)
        ensures
            url@ == self@.relay_url,
    {
        self.relay_url.clone()
    }

    /// Whether the connection stands.
    pub fn is_connected(&self) -> (connected: bool)
        ensures
            connected == (self@.phase != RelayPhase::Disconnected),
    {
        self.phase != RelayPhase::Disconnected
    }

    /// Where the client stands.
    pub fn phase(&self) -> (phase: RelayPhase)
        ensures
            phase == self@.phase,
    {
        self.phase
    }

    /// The rooms as the relay has reported them.
    pub fn get_rooms(&self) -> (rooms: Vec<Room>)
        ensures
            rooms_of(rooms@) == self@.rooms,
    {
        clone_rooms(&self.rooms)
    }

    /// The first mirrored room with the id `room_id`.
    pub fn get_room(&self, room_id: &str) -> (room: Option<Room>)
        ensures
            room_of(room) == find_room(self@.rooms, room_id@),
    {
        let mut i: usize = 0;
        while i < self.rooms.len()
            invariant
                i <= self.rooms.len(),
                forall|j: int| 0 <= j < i ==> !room_has_id(room_id@)(#[trigger] self@.rooms[j]),
            decreases self.rooms.len() - i,
        {
            if self.rooms[i].id.as_str().eq(room_id) {
                proof {
                    lemma_first_index_is(self@.rooms, room_has_id(room_id@), i as int);
                }
                return Some(self.rooms[i].clone());
            }
            i += 1;
        }
        proof {
            lemma_first_index_is(self@.rooms, room_has_id(room_id@), i as int);
        }
        None
    }
}

} // verus!
