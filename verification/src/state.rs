//! The room store: the registry of the rooms, the index of their invite
//! codes, and the index of the live connections.
//!
//! Every change of a room goes through the store, one call at a time: a call
//! holds the store exclusively, so that no call ever sees a room half
//! changed, and no change is lost to another.
//!
//! The store does not own a transport. What is to reach a participant's
//! client is queued, addressed by the participant's id; the caller takes the
//! queue with [`AppState::take_outbox`] and delivers it as well as it can.

use crate::index::{
    connection_entries, connections_insert, connections_list, connections_new,
    connections_remove, connection_pairs_of, invite_entries, invites_get, invites_insert,
    invites_new, invites_remove, lists, lookup, room_entries, room_pairs_of, rooms_get,
    rooms_insert, rooms_list, rooms_new, rooms_remove,
};
use crate::network::FIRST_PORT;
use crate::relay::{
    after_event, announced_room, RelayClient, RelayClientView, RelayEvent,
    RelayEventView, RelayPhase,
};
use crate::room::{
    is_new_room, normalize_invite_code, normalized_code, room_of, rooms_of,
    ticket_of, with_vote, without_participant, without_votes,
    JiraTicket, JiraTicketView, Participant, ParticipantView, Room, RoomView, WsMessage,
    WsMessageView,
};
use crate::text::{decimal, push_decimal, text_of, trim_end_slashes, without_trailing_slashes};
use dashmap::DashMap;
use vstd::prelude::*;
use vstd::seq_lib::lemma_seq_contains_after_push;
use vstd::string::*;

verus! {

/// How the issue tracker is reached.
#[derive(Debug, PartialEq, Eq)]
pub struct JiraConfig {
    pub base_url: String,
    pub email: String,
    pub api_token: String,
}

/// What a [`JiraConfig`] holds, as plain text.
pub struct JiraConfigView {
    pub base_url: Seq<char>,
    pub email: Seq<char>,
    pub api_token: Seq<char>,
}

impl View for JiraConfig {
    type V = JiraConfigView;

    open spec fn view(&self) -> JiraConfigView {
        JiraConfigView {
            base_url: self.base_url@,
            email: self.email@,
            api_token: self.api_token@,
        }
    }
}

impl Clone for JiraConfig {
    fn clone(&self) -> (r: Self)
        ensures
            r == *self,
    {
        JiraConfig {
            base_url: self.base_url.clone(),
            email: self.email.clone(),
            api_token: self.api_token.clone(),
        }
    }
}

/// The configuration in which nothing is set.
pub open spec fn empty_config() -> JiraConfigView {
    JiraConfigView { base_url: Seq::empty(), email: Seq::empty(), api_token: Seq::empty() }
}

impl Default for JiraConfig {
    fn default() -> (config: Self)
        ensures
            config@ == empty_config(),
    {
        JiraConfig { base_url: String::new(), email: String::new(), api_token: String::new() }
    }
}

/// A live connection of a participant's client, as the store indexes it:
/// by whom it is held and to which room it is bound.
#[derive(Debug, PartialEq, Eq)]
pub struct Connection {
    pub participant_id: String,
    pub room_id: String,
}

/// What a [`Connection`] holds, as plain text.
pub struct ConnectionView {
    pub participant_id: Seq<char>,
    pub room_id: Seq<char>,
}

impl View for Connection {
    type V = ConnectionView;

    open spec fn view(&self) -> ConnectionView {
        ConnectionView { participant_id: self.participant_id@, room_id: self.room_id@ }
    }
}

impl Clone for Connection {
    fn clone(&self) -> (r: Self)
        ensures
            r == *self,
    {
        Connection { participant_id: self.participant_id.clone(), room_id: self.room_id.clone() }
    }
}

/// A message on its way to the client of one participant.
#[derive(Debug, PartialEq, Eq)]
pub struct Delivery {
    pub participant_id: String,
    pub message: WsMessage,
}

/// What a [`Delivery`] holds, as plain values.
pub struct DeliveryView {
    pub participant_id: Seq<char>,
    pub message: WsMessageView,
}

impl View for Delivery {
    type V = DeliveryView;

    open spec fn view(&self) -> DeliveryView {
        DeliveryView { participant_id: self.participant_id@, message: self.message@ }
    }
}

/// The deliveries of a list, each as plain values, in the list's order.
pub open spec fn deliveries_of(ds: Seq<Delivery>) -> Seq<DeliveryView> {
    ds.map_values(|d: Delivery| d@)
}

/// The view of an optional relay client.
pub open spec fn client_of(c: Option<RelayClient>) -> Option<RelayClientView> {
    match c {
        Some(client) => Some(client@),
        None => None,
    }
}

/// The state of the store, as plain values.
pub struct AppStateView {
    /// The rooms, by id.
    pub rooms: Map<Seq<char>, RoomView>,
    /// The id of a room, by its invite code.
    pub invite_codes: Map<Seq<char>, Seq<char>>,
    /// The live connections, by the id of the participant.
    pub connections: Map<Seq<char>, ConnectionView>,
    /// What waits to be delivered, the oldest first.
    pub outbox: Seq<DeliveryView>,
    pub server_port: u16,
    pub server_ip: Seq<char>,
    pub jira_config: JiraConfigView,
    pub firewall_open: bool,
    pub public_ip: Option<Seq<char>>,
    pub relay_client: Option<RelayClientView>,
}

/// The store in which nothing has happened yet.
pub open spec fn empty_state() -> AppStateView {
    AppStateView {
        rooms: Map::empty(),
        invite_codes: Map::empty(),
        connections: Map::empty(),
        outbox: Seq::empty(),
        server_port: 0,
        server_ip: Seq::empty(),
        jira_config: empty_config(),
        firewall_open: false,
        public_ip: None,
        relay_client: None,
    }
}

/// The address `http://ip:port`.
pub open spec fn http_url(ip: Seq<char>, port: u16) -> Seq<char> {
    "http://"@ + ip + seq![':'] + decimal(port as nat)
}

/// The address under which the host serves on its own network; empty until
/// the server's address and port are known.
pub open spec fn server_url(s: AppStateView) -> Seq<char> {
    if s.server_ip.len() == 0 || s.server_port == 0 {
        Seq::empty()
    } else {
        http_url(s.server_ip, s.server_port)
    }
}

/// The address to hand to participants: the public one where the port is
/// open and the public address known, else the one on the host's network.
pub open spec fn share_url(s: AppStateView) -> Seq<char> {
    if s.firewall_open && s.public_ip is Some {
        http_url(s.public_ip->0, s.server_port)
    } else {
        server_url(s)
    }
}

/// Whether every part of the configuration is set.
pub open spec fn config_is_set(c: JiraConfigView) -> bool {
    c.base_url.len() > 0 && c.email.len() > 0 && c.api_token.len() > 0
}

/// The store after `room` has been entered: under its id in the registry,
/// and its id under its invite code in the index of the codes.
pub open spec fn after_create(s: AppStateView, room: RoomView) -> AppStateView {
    AppStateView {
        rooms: s.rooms.insert(room.id, room),
        invite_codes: s.invite_codes.insert(room.invite_code, room.id),
        ..s
    }
}

/// The store with `room` in place of the room under `id`; a store without
/// a room under `id` stays as it is.
pub open spec fn with_room(s: AppStateView, id: Seq<char>, room: RoomView) -> AppStateView {
    if s.rooms.contains_key(id) {
        AppStateView { rooms: s.rooms.insert(id, room), ..s }
    } else {
        s
    }
}

/// The store after the ticket of the room `id` has been set.
pub open spec fn after_set_ticket(
    s: AppStateView,
    id: Seq<char>,
    ticket: Option<JiraTicketView>,
) -> AppStateView {
    with_room(s, id, RoomView { current_ticket: ticket, ..s.rooms[id] })
}

/// The store after a participant has joined the room `id`.
pub open spec fn after_add_participant(
    s: AppStateView,
    id: Seq<char>,
    participant: ParticipantView,
) -> AppStateView {
    with_room(
        s,
        id,
        RoomView { participants: s.rooms[id].participants.push(participant), ..s.rooms[id] },
    )
}

/// The store after the participant `participant_id` of the room `id` has
/// cast `vote`.
pub open spec fn after_set_vote(
    s: AppStateView,
    id: Seq<char>,
    participant_id: Seq<char>,
    vote: Option<Seq<char>>,
) -> AppStateView {
    with_room(
        s,
        id,
        RoomView {
            participants: with_vote(s.rooms[id].participants, participant_id, vote),
            ..s.rooms[id]
        },
    )
}

/// The store after the votes of the room `id` have been revealed or hidden.
pub open spec fn after_set_revealed(s: AppStateView, id: Seq<char>, revealed: bool) -> AppStateView {
    with_room(s, id, RoomView { votes_revealed: revealed, ..s.rooms[id] })
}

/// The store after the votes of the room `id` have been cleared.
pub open spec fn after_reset_votes(s: AppStateView, id: Seq<char>) -> AppStateView {
    with_room(
        s,
        id,
        RoomView {
            participants: without_votes(s.rooms[id].participants),
            votes_revealed: false,
            ..s.rooms[id]
        },
    )
}

/// The store after the relay has reported `relay_room`: the room of that id
/// takes the relay's participants and its flag, and keeps everything else,
/// its ticket too.
pub open spec fn after_merge(s: AppStateView, relay_room: RoomView) -> AppStateView {
    with_room(
        s,
        relay_room.id,
        RoomView {
            participants: relay_room.participants,
            votes_revealed: relay_room.votes_revealed,
            ..s.rooms[relay_room.id]
        },
    )
}

/// The store after the connection of `participant_id` has been bound to
/// the room `room_id`.
pub open spec fn after_register(
    s: AppStateView,
    participant_id: Seq<char>,
    room_id: Seq<char>,
) -> AppStateView {
    AppStateView {
        connections: s.connections.insert(
            participant_id,
            ConnectionView { participant_id: participant_id, room_id: room_id },
        ),
        ..s
    }
}

/// The store after the connection of `participant_id` has been forgotten.
pub open spec fn after_unregister(s: AppStateView, participant_id: Seq<char>) -> AppStateView {
    AppStateView { connections: s.connections.remove(participant_id), ..s }
}

/// The store after the connection of `participant_id` has been severed:
/// its last message is the notice of removal. A store without such a
/// connection stays as it is.
pub open spec fn after_sever(s: AppStateView, participant_id: Seq<char>) -> AppStateView {
    if s.connections.contains_key(participant_id) {
        AppStateView {
            connections: s.connections.remove(participant_id),
            outbox: s.outbox.push(
                DeliveryView { participant_id: participant_id, message: WsMessageView::Kicked },
            ),
            ..s
        }
    } else {
        s
    }
}

/// The store after `participant_id` has been removed from the room `id`:
/// the room loses the participant, and the participant's connection is
/// severed whether or not the room exists.
pub open spec fn after_remove_participant(
    s: AppStateView,
    id: Seq<char>,
    participant_id: Seq<char>,
) -> AppStateView {
    after_sever(
        with_room(
            s,
            id,
            RoomView {
                participants: without_participant(s.rooms[id].participants, participant_id),
                ..s.rooms[id]
            },
        ),
        participant_id,
    )
}

/// The participants whose connection is bound to the room `room_id`.
pub open spec fn bound_to(connections: Map<Seq<char>, ConnectionView>, room_id: Seq<char>) -> Set<
    Seq<char>,
> {
    Set::new(|k: Seq<char>| connections.contains_key(k) && connections[k].room_id == room_id)
}

/// Whether `order` names every member of `keys` once, and nothing else.
pub open spec fn is_order_of(order: Seq<Seq<char>>, keys: Set<Seq<char>>) -> bool {
    &&& order.no_duplicates()
    &&& forall|k: Seq<char>| #[trigger] order.contains(k) <==> keys.contains(k)
}

/// One delivery of `message` to each participant of `order`, in that
/// order.
pub open spec fn addressed(order: Seq<Seq<char>>, message: WsMessageView) -> Seq<DeliveryView> {
    order.map_values(|k: Seq<char>| DeliveryView { participant_id: k, message: message })
}

/// The store after every connection bound to the room `id` has been
/// severed, the notices queued in the order `order`.
pub open spec fn after_eviction(s: AppStateView, id: Seq<char>, order: Seq<Seq<char>>) -> AppStateView {
    AppStateView {
        connections: s.connections.remove_keys(bound_to(s.connections, id)),
        outbox: s.outbox + addressed(order, WsMessageView::Kicked),
        ..s
    }
}

/// The store after the room `id`, which it holds, has been deleted: the
/// room and the entry of its invite code are gone, and every connection
/// bound to the room has been severed, the notices queued in the order
/// `order`.
pub open spec fn after_delete(s: AppStateView, id: Seq<char>, order: Seq<Seq<char>>) -> AppStateView {
    after_eviction(
        AppStateView {
            rooms: s.rooms.remove(id),
            invite_codes: s.invite_codes.remove(s.rooms[id].invite_code),
            ..s
        },
        id,
        order,
    )
}

/// The store after the room `id`, which it holds, has been queued for
/// the participants of `order`, in that order.
pub open spec fn after_broadcast(s: AppStateView, id: Seq<char>, order: Seq<Seq<char>>) -> AppStateView {
    AppStateView {
        outbox: s.outbox + addressed(order, WsMessageView::RoomUpdate { room: s.rooms[id] }),
        ..s
    }
}

/// The texts of a list of strings, in the list's order.
pub open spec fn texts_of(ids: Seq<String>) -> Seq<Seq<char>> {
    ids.map_values(|id: String| id@)
}

/// The rooms that `rooms` holds under the keys of `order`, in that order.
pub open spec fn rooms_in(rooms: Map<Seq<char>, RoomView>, order: Seq<Seq<char>>) -> Seq<RoomView> {
    order.map_values(|k: Seq<char>| rooms[k])
}

/// Whether `after` is `before` with the room `id` deleted: with the room
/// and the entry of its invite code gone and every connection bound to the
/// room severed, in whatever order. A store without the room is not changed
/// by deleting it.
pub open spec fn is_deletion(before: AppStateView, id: Seq<char>, after: AppStateView) -> bool {
    if before.rooms.contains_key(id) {
        exists|order: Seq<Seq<char>>|
            is_order_of(order, bound_to(before.connections, id)) && after
                == #[trigger] after_delete(before, id, order)
    } else {
        after == before
    }
}

/// Whether `after` is `before` with the room `id` queued once for every
/// connection bound to it, in whatever order. Nothing is queued of a room
/// that does not exist.
pub open spec fn is_broadcast(before: AppStateView, id: Seq<char>, after: AppStateView) -> bool {
    if before.rooms.contains_key(id) {
        exists|order: Seq<Seq<char>>|
            is_order_of(order, bound_to(before.connections, id)) && after
                == #[trigger] after_broadcast(before, id, order)
    } else {
        after == before
    }
}

/// Whether `after` is `before` once the relay client has taken the event
/// `event`: the client moves on, and a room that the event announces is
/// merged into the room of its id and sent to that room's connections. A
/// store without a relay client is not changed.
pub open spec fn is_relay_step(
    before: AppStateView,
    event: RelayEventView,
    after: AppStateView,
) -> bool {
    match before.relay_client {
        None => after == before,
        Some(client) => {
            let moved = AppStateView { relay_client: Some(after_event(client, event)), ..before };
            match announced_room(client, event) {
                None => after == moved,
                Some(room) => is_broadcast(after_merge(moved, room), room.id, after),
            }
        },
    }
}

/// The room that the invite code `code` leads to.
pub open spec fn room_by_invite(s: AppStateView, code: Seq<char>) -> Option<RoomView> {
    let normal = normalized_code(code);
    if s.invite_codes.contains_key(normal) {
        lookup(s.rooms, s.invite_codes[normal])
    } else {
        None
    }
}

/// The store of a host.
pub struct AppState {
    rooms: DashMap<String, Room>,
    invite_codes: DashMap<String, String>,
    connections: DashMap<String, Connection>,
    outbox: Vec<Delivery>,
    server_port: u16,
    server_ip: String,
    jira_config: JiraConfig,
    firewall_open: bool,
    public_ip: Option<String>,
    relay_client: Option<RelayClient>,
}

impl View for AppState {
    type V = AppStateView;

    closed spec fn view(&self) -> AppStateView {
        AppStateView {
            rooms: room_entries(self.rooms),
            invite_codes: invite_entries(self.invite_codes),
            connections: connection_entries(self.connections),
            outbox: deliveries_of(self.outbox@),
            server_port: self.server_port,
            server_ip: self.server_ip@,
            jira_config: self.jira_config@,
            firewall_open: self.firewall_open,
            public_ip: text_of(self.public_ip),
            relay_client: client_of(self.relay_client),
        }
    }
}

/// The address `http://ip:port`.
pub fn write_http_url(ip: &str, port: u16) -> (url: String)
    ensures
        url@ == http_url(ip@, port),
{
    let mut url = String::from_str("http://");
    url.append(ip);
    url.push(':');
    push_decimal(&mut url, port as u64);
    assert(url@ =~= http_url(ip@, port));
    url
}

impl AppState {
    /// A store that holds nothing.
    pub fn new() -> (state: AppState)
        ensures
            state@ == empty_state(),
    {
        let state = AppState {
            rooms: rooms_new(),
            invite_codes: invites_new(),
            connections: connections_new(),
            outbox: Vec::new(),
            server_port: 0,
            server_ip: String::new(),
            jira_config: JiraConfig::default(),
            firewall_open: false,
            public_ip: None,
            relay_client: None,
        };
        assert(state@.outbox =~= Seq::empty());
        state
    }

    /// Sets how the issue tracker is reached. The base URL is kept without
    /// the slashes at its end.
    pub fn set_jira_config(&mut self, base_url: String, email: String, api_token: String)
        ensures
            final(self)@ == (AppStateView {
                jira_config: JiraConfigView {
                    base_url: without_trailing_slashes(base_url@),
                    email: email@,
                    api_token: api_token@,
                },
                ..old(self)@
            }),
    {
        self.jira_config.base_url = trim_end_slashes(base_url.as_str());
        self.jira_config.email = email;
        self.jira_config.api_token = api_token;
    }

    /// How the issue tracker is reached.
    pub fn get_jira_config(&self) -> (config: JiraConfig)
        ensures
            config@ == self@.jira_config,
    {
        self.jira_config.clone()
    }

    /// Whether every part of the tracker's configuration is set.
    pub fn has_jira_config(&self) -> (set: bool)
        ensures
            set == config_is_set(self@.jira_config),
    {
        !self.jira_config.base_url.as_str().is_empty() && !self.jira_config.email.as_str().is_empty()
            && !self.jira_config.api_token.as_str().is_empty()
    }

    /// The address under which the host serves on its own network; empty
    /// until the server's address and port are known.
    pub fn get_server_url(&self) -> (url: String)
        ensures
            url@ == server_url(self@),
    {
        if self.server_ip.as_str().is_empty() || self.server_port == 0 {
            String::new()
        } else {
            write_http_url(self.server_ip.as_str(), self.server_port)
        }
    }

    /// The port to use for the host's address on the network: the server's
    /// port once its address and port are known, else the first port that
    /// the server tries.
    pub fn listening_port(&self) -> (port: u16)
        ensures
            port == (if server_url(self@).len() == 0 {
                FIRST_PORT
            } else {
                self@.server_port
            }),
    {
        if self.server_ip.as_str().is_empty() || self.server_port == 0 {
            FIRST_PORT
        } else {
            proof {
                reveal_strlit("http://");
            }
            self.server_port
        }
    }

    /// Records the address and the port on which the server listens.
    pub fn set_server_info(&mut self, ip: String, port: u16)
        ensures
            final(self)@ == (AppStateView { server_ip: ip@, server_port: port, ..old(self)@ }),
    {
        self.server_ip = ip;
        self.server_port = port;
    }

    /// Records whether the server's port is open to the outside.
    pub fn set_firewall_open(&mut self, open: bool)
        ensures
            final(self)@ == (AppStateView { firewall_open: open, ..old(self)@ }),
    {
        self.firewall_open = open;
    }

    /// Whether the server's port is open to the outside.
    pub fn is_firewall_open(&self) -> (open: bool)
        ensures
            open == self@.firewall_open,
    {
        self.firewall_open
    }

    /// Records the host's public address.
    pub fn set_public_ip(&mut self, ip: Option<String>)
        ensures
            final(self)@ == (AppStateView { public_ip: text_of(ip), ..old(self)@ }),
    {
        self.public_ip = ip;
    }

    /// The host's public address, if it is known.
    pub fn get_public_ip(&self) -> (ip: Option<String>)
        ensures
            text_of(ip) == self@.public_ip,
    {
        crate::text::clone_text(&self.public_ip)
    }

    /// The address to hand to participants.
    pub fn get_share_url(&self) -> (url: String)
        ensures
            url@ == share_url(self@),
    {
        if self.firewall_open {
            match &self.public_ip {
                Some(ip) => {
                    return write_http_url(ip.as_str(), self.server_port);
                },
                None => {},
            }
        }
        self.get_server_url()
    }

    /// Attaches a ticket to the room `room_id`, or detaches its ticket. A
    /// store without that room stays as it is.
    pub fn set_current_ticket(&mut self, room_id: &str, ticket: Option<JiraTicket>)
        ensures
            final(self)@ == after_set_ticket(old(self)@, room_id@, ticket_of(ticket)),
    {
        match rooms_remove(&mut self.rooms, room_id) {
            Some(mut room) => {
                room.current_ticket = ticket;
                rooms_insert(&mut self.rooms, String::from_str(room_id), room);
                assert(self@.rooms =~= old(self)@.rooms.insert(room_id@, room@));
            },
            None => {
                assert(self@.rooms =~= old(self)@.rooms);
            },
        }
    }

    /// Creates a room under a fresh id and a fresh invite code, and enters
    /// it in the registry and in the index of the codes.
    pub fn create_room(&mut self, name: String) -> (room: Room)
        ensures
            is_new_room(room@, name@),
            final(self)@ == after_create(old(self)@, room@),
    {
        self.insert_room(Room::new(name))
    }

    /// Enters `room` in the registry under its id and in the index of the
    /// codes under its invite code, and returns it. What stood under that id
    /// or under that code is replaced.
    pub fn insert_room(&mut self, room: Room) -> (entered: Room)
        ensures
            entered@ == room@,
            final(self)@ == after_create(old(self)@, room@),
    {
        rooms_insert(&mut self.rooms, room.id.clone(), room.clone());
        invites_insert(&mut self.invite_codes, room.invite_code.clone(), room.id.clone());
        room
    }

    /// The room under the id `room_id`.
    pub fn get_room(&self, room_id: &str) -> (room: Option<Room>)
        ensures
            room_of(room) == lookup(self@.rooms, room_id@),
    {
        rooms_get(&self.rooms, room_id)
    }

    /// The room that the invite code `invite_code` leads to. The code is
    /// looked up in its normal form: `%20` and `-` stand for a space.
    pub fn get_room_by_invite(&self, invite_code: &str) -> (room: Option<Room>)
        ensures
            room_of(room) == room_by_invite(self@, invite_code@),
    {
        let normal = normalize_invite_code(invite_code);
        match invites_get(&self.invite_codes, normal.as_str()) {
            Some(room_id) => rooms_get(&self.rooms, room_id.as_str()),
            None => None,
        }
    }

    /// Takes the participants and the flag of the room that the relay
    /// reports into the room of the same id; the room keeps everything else,
    /// its ticket too. A store without that room stays as it is.
    pub fn update_room_from_relay(&mut self, relay_room: Room)
        ensures
            final(self)@ == after_merge(old(self)@, relay_room@),
    {
        match rooms_remove(&mut self.rooms, relay_room.id.as_str()) {
            Some(mut room) => {
                room.participants = relay_room.participants;
                room.votes_revealed = relay_room.votes_revealed;
                rooms_insert(&mut self.rooms, relay_room.id, room);
                assert(self@.rooms =~= old(self)@.rooms.insert(relay_room@.id, room@));
            },
            None => {
                assert(self@.rooms =~= old(self)@.rooms);
            },
        }
    }

    /// Appends `participant` to the room `room_id` and returns the
    /// participant's id. A store without that room stays as it is, and the
    /// call returns nothing: it never creates a room.
    pub fn add_participant(&mut self, room_id: &str, participant: Participant) -> (id: Option<
        String,
    >)
        ensures
            final(self)@ == after_add_participant(old(self)@, room_id@, participant@),
            text_of(id) == (if old(self)@.rooms.contains_key(room_id@) {
                Some(participant@.id)
            } else {
                None
            }),
            !old(self)@.rooms.contains_key(room_id@) ==> final(self)@ == old(self)@,
            final(self)@.rooms.dom() == old(self)@.rooms.dom(),
    {
        let participant_id = participant.id.clone();
        match rooms_remove(&mut self.rooms, room_id) {
            Some(mut room) => {
                room.add_participant(participant);
                rooms_insert(&mut self.rooms, String::from_str(room_id), room);
                assert(self@.rooms =~= old(self)@.rooms.insert(room_id@, room@));
                assert(self@.rooms.dom() =~= old(self)@.rooms.dom());
                Some(participant_id)
            },
            None => {
                assert(self@.rooms =~= old(self)@.rooms);
                None
            },
        }
    }

    /// Removes the participant from the room `room_id`, and severs the
    /// participant's connection: it is taken out of the index, and the
    /// notice of removal is queued for it. The connection is severed
    /// whether or not the room exists.
    pub fn remove_participant(&mut self, room_id: &str, participant_id: &str)
        ensures
            final(self)@ == after_remove_participant(old(self)@, room_id@, participant_id@),
    {
        match rooms_remove(&mut self.rooms, room_id) {
            Some(mut room) => {
                room.remove_participant(participant_id);
                rooms_insert(&mut self.rooms, String::from_str(room_id), room);
                assert(self@.rooms =~= old(self)@.rooms.insert(room_id@, room@));
            },
            None => {
                assert(self@.rooms =~= old(self)@.rooms);
            },
        }
        self.sever_connection(participant_id);
    }

    /// Takes the connection of `participant_id` out of the index and queues
    /// the notice of removal for it.
    fn sever_connection(&mut self, participant_id: &str)
        ensures
            final(self)@ == after_sever(old(self)@, participant_id@),
    {
        match connections_remove(&mut self.connections, participant_id) {
            Some(_) => {
                self.outbox.push(
                    Delivery {
                        participant_id: String::from_str(participant_id),
                        message: WsMessage::Kicked,
                    },
                );
                assert(self@.outbox =~= old(self)@.outbox.push(
                    DeliveryView {
                        participant_id: participant_id@,
                        message: WsMessageView::Kicked,
                    },
                ));
            },
            None => {
                assert(self@.connections =~= old(self)@.connections);
            },
        }
    }

    /// Records the vote of a participant of the room `room_id`. A store
    /// without that room stays as it is.
    pub fn set_vote(&mut self, room_id: &str, participant_id: &str, vote: Option<String>)
        ensures
            final(self)@ == after_set_vote(
                old(self)@,
                room_id@,
                participant_id@,
                text_of(vote),
            ),
    {
        match rooms_remove(&mut self.rooms, room_id) {
            Some(mut room) => {
                room.set_vote(participant_id, vote);
                rooms_insert(&mut self.rooms, String::from_str(room_id), room);
                assert(self@.rooms =~= old(self)@.rooms.insert(room_id@, room@));
            },
            None => {
                assert(self@.rooms =~= old(self)@.rooms);
            },
        }
    }

    /// Reveals or hides the votes of the room `room_id`. A store without
    /// that room stays as it is.
    pub fn set_votes_revealed(&mut self, room_id: &str, revealed: bool)
        ensures
            final(self)@ == after_set_revealed(old(self)@, room_id@, revealed),
    {
        match rooms_remove(&mut self.rooms, room_id) {
            Some(mut room) => {
                room.votes_revealed = revealed;
                rooms_insert(&mut self.rooms, String::from_str(room_id), room);
                assert(self@.rooms =~= old(self)@.rooms.insert(room_id@, room@));
            },
            None => {
                assert(self@.rooms =~= old(self)@.rooms);
            },
        }
    }

    /// Clears every vote of the room `room_id` and hides its votes. A store
    /// without that room stays as it is.
    pub fn reset_votes(&mut self, room_id: &str)
        ensures
            final(self)@ == after_reset_votes(old(self)@, room_id@),
            final(self)@.rooms.contains_key(room_id@) ==> {
                let room = final(self)@.rooms[room_id@];
                &&& !room.votes_revealed
                &&& forall|i: int| 0 <= i < room.participants.len() ==> room.participants[i].vote is None
            },
    {
        match rooms_remove(&mut self.rooms, room_id) {
            Some(mut room) => {
                room.reset_votes();
                rooms_insert(&mut self.rooms, String::from_str(room_id), room);
                assert(self@.rooms =~= old(self)@.rooms.insert(room_id@, room@));
            },
            None => {
                assert(self@.rooms =~= old(self)@.rooms);
            },
        }
    }

    /// Binds the connection of `participant_id` to the room `room_id`,
    /// whether or not the room exists.
    pub fn register_connection(&mut self, participant_id: String, room_id: String)
        ensures
            final(self)@ == after_register(old(self)@, participant_id@, room_id@),
    {
        let key = participant_id.clone();
        connections_insert(
            &mut self.connections,
            key,
            Connection { participant_id: participant_id, room_id: room_id },
        );
    }

    /// Forgets the connection of `participant_id`. Nothing is sent to it.
    pub fn unregister_connection(&mut self, participant_id: &str)
        ensures
            final(self)@ == after_unregister(old(self)@, participant_id@),
    {
        let _ = connections_remove(&mut self.connections, participant_id);
    }

    /// Takes what waits to be delivered, the oldest first.
    pub fn take_outbox(&mut self) -> (deliveries: Vec<Delivery>)
        ensures
            deliveries_of(deliveries@) == old(self)@.outbox,
            final(self)@ == (AppStateView { outbox: Seq::empty(), ..old(self)@ }),
    {
        let mut deliveries: Vec<Delivery> = Vec::new();
        std::mem::swap(&mut deliveries, &mut self.outbox);
        assert(self@.outbox =~= Seq::empty());
        deliveries
    }

    /// Every room of the store, in no particular order.
    pub fn get_rooms(&self) -> (rooms: Vec<Room>)
        ensures
            exists|order: Seq<Seq<char>>|
                is_order_of(order, self@.rooms.dom()) && #[trigger] rooms_in(self@.rooms, order)
                    == rooms_of(rooms@),
    {
        let pairs = rooms_list(&self.rooms);
        let ghost listed = room_pairs_of(pairs@);
        let ghost held = self@.rooms;
        let mut rooms: Vec<Room> = Vec::new();
        let mut i: usize = 0;
        while i < pairs.len()
            invariant
                i <= pairs.len(),
                listed == room_pairs_of(pairs@),
                rooms.len() == i,
                forall|j: int| 0 <= j < i ==> (#[trigger] rooms@[j])@ == listed[j].1,
            decreases pairs.len() - i,
        {
            rooms.push(pairs[i].1.clone());
            i += 1;
        }
        proof {
            let order = listed.map_values(|p: (Seq<char>, RoomView)| p.0);
            assert forall|k: Seq<char>| #[trigger] order.contains(k) <==> held.dom().contains(
                k,
            ) by {
                if order.contains(k) {
                    let j = choose|j: int| 0 <= j < order.len() && order[j] == k;
                    assert(held.contains_pair(listed[j].0, listed[j].1));
                }
                if held.dom().contains(k) {
                    assert(held.contains_key(k));
                    let j = choose|j: int| 0 <= j < listed.len() && (#[trigger] listed[j]).0 == k;
                    assert(order[j] == k);
                }
            }
            assert forall|j: int| 0 <= j < listed.len() implies held[order[j]] == listed[j].1 by {
                assert(held.contains_pair(listed[j].0, listed[j].1));
            }
            assert(rooms_in(held, order) =~= rooms_of(rooms@));
        }
        rooms
    }

    /// Deletes the room `room_id`: the room and the entry of its invite
    /// code leave the store, and every connection bound to the room is
    /// severed, with the notice of removal as its last message. Says whether
    /// the room existed; a store without it stays as it is.
    pub fn delete_room(&mut self, room_id: &str) -> (existed: bool)
        ensures
            existed == old(self)@.rooms.contains_key(room_id@),
            is_deletion(old(self)@, room_id@, final(self)@),
    {
        match rooms_remove(&mut self.rooms, room_id) {
            Some(room) => {
                invites_remove(&mut self.invite_codes, room.invite_code.as_str());
                let ghost emptied = self@;
                self.evict_connections(room_id);
                proof {
                    let order = choose|order: Seq<Seq<char>>|
                        is_order_of(order, bound_to(emptied.connections, room_id@)) && self@
                            == #[trigger] after_eviction(emptied, room_id@, order);
                    assert(self@ == after_delete(old(self)@, room_id@, order));
                }
                true
            },
            None => {
                assert(self@.rooms =~= old(self)@.rooms);
                false
            },
        }
    }

    /// Queues `message` for the client of `participant_id`.
    fn queue(&mut self, participant_id: String, message: WsMessage)
        ensures
            final(self)@ == (AppStateView {
                outbox: old(self)@.outbox.push(
                    DeliveryView { participant_id: participant_id@, message: message@ },
                ),
                ..old(self)@
            }),
    {
        self.outbox.push(Delivery { participant_id: participant_id, message: message });
        assert(self@.outbox =~= old(self)@.outbox.push(
            DeliveryView { participant_id: participant_id@, message: message@ },
        ));
    }

    /// The participants whose connection is bound to the room `room_id`,
    /// each once, in no particular order.
    pub fn bound_participants(&self, room_id: &str) -> (ids: Vec<String>)
        ensures
            is_order_of(texts_of(ids@), bound_to(self@.connections, room_id@)),
    {
        let pairs = connections_list(&self.connections);
        let ghost listed = connection_pairs_of(pairs@);
        let ghost held = self@.connections;
        let mut ids: Vec<String> = Vec::new();
        let mut i: usize = 0;
        while i < pairs.len()
            invariant
                i <= pairs.len(),
                listed == connection_pairs_of(pairs@),
                lists(listed, held),
                texts_of(ids@).no_duplicates(),
                forall|k: Seq<char>| #[trigger]
                    texts_of(ids@).contains(k) <==> exists|j: int|
                        0 <= j < i && (#[trigger] listed[j]).0 == k && listed[j].1.room_id
                            == room_id@,
            decreases pairs.len() - i,
        {
            let ghost key = listed[i as int].0;
            let ghost earlier = texts_of(ids@);
            assert(pairs@[i as int].0@ == key);
            if pairs[i].1.room_id.as_str().eq(room_id) {
                ids.push(pairs[i].0.clone());
                proof {
                    let order = texts_of(ids@);
                    assert(order =~= earlier.push(key));
                    if earlier.contains(key) {
                        let j = choose|j: int|
                            0 <= j < i && (#[trigger] listed[j]).0 == key && listed[j].1.room_id
                                == room_id@;
                        assert(listed[j].0 != listed[i as int].0);
                    }
                    assert forall|k: Seq<char>| #[trigger]
                        order.contains(k) <==> exists|j: int|
                            0 <= j < i + 1 && (#[trigger] listed[j]).0 == k && listed[j].1.room_id
                                == room_id@ by {
                        lemma_seq_contains_after_push(earlier, key, k);
                        if k == key {
                            assert(listed[i as int].0 == k);
                        }
                        if exists|j: int|
                            0 <= j < i + 1 && (#[trigger] listed[j]).0 == k && listed[j].1.room_id
                                == room_id@ {
                            let j = choose|j: int|
                                0 <= j < i + 1 && (#[trigger] listed[j]).0 == k
                                    && listed[j].1.room_id == room_id@;
                            if j < i {
                                assert(earlier.contains(k));
                            }
                        }
                    }
                }
            } else {
                proof {
                    assert forall|k: Seq<char>| #[trigger]
                        earlier.contains(k) <==> exists|j: int|
                            0 <= j < i + 1 && (#[trigger] listed[j]).0 == k && listed[j].1.room_id
                                == room_id@ by {
                        if exists|j: int|
                            0 <= j < i + 1 && (#[trigger] listed[j]).0 == k && listed[j].1.room_id
                                == room_id@ {
                            let j = choose|j: int|
                                0 <= j < i + 1 && (#[trigger] listed[j]).0 == k
                                    && listed[j].1.room_id == room_id@;
                            assert(j < i);
                        }
                    }
                }
            }
            i += 1;
        }
        proof {
            let order = texts_of(ids@);
            let bound = bound_to(held, room_id@);
            assert forall|k: Seq<char>| #[trigger] order.contains(k) <==> bound.contains(k) by {
                if order.contains(k) {
                    let j = choose|j: int|
                        0 <= j < i && (#[trigger] listed[j]).0 == k && listed[j].1.room_id
                            == room_id@;
                    assert(held.contains_pair(listed[j].0, listed[j].1));
                }
                if bound.contains(k) {
                    assert(held.contains_key(k));
                    let j = choose|j: int| 0 <= j < listed.len() && (#[trigger] listed[j]).0 == k;
                    assert(held.contains_pair(listed[j].0, listed[j].1));
                }
            }
        }
        ids
    }

    /// Severs every connection bound to the room `room_id`.
    fn evict_connections(&mut self, room_id: &str)
        ensures
            exists|order: Seq<Seq<char>>|
                is_order_of(order, bound_to(old(self)@.connections, room_id@)) && final(self)@
                    == #[trigger] after_eviction(old(self)@, room_id@, order),
    {
        let ids = self.bound_participants(room_id);
        let ghost order = texts_of(ids@);
        let ghost before = self@;
        let mut i: usize = 0;
        assert(before.connections.remove_keys(order.take(0).to_set()) =~= before.connections);
        assert(before.outbox + addressed(order.take(0), WsMessageView::Kicked) =~= before.outbox);
        while i < ids.len()
            invariant
                i <= ids.len(),
                order == texts_of(ids@),
                is_order_of(order, bound_to(before.connections, room_id@)),
                self@ == (AppStateView {
                    connections: before.connections.remove_keys(order.take(i as int).to_set()),
                    outbox: before.outbox + addressed(order.take(i as int), WsMessageView::Kicked),
                    ..before
                }),
            decreases ids.len() - i,
        {
            let ghost key = order[i as int];
            let ghost earlier = order.take(i as int);
            proof {
                assert(ids@[i as int]@ == key);
                order.lemma_take_succ_push(i as int);
                earlier.lemma_push_to_set_commute(key);
                assert(order.contains(key));
                assert(before.connections.contains_key(key));
                if earlier.contains(key) {
                    let n = choose|n: int| 0 <= n < earlier.len() && earlier[n] == key;
                    assert(order[n] == order[i as int]);
                }
                assert(self@.connections.contains_key(key));
            }
            match connections_remove(&mut self.connections, ids[i].as_str()) {
                Some(_) => {
                    self.queue(ids[i].clone(), WsMessage::Kicked);
                },
                None => {},
            }
            proof {
                assert(before.connections.remove_keys(order.take(i as int + 1).to_set())
                    =~= before.connections.remove_keys(earlier.to_set()).remove(key));
                assert(before.outbox + addressed(order.take(i as int + 1), WsMessageView::Kicked)
                    =~= (before.outbox + addressed(earlier, WsMessageView::Kicked)).push(
                    DeliveryView { participant_id: key, message: WsMessageView::Kicked },
                ));
            }
            i += 1;
        }
        proof {
            assert(order.take(i as int) =~= order);
            assert(order.to_set() =~= bound_to(before.connections, room_id@));
            assert(self@ == after_eviction(before, room_id@, order));
        }
    }

    /// Queues the room `room_id`, as it now is, for every connection bound
    /// to it: one message each. Nothing is queued of a room that does not
    /// exist.
    pub fn broadcast_room_update(&mut self, room_id: &str)
        ensures
            is_broadcast(old(self)@, room_id@, final(self)@),
    {
        match rooms_get(&self.rooms, room_id) {
            Some(room) => {
                let ids = self.bound_participants(room_id);
                let ghost order = texts_of(ids@);
                let ghost before = self@;
                let ghost message = WsMessageView::RoomUpdate { room: room@ };
                let mut i: usize = 0;
                assert(before.outbox + addressed(order.take(0), message) =~= before.outbox);
                while i < ids.len()
                    invariant
                        i <= ids.len(),
                        order == texts_of(ids@),
                        message == (WsMessageView::RoomUpdate { room: room@ }),
                        self@ == (AppStateView {
                            outbox: before.outbox + addressed(order.take(i as int), message),
                            ..before
                        }),
                    decreases ids.len() - i,
                {
                    let ghost key = order[i as int];
                    let ghost earlier = order.take(i as int);
                    proof {
                        assert(ids@[i as int]@ == key);
                        order.lemma_take_succ_push(i as int);
                    }
                    self.queue(ids[i].clone(), WsMessage::RoomUpdate { room: room.clone() });
                    proof {
                        assert(before.outbox + addressed(order.take(i as int + 1), message) =~= (
                        before.outbox + addressed(earlier, message)).push(
                            DeliveryView { participant_id: key, message: message },
                        ));
                    }
                    i += 1;
                }
                proof {
                    assert(order.take(i as int) =~= order);
                    assert(self@ == after_broadcast(before, room_id@, order));
                }
            },
            None => {},
        }
    }

    /// Sets the relay client, or drops the one that is set.
    pub fn set_relay_client(&mut self, client: Option<RelayClient>)
        ensures
            final(self)@ == (AppStateView { relay_client: client_of(client), ..old(self)@ }),
    {
        self.relay_client = client;
    }

    /// The relay client, if one is set.
    pub fn get_relay_client(&self) -> (client: &Option<RelayClient>)
        ensures
            client_of(*client) == self@.relay_client,
    {
        &self.relay_client
    }

    /// Whether a relay client is set and its connection stands.
    pub fn is_relay_connected(&self) -> (connected: bool)
        ensures
            connected == (match self@.relay_client {
                Some(client) => client.phase != RelayPhase::Disconnected,
                None => false,
            }),
    {
        match &self.relay_client {
            Some(client) => client.is_connected(),
            None => false,
        }
    }

    /// Hands an event of the relay's transport to the relay client. A room
    /// that the event announces is merged into the room of its id, and that
    /// room is sent to its connections.
    pub fn handle_relay_event(&mut self, event: RelayEvent)
        ensures
            is_relay_step(old(self)@, event@, final(self)@),
    {
        match self.relay_client.take() {
            Some(mut client) => {
                let announced = client.handle_event(event);
                self.relay_client = Some(client);
                match announced {
                    Some(room) => {
                        let room_id = room.id.clone();
                        self.update_room_from_relay(room);
                        self.broadcast_room_update(room_id.as_str());
                    },
                    None => {},
                }
            },
            None => {},
        }
    }

    /// The relay client, to drive it: what is done to it is done to the
    /// store's client.
    pub fn relay_client_mut(&mut self) -> (client: Option<&mut RelayClient>)
        ensures
            match client {
                Some(c) => old(self)@.relay_client == Some(c@) && final(self)@ == (AppStateView {
                    relay_client: Some(final(c)@),
                    ..old(self)@
                }),
                None => old(self)@.relay_client is None && final(self)@ == old(self)@,
            },
    {
        self.relay_client.as_mut()
    }
}

} // verus!
