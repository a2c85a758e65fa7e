//! The session records: rooms, their participants and votes, the ticket a
//! room estimates, and the messages exchanged with a participant's client.

use crate::ident::{fresh_hash, fresh_id, unix_seconds};
use crate::scan::{first_index, lemma_first_index_is};
use crate::text::{chars_of, clone_text, decimal_width2, push_decimal_width2, text_of};
use vstd::prelude::*;

verus! {

/// A ticket of the issue tracker, as a room shows it.
#[derive(Debug, PartialEq, Eq)]
pub struct JiraTicket {
    pub key: String,
    pub summary: String,
    pub description: Option<String>,
    pub issue_type: Option<String>,
    pub status: Option<String>,
    pub url: String,
}

/// What a [`JiraTicket`] holds, as plain text.
pub struct JiraTicketView {
    pub key: Seq<char>,
    pub summary: Seq<char>,
    pub description: Option<Seq<char>>,
    pub issue_type: Option<Seq<char>>,
    pub status: Option<Seq<char>>,
    pub url: Seq<char>,
}

impl View for JiraTicket {
    type V = JiraTicketView;

    open spec fn view(&self) -> JiraTicketView {
        JiraTicketView {
            key: self.key@,
            summary: self.summary@,
            description: text_of(self.description),
            issue_type: text_of(self.issue_type),
            status: text_of(self.status),
            url: self.url@,
        }
    }
}

impl Clone for JiraTicket {
    fn clone(&self) -> (r: Self)
        ensures
            r == *self,
    {
        JiraTicket {
            key: self.key.clone(),
            summary: self.summary.clone(),
            description: clone_text(&self.description),
            issue_type: clone_text(&self.issue_type),
            status: clone_text(&self.status),
            url: self.url.clone(),
        }
    }
}

/// The ticket in which nothing is set.
pub open spec fn empty_ticket() -> JiraTicketView {
    JiraTicketView {
        key: Seq::empty(),
        summary: Seq::empty(),
        description: None,
        issue_type: None,
        status: None,
        url: Seq::empty(),
    }
}

impl Default for JiraTicket {
    fn default() -> (ticket: Self)
        ensures
            ticket@ == empty_ticket(),
    {
        JiraTicket {
            key: String::new(),
            summary: String::new(),
            description: None,
            issue_type: None,
            status: None,
            url: String::new(),
        }
    }
}

/// The ticket of an optional ticket, as plain text.
pub open spec fn ticket_of(t: Option<JiraTicket>) -> Option<JiraTicketView> {
    match t {
        Some(ticket) => Some(ticket@),
        None => None,
    }
}

/// One voting member of a room.
#[derive(Debug, PartialEq, Eq)]
pub struct Participant {
    pub id: String,
    pub name: String,
    pub vote: Option<String>,
    pub is_host: bool,
}

/// What a [`Participant`] holds, as plain text.
pub struct ParticipantView {
    pub id: Seq<char>,
    pub name: Seq<char>,
    pub vote: Option<Seq<char>>,
    pub is_host: bool,
}

impl View for Participant {
    type V = ParticipantView;

    open spec fn view(&self) -> ParticipantView {
        ParticipantView {
            id: self.id@,
            name: self.name@,
            vote: text_of(self.vote),
            is_host: self.is_host,
        }
    }
}

impl Clone for Participant {
    fn clone(&self) -> (r: Self)
        ensures
            r == *self,
    {
        Participant {
            id: self.id.clone(),
            name: self.name.clone(),
            vote: clone_text(&self.vote),
            is_host: self.is_host,
        }
    }
}

impl Participant {
    /// A participant with a fresh id and no vote.
    pub fn new(name: String, is_host: bool) -> (p: Participant)
        ensures
            p@.name == name@,
            p@.vote is None,
            p@.is_host == is_host,
    {
        Participant::with_id(fresh_id(), name, is_host)
    }

    /// A participant with the given id and no vote.
    pub fn with_id(id: String, name: String, is_host: bool) -> (p: Participant)
        ensures
            p@ == (ParticipantView { id: id@, name: name@, vote: None, is_host: is_host }),
    {
        Participant { id: id, name: name, vote: None, is_host: is_host }
    }
}

/// The participants of a list, each as plain text, in the list's order.
pub open spec fn participants_of(ps: Seq<Participant>) -> Seq<ParticipantView> {
    ps.map_values(|p: Participant| p@)
}

/// A copy of a list of participants.
pub fn clone_participants(ps: &Vec<Participant>) -> (r: Vec<Participant>)
    ensures
        r@ == ps@,
{
    let mut out: Vec<Participant> = Vec::new();
    let mut i: usize = 0;
    while i < ps.len()
        invariant
            i <= ps.len(),
            out@ == ps@.take(i as int),
        decreases ps.len() - i,
    {
        out.push(ps[i].clone());
        i += 1;
    }
    out
}

/// A single estimation session.
#[derive(Debug, PartialEq, Eq)]
pub struct Room {
    pub id: String,
    pub name: String,
    pub participants: Vec<Participant>,
    pub votes_revealed: bool,
    pub created_at: u64,
    pub invite_code: String,
    pub current_ticket: Option<JiraTicket>,
}

/// What a [`Room`] holds, as plain values.
pub struct RoomView {
    pub id: Seq<char>,
    pub name: Seq<char>,
    pub participants: Seq<ParticipantView>,
    pub votes_revealed: bool,
    pub created_at: u64,
    pub invite_code: Seq<char>,
    pub current_ticket: Option<JiraTicketView>,
}

impl View for Room {
    type V = RoomView;

    open spec fn view(&self) -> RoomView {
        RoomView {
            id: self.id@,
            name: self.name@,
            participants: participants_of(self.participants@),
            votes_revealed: self.votes_revealed,
            created_at: self.created_at,
            invite_code: self.invite_code@,
            current_ticket: ticket_of(self.current_ticket),
        }
    }
}

impl Clone for Room {
    fn clone(&self) -> (r: Self)
        ensures
            r@ == self@,
    {
        Room {
            id: self.id.clone(),
            name: self.name.clone(),
            participants: clone_participants(&self.participants),
            votes_revealed: self.votes_revealed,
            created_at: self.created_at,
            invite_code: self.invite_code.clone(),
            current_ticket: match &self.current_ticket {
                Some(t) => Some(t.clone()),
                None => None,
            },
        }
    }
}


/// The invite code made of `hash`: the four low bytes, the highest of them
/// first, each in decimal with at least two digits, a single space between
/// them.
pub open spec fn invite_code_text(hash: u64) -> Seq<char> {
    decimal_width2(((hash / 0x100_0000) % 256) as nat) + seq![' '] + decimal_width2(
        ((hash / 0x1_0000) % 256) as nat,
    ) + seq![' '] + decimal_width2(((hash / 0x100) % 256) as nat) + seq![' '] + decimal_width2(
        (hash % 256) as nat,
    )
}

/// Whether `code` is the invite code of some hash.
pub open spec fn is_invite_code(code: Seq<char>) -> bool {
    exists|hash: u64| code == invite_code_text(hash)
}

/// The invite code made of `hash`.
pub fn invite_code_from_hash(hash: u64) -> (code: String)
    ensures
        code@ == invite_code_text(hash),
{
    let b3: u64 = (hash >> 24) & 0xFF;
    let b2: u64 = (hash >> 16) & 0xFF;
    let b1: u64 = (hash >> 8) & 0xFF;
    let b0: u64 = hash & 0xFF;
    assert(b3 == (hash / 0x100_0000) % 256) by (bit_vector)
        requires
            b3 == (hash >> 24) & 0xFF,
    ;
    assert(b2 == (hash / 0x1_0000) % 256) by (bit_vector)
        requires
            b2 == (hash >> 16) & 0xFF,
    ;
    assert(b1 == (hash / 0x100) % 256) by (bit_vector)
        requires
            b1 == (hash >> 8) & 0xFF,
    ;
    assert(b0 == hash % 256) by (bit_vector)
        requires
            b0 == hash & 0xFF,
    ;
    let mut code = String::new();
    push_decimal_width2(&mut code, b3);
    code.push(' ');
    push_decimal_width2(&mut code, b2);
    code.push(' ');
    push_decimal_width2(&mut code, b1);
    code.push(' ');
    push_decimal_width2(&mut code, b0);
    assert(code@ =~= invite_code_text(hash));
    code
}

/// A fresh invite code: the code of the hash of a fresh identifier.
pub fn generate_invite_code() -> (code: String)
    ensures
        is_invite_code(code@),
{
    invite_code_from_hash(fresh_hash())
}

/// `s` with every `%20` replaced by a space, from the left.
pub open spec fn decode_spaces(s: Seq<char>) -> Seq<char>
    decreases s.len(),
{
    if s.len() == 0 {
        s
    } else if s.len() >= 3 && s[0] == '%' && s[1] == '2' && s[2] == '0' {
        seq![' '] + decode_spaces(s.skip(3))
    } else {
        seq![s[0]] + decode_spaces(s.skip(1))
    }
}

/// `s` with every `-` replaced by a space.
pub open spec fn dashes_to_spaces(s: Seq<char>) -> Seq<char> {
    s.map_values(|c: char| if c == '-' { ' ' } else { c })
}

/// The form under which an invite code is looked up: first every `%20`
/// becomes a space, then every `-` becomes a space.
pub open spec fn normalized_code(s: Seq<char>) -> Seq<char> {
    dashes_to_spaces(decode_spaces(s))
}

/// The form under which an invite code is looked up.
pub fn normalize_invite_code(code: &str) -> (normal: String)
    ensures
        normal@ == normalized_code(code@),
{
    let chars = chars_of(code);
    let mut normal = String::new();
    let mut i: usize = 0;
    assert(code@.skip(0) =~= code@);
    assert(dashes_to_spaces(decode_spaces(code@)) =~= normal@ + dashes_to_spaces(
        decode_spaces(code@),
    ));
    while i < chars.len()
        invariant
            i <= chars.len(),
            chars@ == code@,
            normalized_code(code@) == normal@ + dashes_to_spaces(
                decode_spaces(code@.skip(i as int)),
            ),
        decreases chars.len() - i,
    {
        let ghost rest = code@.skip(i as int);
        let ghost done = normal@;
        if chars[i] == '%' && chars.len() - i >= 3 && chars[i + 1] == '2' && chars[i + 2] == '0' {
            normal.push(' ');
            proof {
                assert(rest.skip(3) =~= code@.skip(i as int + 3));
                assert(dashes_to_spaces(seq![' '] + decode_spaces(rest.skip(3))) =~= seq![' ']
                    + dashes_to_spaces(decode_spaces(rest.skip(3))));
                assert(normal@ + dashes_to_spaces(decode_spaces(rest.skip(3))) =~= done + (seq![
                    ' ',
                ] + dashes_to_spaces(decode_spaces(rest.skip(3)))));
            }
            i += 3;
        } else {
            let c = chars[i];
            let d = if c == '-' {
                ' '
            } else {
                c
            };
            normal.push(d);
            proof {
                assert(rest.skip(1) =~= code@.skip(i as int + 1));
                assert(dashes_to_spaces(seq![c] + decode_spaces(rest.skip(1))) =~= seq![d]
                    + dashes_to_spaces(decode_spaces(rest.skip(1))));
                assert(normal@ + dashes_to_spaces(decode_spaces(rest.skip(1))) =~= done + (seq![d]
                    + dashes_to_spaces(decode_spaces(rest.skip(1)))));
            }
            i += 1;
        }
    }
    assert(normal@ + dashes_to_spaces(decode_spaces(code@.skip(i as int))) =~= normal@);
    normal
}

/// The room that creation yields from its four inputs: nobody has joined,
/// the votes are hidden and no ticket is attached.
pub open spec fn new_room(
    id: Seq<char>,
    name: Seq<char>,
    created_at: u64,
    invite_code: Seq<char>,
) -> RoomView {
    RoomView {
        id: id,
        name: name,
        participants: Seq::empty(),
        votes_revealed: false,
        created_at: created_at,
        invite_code: invite_code,
        current_ticket: None,
    }
}

/// Whether `room` is a room as creation yields it under the name `name`,
/// whatever its id, its time of creation and the hash behind its invite code.
pub open spec fn is_new_room(room: RoomView, name: Seq<char>) -> bool {
    &&& is_invite_code(room.invite_code)
    &&& room == new_room(room.id, name, room.created_at, room.invite_code)
}

/// The condition "has the id `id`" on participants.
pub open spec fn has_id(id: Seq<char>) -> spec_fn(ParticipantView) -> bool {
    |p: ParticipantView| p.id == id
}

/// The index of the first participant of `ps` whose id is `id`, or the
/// length of `ps` when there is none.
pub open spec fn position_of(ps: Seq<ParticipantView>, id: Seq<char>) -> nat {
    first_index(ps, has_id(id))
}

/// `ps` after the participant with id `id` has cast `vote`: the first
/// participant with that id holds `vote`, everything else is as before.
pub open spec fn with_vote(
    ps: Seq<ParticipantView>,
    id: Seq<char>,
    vote: Option<Seq<char>>,
) -> Seq<ParticipantView> {
    let i = position_of(ps, id) as int;
    if i < ps.len() {
        ps.update(i, ParticipantView { vote: vote, ..ps[i] })
    } else {
        ps
    }
}

/// `ps` with every vote cleared.
pub open spec fn without_votes(ps: Seq<ParticipantView>) -> Seq<ParticipantView> {
    ps.map_values(|p: ParticipantView| ParticipantView { vote: None, ..p })
}

/// `ps` without the participants whose id is `id`.
pub open spec fn without_participant(ps: Seq<ParticipantView>, id: Seq<char>) -> Seq<
    ParticipantView,
> {
    ps.filter(|p: ParticipantView| p.id != id)
}

impl Room {
    /// A new room under a fresh id and a fresh invite code, created now.
    pub fn new(name: String) -> (room: Room)
        ensures
            is_new_room(room@, name@),
    {
        Room::from_parts(fresh_id(), name, unix_seconds(), generate_invite_code())
    }

    /// A new room with the given id, time of creation and invite code.
    pub fn from_parts(id: String, name: String, created_at: u64, invite_code: String) -> (room:
        Room)
        ensures
            room@ == new_room(id@, name@, created_at, invite_code@),
    {
        let room = Room {
            id: id,
            name: name,
            participants: Vec::new(),
            votes_revealed: false,
            created_at: created_at,
            invite_code: invite_code,
            current_ticket: None,
        };
        assert(room@.participants =~= Seq::empty());
        room
    }

    /// Appends a participant to the room.
    pub fn add_participant(&mut self, participant: Participant)
        ensures
            final(self)@ == (RoomView {
                participants: old(self)@.participants.push(participant@),
                ..old(self)@
            }),
    {
        self.participants.push(participant);
        assert(participants_of(self.participants@) =~= participants_of(
            old(self).participants@,
        ).push(participant@));
    }

    /// Records the vote of the first participant whose id is
    /// `participant_id`; a room without such a participant stays as it is.
    pub fn set_vote(&mut self, participant_id: &str, vote: Option<String>)
        ensures
            final(self)@ == (RoomView {
                participants: with_vote(
                    old(self)@.participants,
                    participant_id@,
                    text_of(vote),
                ),
                ..old(self)@
            }),
    {
        let mut i: usize = 0;
        while i < self.participants.len()
            invariant
                i <= self.participants.len(),
                *self == *old(self),
                forall|j: int| 0 <= j < i ==> !has_id(participant_id@)(#[trigger] self@.participants[j]),
            decreases self.participants.len() - i,
        {
            if self.participants[i].id.as_str().eq(participant_id) {
                self.participants[i].vote = vote;
                proof {
                    lemma_first_index_is(old(self)@.participants, has_id(participant_id@), i as int);
                    assert(self@.participants =~= with_vote(
                        old(self)@.participants,
                        participant_id@,
                        text_of(vote),
                    ));
                }
                return ;
            }
            i += 1;
        }
        proof {
            lemma_first_index_is(old(self)@.participants, has_id(participant_id@), i as int);
        }
    }

    /// Clears every vote and hides the votes again.
    pub fn reset_votes(&mut self)
        ensures
            final(self)@ == (RoomView {
                participants: without_votes(old(self)@.participants),
                votes_revealed: false,
                ..old(self)@
            }),
            forall|i: int|
                0 <= i < final(self)@.participants.len() ==> final(self)@.participants[i].vote
                    is None,
            !final(self)@.votes_revealed,
    {
        let mut i: usize = 0;
        while i < self.participants.len()
            invariant
                i <= self.participants.len(),
                self.participants.len() == old(self).participants.len(),
                (RoomView { participants: old(self)@.participants, ..self@ }) == old(self)@,
                forall|j: int|
                    0 <= j < i ==> (#[trigger] self.participants@[j])@ == (ParticipantView {
                        vote: None,
                        ..old(self).participants@[j]@
                    }),
                forall|j: int|
                    i <= j < self.participants.len() ==> #[trigger] self.participants@[j] == old(
                        self,
                    ).participants@[j],
            decreases self.participants.len() - i,
        {
            self.participants[i].vote = None;
            i += 1;
        }
        self.votes_revealed = false;
        assert(self@.participants =~= without_votes(old(self)@.participants));
    }

    /// Removes every participant whose id is `participant_id`.
    pub fn remove_participant(&mut self, participant_id: &str)
        ensures
            final(self)@ == (RoomView {
                participants: without_participant(old(self)@.participants, participant_id@),
                ..old(self)@
            }),
    {
        let ghost before = old(self)@.participants;
        let ghost keep = |p: ParticipantView| p.id != participant_id@;
        let mut i: usize = 0;
        let ghost mut seen: int = 0;
        assert(before.take(0).filter(keep) =~= Seq::<ParticipantView>::empty());
        while i < self.participants.len()
            invariant
                i <= self.participants.len(),
                0 <= seen,
                seen + (self.participants.len() - i) == before.len(),
                (RoomView { participants: before, ..self@ }) == old(self)@,
                before == old(self)@.participants,
                keep == |p: ParticipantView| p.id != participant_id@,
                self@.participants.take(i as int) == before.take(seen).filter(keep),
                self@.participants.skip(i as int) == before.skip(seen),
            decreases self.participants.len() - i,
        {
            proof {
                let s = before.take(seen + 1);
                assert(s.drop_last() =~= before.take(seen));
                assert(s.last() == before[seen]);
                assert(self@.participants.skip(i as int)[0] == before.skip(seen)[0]);
                reveal(Seq::filter);
            }
            let ghost current = self@.participants;
            if self.participants[i].id.as_str().eq(participant_id) {
                self.participants.remove(i);
                proof {
                    assert(self@.participants =~= current.remove(i as int));
                    assert(self@.participants.take(i as int) =~= current.take(i as int));
                    assert(self@.participants.skip(i as int) =~= current.skip(i as int + 1));
                    assert(current.skip(i as int + 1) =~= current.skip(i as int).skip(1));
                    assert(before.skip(seen + 1) =~= before.skip(seen).skip(1));
                }
            } else {
                proof {
                    assert(current.take(i as int + 1) =~= current.take(i as int).push(
                        current[i as int],
                    ));
                    assert(current.skip(i as int + 1) =~= current.skip(i as int).skip(1));
                    assert(before.skip(seen + 1) =~= before.skip(seen).skip(1));
                }
                i += 1;
            }
            proof {
                seen = seen + 1;
            }
        }
        proof {
            assert(self@.participants.take(i as int) =~= self@.participants);
            assert(before.take(seen) =~= before);
        }
    }

    /// The counts of the room's votes.
    pub fn get_vote_summary(&self) -> (summary: VoteSummary)
        ensures
            summary.total_voters == self@.participants.len(),
            summary.voted_count == self@.participants.filter(
                |p: ParticipantView| p.vote is Some,
            ).len(),
    {
        let ghost voted = |p: ParticipantView| p.vote is Some;
        let ghost all = self@.participants;
        let mut count: usize = 0;
        let mut i: usize = 0;
        assert(all.take(0).filter(voted) =~= Seq::<ParticipantView>::empty());
        while i < self.participants.len()
            invariant
                i <= self.participants.len(),
                all == self@.participants,
                voted == |p: ParticipantView| p.vote is Some,
                count == all.take(i as int).filter(voted).len(),
                count <= i,
            decreases self.participants.len() - i,
        {
            proof {
                let s = all.take(i as int + 1);
                assert(s.drop_last() =~= all.take(i as int));
                assert(s.last() == self.participants@[i as int]@);
                reveal(Seq::filter);
            }
            if self.participants[i].vote.is_some() {
                count += 1;
            }
            i += 1;
        }
        assert(all.take(i as int) =~= all);
        VoteSummary { total_voters: self.participants.len(), voted_count: count }
    }

    /// The votes that have been cast, in the order of the participants.
    pub fn cast_votes(&self) -> (votes: Vec<String>)
        ensures
            votes@.map_values(|v: String| v@) == self@.participants.filter_map(
                |p: ParticipantView| p.vote,
            ),
    {
        let ghost pick = |p: ParticipantView| p.vote;
        let ghost all = self@.participants;
        let mut votes: Vec<String> = Vec::new();
        let mut i: usize = 0;
        assert(all.take(0).filter_map(pick) =~= Seq::<Seq<char>>::empty());
        assert(votes@.map_values(|v: String| v@) =~= Seq::<Seq<char>>::empty());
        while i < self.participants.len()
            invariant
                i <= self.participants.len(),
                all == self@.participants,
                pick == |p: ParticipantView| p.vote,
                votes@.map_values(|v: String| v@) == all.take(i as int).filter_map(pick),
            decreases self.participants.len() - i,
        {
            proof {
                all.lemma_filter_map_take_succ(pick, i as int);
                assert(all[i as int] == self.participants@[i as int]@);
            }
            let ghost before = votes@;
            match &self.participants[i].vote {
                Some(v) => {
                    votes.push(v.clone());
                    assert(votes@.map_values(|v: String| v@) =~= before.map_values(
                        |v: String| v@,
                    ).push(v@));
                },
                None => {},
            }
            i += 1;
        }
        assert(all.take(i as int) =~= all);
        votes
    }
}

/// The counts of a room's votes. The mean of the votes that read as numbers
/// is a floating-point value and is taken by the caller, from
/// [`Room::cast_votes`].
#[derive(Debug, Clone, Copy, PartialEq, Eq)]
pub struct VoteSummary {
    /// How many participants the room has.
    pub total_voters: usize,
    /// How many of them hold a vote.
    pub voted_count: usize,
}

/// The story-point tokens that clients offer for voting, in the order in
/// which they are shown. A vote is free text: the store accepts any token.
pub open spec fn story_point_tokens() -> Seq<Seq<char>> {
    seq![
        "?"@,
        "\u{2615}"@,
        "0"@,
        "0.5"@,
        "1"@,
        "2"@,
        "3"@,
        "5"@,
        "8"@,
        "13"@,
        "20"@,
        "40"@,
        "100"@,
    ]
}

/// The story-point tokens that clients offer for voting.
pub fn story_points() -> (points: Vec<&'static str>)
    ensures
        points@.map_values(|t: &'static str| t@) == story_point_tokens(),
{
    let mut points: Vec<&'static str> = Vec::new();
    points.push("?");
    points.push("\u{2615}");
    points.push("0");
    points.push("0.5");
    points.push("1");
    points.push("2");
    points.push("3");
    points.push("5");
    points.push("8");
    points.push("13");
    points.push("20");
    points.push("40");
    points.push("100");
    assert(points@.map_values(|t: &'static str| t@) =~= story_point_tokens());
    points
}

/// A message between a participant's client and the host.
#[derive(Debug, PartialEq, Eq)]
pub enum WsMessage {
    /// The client asks to join a room.
    Join { room_id: String, name: String },
    /// The client casts or withdraws its vote.
    Vote { vote: Option<String> },
    /// The host sends the room as it now is.
    RoomUpdate { room: Room },
    /// The host reports a failure.
    Error { message: String },
    /// The host has removed the participant: the last message of a session.
    Kicked,
    /// Heartbeat, from the client.
    Ping,
    /// Heartbeat, the host's answer.
    Pong,
}

/// What a [`WsMessage`] holds, as plain values.
pub enum WsMessageView {
    Join { room_id: Seq<char>, name: Seq<char> },
    Vote { vote: Option<Seq<char>> },
    RoomUpdate { room: RoomView },
    Error { message: Seq<char> },
    Kicked,
    Ping,
    Pong,
}

impl View for WsMessage {
    type V = WsMessageView;

    open spec fn view(&self) -> WsMessageView {
        match *self {
            WsMessage::Join { room_id, name } => WsMessageView::Join {
                room_id: room_id@,
                name: name@,
            },
            WsMessage::Vote { vote } => WsMessageView::Vote { vote: text_of(vote) },
            WsMessage::RoomUpdate { room } => WsMessageView::RoomUpdate { room: room@ },
            WsMessage::Error { message } => WsMessageView::Error { message: message@ },
            WsMessage::Kicked => WsMessageView::Kicked,
            WsMessage::Ping => WsMessageView::Ping,
            WsMessage::Pong => WsMessageView::Pong,
        }
    }
}

impl Clone for WsMessage {
    fn clone(&self) -> (r: Self)
        ensures
            r@ == self@,
    {
        match self {
            WsMessage::Join { room_id, name } => WsMessage::Join {
                room_id: room_id.clone(),
                name: name.clone(),
            },
            WsMessage::Vote { vote } => WsMessage::Vote { vote: clone_text(vote) },
            WsMessage::RoomUpdate { room } => WsMessage::RoomUpdate { room: room.clone() },
            WsMessage::Error { message } => WsMessage::Error { message: message.clone() },
            WsMessage::Kicked => WsMessage::Kicked,
            WsMessage::Ping => WsMessage::Ping,
            WsMessage::Pong => WsMessage::Pong,
        }
    }
}

/// The view of an optional room.
pub open spec fn room_of(r: Option<Room>) -> Option<RoomView> {
    match r {
        Some(room) => Some(room@),
        None => None,
    }
}

/// The rooms of a list, each as plain values, in the list's order.
pub open spec fn rooms_of(rooms: Seq<Room>) -> Seq<RoomView> {
    rooms.map_values(|r: Room| r@)
}

/// A copy of a list of rooms.
pub fn clone_rooms(rooms: &Vec<Room>) -> (r: Vec<Room>)
    ensures
        rooms_of(r@) == rooms_of(rooms@),
{
    let mut out: Vec<Room> = Vec::new();
    let mut i: usize = 0;
    assert(rooms_of(out@) =~= rooms_of(rooms@).take(0));
    while i < rooms.len()
        invariant
            i <= rooms.len(),
            rooms_of(out@) == rooms_of(rooms@).take(i as int),
        decreases rooms.len() - i,
    {
        let ghost before = out@;
        out.push(rooms[i].clone());
        assert(rooms_of(out@) =~= rooms_of(before).push(rooms@[i as int]@));
        assert(rooms_of(rooms@).take(i as int + 1) =~= rooms_of(rooms@).take(i as int).push(
            rooms@[i as int]@,
        ));
        i += 1;
    }
    assert(rooms_of(rooms@).take(i as int) =~= rooms_of(rooms@));
    out
}

} // verus!
