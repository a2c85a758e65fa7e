//! What holds of the store and of the rooms whatever the calls: the laws
//! that relate several operations.

use crate::index::lookup;
use crate::relay::{
    after_event, find_room, room_has_id, with_room_replaced, IncomingMessageView,
    RelayClientView, RelayEventView, RelayPhase,
};
use crate::room::{
    decode_spaces, dashes_to_spaces, has_id, invite_code_text, normalized_code, position_of,
    with_vote, without_participant, without_votes, ParticipantView, RoomView, WsMessageView,
};
use crate::scan::{first_index, lemma_first_index, lemma_first_index_is};
use crate::state::{
    addressed, after_create, after_delete, after_set_vote, bound_to, empty_state, is_deletion,
    is_order_of, room_by_invite, with_room, AppStateView, DeliveryView,
};
use crate::text::{decimal, decimal_width2};
use vstd::prelude::*;

verus! {

/// One vote as it reaches a room: who casts it, and what.
pub struct Ballot {
    pub participant_id: Seq<char>,
    pub vote: Option<Seq<char>>,
}

/// The participants after the ballots have been recorded one by one, in
/// the order of `ballots`.
pub open spec fn after_ballots(ps: Seq<ParticipantView>, ballots: Seq<Ballot>) -> Seq<
    ParticipantView,
>
    decreases ballots.len(),
{
    if ballots.len() == 0 {
        ps
    } else {
        with_vote(
            after_ballots(ps, ballots.drop_last()),
            ballots.last().participant_id,
            ballots.last().vote,
        )
    }
}

/// The vote of the last ballot that `participant_id` has cast among
/// `ballots`, if it has cast one.
pub open spec fn last_ballot(ballots: Seq<Ballot>, participant_id: Seq<char>) -> Option<
    Option<Seq<char>>,
>
    decreases ballots.len(),
{
    if ballots.len() == 0 {
        None
    } else if ballots.last().participant_id == participant_id {
        Some(ballots.last().vote)
    } else {
        last_ballot(ballots.drop_last(), participant_id)
    }
}

/// Whether the participant at `i` is the one that votes cast under its id
/// reach: the first of the list with that id.
pub open spec fn is_voter(ps: Seq<ParticipantView>, i: int) -> bool {
    0 <= i < ps.len() && position_of(ps, ps[i].id) == i
}

/// Recording one vote changes the vote of the first participant with that
/// id and nothing else: the list keeps its length, and every participant
/// its id, its name and its role.
pub proof fn lemma_with_vote(ps: Seq<ParticipantView>, id: Seq<char>, vote: Option<Seq<char>>)
    ensures
        with_vote(ps, id, vote).len() == ps.len(),
        forall|i: int|
            0 <= i < ps.len() ==> (#[trigger] with_vote(ps, id, vote)[i]) == (if ps[i].id == id
                && is_voter(ps, i) {
                ParticipantView { vote: vote, ..ps[i] }
            } else {
                ps[i]
            }),
        forall|other: Seq<char>| #[trigger]
            position_of(with_vote(ps, id, vote), other) == position_of(ps, other),
{
    lemma_first_index(ps, has_id(id));
    let out = with_vote(ps, id, vote);
    assert forall|other: Seq<char>| #[trigger]
        position_of(out, other) == position_of(ps, other) by {
        lemma_first_index(ps, has_id(other));
        let k = position_of(ps, other) as int;
        assert forall|j: int| 0 <= j < k implies !has_id(other)(#[trigger] out[j]) by {
            assert(!has_id(other)(ps[j]));
        }
        lemma_first_index_is(out, has_id(other), k);
    }
}

/// No vote is lost. After any sequence of ballots, each participant that
/// votes reach holds the vote of the last ballot cast under its id, or its
/// former vote if none was cast; the votes under one id do not touch the
/// vote of another. The list keeps its length, and every participant its
/// id, its name and its role.
pub proof fn lemma_no_vote_is_lost(ps: Seq<ParticipantView>, ballots: Seq<Ballot>)
    ensures
        after_ballots(ps, ballots).len() == ps.len(),
        forall|i: int|
            0 <= i < ps.len() ==> (#[trigger] after_ballots(ps, ballots)[i]) == (if is_voter(
                ps,
                i,
            ) {
                match last_ballot(ballots, ps[i].id) {
                    Some(vote) => ParticipantView { vote: vote, ..ps[i] },
                    None => ps[i],
                }
            } else {
                ps[i]
            }),
        forall|other: Seq<char>| #[trigger]
            position_of(after_ballots(ps, ballots), other) == position_of(ps, other),
    decreases ballots.len(),
{
    if ballots.len() > 0 {
        let earlier = ballots.drop_last();
        let mid = after_ballots(ps, earlier);
        let b = ballots.last();
        lemma_no_vote_is_lost(ps, earlier);
        lemma_with_vote(mid, b.participant_id, b.vote);
        let out = after_ballots(ps, ballots);
        assert forall|i: int| 0 <= i < ps.len() implies (#[trigger] out[i]) == (if is_voter(
            ps,
            i,
        ) {
            match last_ballot(ballots, ps[i].id) {
                Some(vote) => ParticipantView { vote: vote, ..ps[i] },
                None => ps[i],
            }
        } else {
            ps[i]
        }) by {
            assert(mid[i].id == ps[i].id);
            assert(position_of(mid, mid[i].id) == position_of(ps, ps[i].id));
            assert(out[i] == with_vote(mid, b.participant_id, b.vote)[i]);
        }
        assert forall|other: Seq<char>| #[trigger]
            position_of(out, other) == position_of(ps, other) by {
            assert(position_of(with_vote(mid, b.participant_id, b.vote), other) == position_of(
                mid,
                other,
            ));
        }
    }
}

/// Whether no two participants of the list share an id.
pub open spec fn has_distinct_ids(ps: Seq<ParticipantView>) -> bool {
    forall|i: int, j: int|
        0 <= i < j < ps.len() ==> (#[trigger] ps[i]).id != (#[trigger] ps[j]).id
}

/// Where no two participants share an id, votes reach every participant.
pub proof fn lemma_distinct_ids_all_vote(ps: Seq<ParticipantView>)
    requires
        has_distinct_ids(ps),
    ensures
        forall|i: int| 0 <= i < ps.len() ==> #[trigger] is_voter(ps, i),
{
    assert forall|i: int| 0 <= i < ps.len() implies #[trigger] is_voter(ps, i) by {
        assert forall|j: int| 0 <= j < i implies !has_id(ps[i].id)(#[trigger] ps[j]) by {}
        lemma_first_index_is(ps, has_id(ps[i].id), i);
    }
}

/// A room whose participants have distinct ids keeps them distinct: when a
/// participant joins under an id that none has, when participants leave,
/// when a vote is cast, and when the votes are cleared.
pub proof fn lemma_ids_stay_distinct(
    ps: Seq<ParticipantView>,
    joining: ParticipantView,
    id: Seq<char>,
    vote: Option<Seq<char>>,
)
    requires
        has_distinct_ids(ps),
    ensures
        position_of(ps, joining.id) == ps.len() ==> has_distinct_ids(ps.push(joining)),
        has_distinct_ids(without_participant(ps, id)),
        has_distinct_ids(with_vote(ps, id, vote)),
        has_distinct_ids(without_votes(ps)),
    decreases ps.len(),
{
    if position_of(ps, joining.id) == ps.len() {
        lemma_first_index(ps, has_id(joining.id));
        assert forall|i: int, j: int| 0 <= i < j < ps.push(joining).len() implies (
        #[trigger] ps.push(joining)[i]).id != (#[trigger] ps.push(joining)[j]).id by {
            if j == ps.len() {
                assert(!has_id(joining.id)(ps[i]));
            }
        }
    }
    lemma_with_vote(ps, id, vote);
    let kept = without_participant(ps, id);
    let keep = |p: ParticipantView| p.id != id;
    reveal(Seq::filter);
    if ps.len() > 0 {
        let earlier = ps.drop_last();
        lemma_ids_stay_distinct(earlier, joining, id, vote);
        let before = without_participant(earlier, id);
        if keep(ps.last()) {
            assert(kept =~= before.push(ps.last()));
            assert forall|i: int, j: int| 0 <= i < j < kept.len() implies (#[trigger] kept[i]).id
                != (#[trigger] kept[j]).id by {
                if j == before.len() {
                    assert(before.contains(before[i]));
                    earlier.lemma_filter_contains_rev(keep, before[i]);
                    assert(earlier.contains(before[i]));
                    let n = choose|n: int| 0 <= n < earlier.len() && earlier[n] == before[i];
                    assert(ps[n] == before[i]);
                    assert(ps[n].id != ps[ps.len() - 1].id);
                } else {
                    assert(before[i].id != before[j].id);
                }
            }
        } else {
            assert(kept =~= before);
        }
    }
}

/// The store after the ballots have reached the room `id` one by one.
pub open spec fn after_store_ballots(s: AppStateView, id: Seq<char>, ballots: Seq<Ballot>) -> AppStateView
    decreases ballots.len(),
{
    if ballots.len() == 0 {
        s
    } else {
        after_set_vote(
            after_store_ballots(s, id, ballots.drop_last()),
            id,
            ballots.last().participant_id,
            ballots.last().vote,
        )
    }
}

/// No vote is lost in the store either. However the votes on one room
/// follow one another, the room ends with the participants that
/// [`lemma_no_vote_is_lost`] describes, and nothing else in the store has
/// changed.
pub proof fn lemma_store_keeps_every_vote(s: AppStateView, id: Seq<char>, ballots: Seq<Ballot>)
    requires
        s.rooms.contains_key(id),
    ensures
        after_store_ballots(s, id, ballots) == with_room(
            s,
            id,
            RoomView {
                participants: after_ballots(s.rooms[id].participants, ballots),
                ..s.rooms[id]
            },
        ),
    decreases ballots.len(),
{
    if ballots.len() == 0 {
        assert(s.rooms.insert(id, s.rooms[id]) =~= s.rooms);
    } else {
        lemma_store_keeps_every_vote(s, id, ballots.drop_last());
        let mid = after_store_ballots(s, id, ballots.drop_last());
        let out = after_store_ballots(s, id, ballots);
        assert(out.rooms =~= s.rooms.insert(
            id,
            RoomView {
                participants: after_ballots(s.rooms[id].participants, ballots),
                ..s.rooms[id]
            },
        ));
    }
}

/// Whether the registry and the index of the invite codes agree: every
/// room stands under its own id, no two rooms share an invite code, and the
/// index leads from the code of each room to that room and holds nothing
/// else.
pub open spec fn is_consistent(s: AppStateView) -> bool {
    &&& forall|k: Seq<char>| #[trigger] s.rooms.contains_key(k) ==> s.rooms[k].id == k
    &&& forall|k1: Seq<char>, k2: Seq<char>|
        #![trigger s.rooms[k1], s.rooms[k2]]
        s.rooms.contains_key(k1) && s.rooms.contains_key(k2) && k1 != k2
            ==> s.rooms[k1].invite_code != s.rooms[k2].invite_code
    &&& forall|k: Seq<char>| #[trigger]
        s.rooms.contains_key(k) ==> lookup(s.invite_codes, s.rooms[k].invite_code) == Some(k)
    &&& forall|c: Seq<char>| #[trigger]
        s.invite_codes.contains_key(c) ==> s.rooms.contains_key(s.invite_codes[c])
            && s.rooms[s.invite_codes[c]].invite_code == c
}

/// Whether `room` is new to the store: no room stands under its id, and
/// its invite code leads nowhere yet.
pub open spec fn is_fresh(s: AppStateView, room: RoomView) -> bool {
    !s.rooms.contains_key(room.id) && !s.invite_codes.contains_key(room.invite_code)
}

/// The store after the rooms have been entered one by one.
pub open spec fn after_creates(s: AppStateView, rooms: Seq<RoomView>) -> AppStateView
    decreases rooms.len(),
{
    if rooms.len() == 0 {
        s
    } else {
        after_create(after_creates(s, rooms.drop_last()), rooms.last())
    }
}

/// Whether each of `rooms` is new to the store at the time it is entered.
pub open spec fn are_fresh(s: AppStateView, rooms: Seq<RoomView>) -> bool
    decreases rooms.len(),
{
    rooms.len() > 0 ==> are_fresh(s, rooms.drop_last()) && is_fresh(
        after_creates(s, rooms.drop_last()),
        rooms.last(),
    )
}

/// The empty store is consistent.
pub proof fn lemma_empty_is_consistent()
    ensures
        is_consistent(empty_state()),
{
}

/// Entering a room that is new to a consistent store leaves the store
/// consistent: the ids and the invite codes of its rooms stay distinct.
/// The id and the code of a room are drawn at random, so that they are new
/// is assumed here, not shown.
pub proof fn lemma_create_keeps_distinct(s: AppStateView, room: RoomView)
    requires
        is_consistent(s),
        is_fresh(s, room),
    ensures
        is_consistent(after_create(s, room)),
        after_create(s, room).rooms.contains_key(room.id),
        forall|k: Seq<char>| #[trigger]
            s.rooms.contains_key(k) ==> k != room.id && s.rooms[k].invite_code
                != room.invite_code && after_create(s, room).rooms[k] == s.rooms[k],
{
    let out = after_create(s, room);
    assert forall|k: Seq<char>| #[trigger] s.rooms.contains_key(k) implies s.rooms[k].invite_code
        != room.invite_code by {
        assert(lookup(s.invite_codes, s.rooms[k].invite_code) == Some(k));
    }
    assert forall|c: Seq<char>| #[trigger] out.invite_codes.contains_key(c) implies out.rooms.contains_key(
    out.invite_codes[c]) && out.rooms[out.invite_codes[c]].invite_code == c by {
        if c != room.invite_code {
            assert(s.invite_codes.contains_key(c));
        }
    }
}

/// However many rooms are created, as long as each is new when it is
/// entered, every room of the store has an id and an invite code that no
/// other room of the store has.
pub proof fn lemma_creates_keep_distinct(s: AppStateView, rooms: Seq<RoomView>)
    requires
        is_consistent(s),
        are_fresh(s, rooms),
    ensures
        is_consistent(after_creates(s, rooms)),
        forall|i: int|
            0 <= i < rooms.len() ==> after_creates(s, rooms).rooms.contains_key(
                (#[trigger] rooms[i]).id,
            ) && after_creates(s, rooms).rooms[rooms[i].id] == rooms[i],
        forall|i: int, j: int|
            0 <= i < j < rooms.len() ==> (#[trigger] rooms[i]).id != (#[trigger] rooms[j]).id
                && rooms[i].invite_code != rooms[j].invite_code,
    decreases rooms.len(),
{
    if rooms.len() > 0 {
        let earlier = rooms.drop_last();
        let mid = after_creates(s, earlier);
        lemma_creates_keep_distinct(s, earlier);
        lemma_create_keeps_distinct(mid, rooms.last());
        let out = after_creates(s, rooms);
        assert forall|i: int| 0 <= i < rooms.len() implies out.rooms.contains_key(
            (#[trigger] rooms[i]).id,
        ) && out.rooms[rooms[i].id] == rooms[i] by {
            if i < earlier.len() {
                assert(earlier[i] == rooms[i]);
                assert(mid.rooms.contains_key(earlier[i].id));
            }
        }
        assert forall|i: int, j: int| 0 <= i < j < rooms.len() implies (#[trigger] rooms[i]).id != (
        #[trigger] rooms[j]).id && rooms[i].invite_code != rooms[j].invite_code by {
            assert(earlier[i] == rooms[i]);
            assert(mid.rooms.contains_key(earlier[i].id));
            if j < earlier.len() {
                assert(earlier[j] == rooms[j]);
            }
        }
    }
}

/// In a consistent store every spelling of a room's invite code leads to
/// that room: whatever has the code as its normal form.
pub proof fn lemma_invite_leads_to_room(s: AppStateView, id: Seq<char>, spelling: Seq<char>)
    requires
        is_consistent(s),
        s.rooms.contains_key(id),
        normalized_code(spelling) == s.rooms[id].invite_code,
    ensures
        room_by_invite(s, spelling) == Some(s.rooms[id]),
{
    assert(lookup(s.invite_codes, s.rooms[id].invite_code) == Some(id));
}

/// Whether `s` holds neither `%` nor `-`.
pub open spec fn is_plain(s: Seq<char>) -> bool {
    forall|i: int| 0 <= i < s.len() ==> s[i] != '%' && s[i] != '-'
}

/// `s` with a `-` in place of every space.
pub open spec fn with_dashes(s: Seq<char>) -> Seq<char> {
    s.map_values(|c: char| if c == ' ' { '-' } else { c })
}

/// `s` with `%20` in place of every space.
pub open spec fn with_percent_spaces(s: Seq<char>) -> Seq<char>
    decreases s.len(),
{
    if s.len() == 0 {
        s
    } else if s[0] == ' ' {
        seq!['%', '2', '0'] + with_percent_spaces(s.skip(1))
    } else {
        seq![s[0]] + with_percent_spaces(s.skip(1))
    }
}

/// Text without `%` has no `%20` to replace.
pub proof fn lemma_decode_without_percent(s: Seq<char>)
    requires
        forall|i: int| 0 <= i < s.len() ==> s[i] != '%',
    ensures
        decode_spaces(s) == s,
    decreases s.len(),
{
    if s.len() > 0 {
        lemma_decode_without_percent(s.skip(1));
        assert(seq![s[0]] + s.skip(1) =~= s);
    }
}

/// Plain text is its own normal form.
pub proof fn lemma_plain_is_normal(s: Seq<char>)
    requires
        is_plain(s),
    ensures
        normalized_code(s) == s,
{
    lemma_decode_without_percent(s);
    assert(dashes_to_spaces(s) =~= s);
}

/// Plain text written with `-` for its spaces has the text as its normal
/// form.
pub proof fn lemma_dashes_are_spaces(s: Seq<char>)
    requires
        is_plain(s),
    ensures
        normalized_code(with_dashes(s)) == s,
{
    lemma_decode_without_percent(with_dashes(s));
    assert(dashes_to_spaces(with_dashes(s)) =~= s);
}

/// Plain text written with `%20` for its spaces has the text as its normal
/// form.
pub proof fn lemma_percent_spaces_are_spaces(s: Seq<char>)
    requires
        is_plain(s),
    ensures
        decode_spaces(with_percent_spaces(s)) == s,
        normalized_code(with_percent_spaces(s)) == s,
    decreases s.len(),
{
    if s.len() > 0 {
        let rest = s.skip(1);
        lemma_percent_spaces_are_spaces(rest);
        let encoded = with_percent_spaces(s);
        if s[0] == ' ' {
            assert(encoded.skip(3) =~= with_percent_spaces(rest));
        } else {
            assert(encoded.skip(1) =~= with_percent_spaces(rest));
        }
        assert(seq![s[0]] + rest =~= s);
    }
    assert(dashes_to_spaces(s) =~= s);
}

/// A number in decimal is plain text.
pub proof fn lemma_decimal_is_plain(n: nat)
    ensures
        is_plain(decimal(n)),
        is_plain(decimal_width2(n)),
    decreases n,
{
    if n >= 10 {
        lemma_decimal_is_plain(n / 10);
    }
}

/// An invite code is plain text, and so its own normal form.
pub proof fn lemma_invite_code_is_normal(hash: u64)
    ensures
        is_plain(invite_code_text(hash)),
        normalized_code(invite_code_text(hash)) == invite_code_text(hash),
{
    lemma_decimal_is_plain(((hash / 0x100_0000) % 256) as nat);
    lemma_decimal_is_plain(((hash / 0x1_0000) % 256) as nat);
    lemma_decimal_is_plain(((hash / 0x100) % 256) as nat);
    lemma_decimal_is_plain((hash % 256) as nat);
    lemma_plain_is_normal(invite_code_text(hash));
}

/// A consistent store finds a room under its invite code as it is shown,
/// under the code with `-` for the spaces, and under the code with `%20` for
/// the spaces.
pub proof fn lemma_invite_spellings(s: AppStateView, id: Seq<char>)
    requires
        is_consistent(s),
        s.rooms.contains_key(id),
        is_plain(s.rooms[id].invite_code),
    ensures
        room_by_invite(s, s.rooms[id].invite_code) == Some(s.rooms[id]),
        room_by_invite(s, with_dashes(s.rooms[id].invite_code)) == Some(s.rooms[id]),
        room_by_invite(s, with_percent_spaces(s.rooms[id].invite_code)) == Some(s.rooms[id]),
{
    let code = s.rooms[id].invite_code;
    lemma_plain_is_normal(code);
    lemma_dashes_are_spaces(code);
    lemma_percent_spaces_are_spaces(code);
    lemma_invite_leads_to_room(s, id, code);
    lemma_invite_leads_to_room(s, id, with_dashes(code));
    lemma_invite_leads_to_room(s, id, with_percent_spaces(code));
}

/// The deliveries of `outbox` that go to `participant_id`, in their order.
pub open spec fn deliveries_to(outbox: Seq<DeliveryView>, participant_id: Seq<char>) -> Seq<
    DeliveryView,
> {
    outbox.filter(|d: DeliveryView| d.participant_id == participant_id)
}

/// Of one message addressed to each of `order`, exactly one goes to each
/// participant that `order` names, and none to any other.
pub proof fn lemma_one_delivery_each(
    order: Seq<Seq<char>>,
    message: WsMessageView,
    participant_id: Seq<char>,
)
    requires
        order.no_duplicates(),
    ensures
        deliveries_to(addressed(order, message), participant_id) == (if order.contains(
            participant_id,
        ) {
            seq![DeliveryView { participant_id: participant_id, message: message }]
        } else {
            Seq::empty()
        }),
    decreases order.len(),
{
    let pred = |d: DeliveryView| d.participant_id == participant_id;
    reveal(Seq::filter);
    if order.len() > 0 {
        let earlier = order.drop_last();
        let last = order.last();
        lemma_one_delivery_each(earlier, message, participant_id);
        assert(addressed(order, message).drop_last() =~= addressed(earlier, message));
        assert(order =~= earlier.push(last));
        vstd::seq_lib::lemma_seq_contains_after_push(earlier, last, participant_id);
        if earlier.contains(participant_id) {
            let n = choose|n: int| 0 <= n < earlier.len() && earlier[n] == participant_id;
            assert(order[n] == participant_id);
            assert(last != participant_id);
        }
    } else {
        assert(!order.contains(participant_id));
    }
}

/// Deleting a room that exists takes the room out of the registry and its
/// invite code out of the index, so that neither the id nor any spelling of
/// the code leads to a room that was consistent with it. Every connection
/// that was bound to the room is out of the index and has got exactly one
/// more message, the notice of removal, behind everything queued before.
/// No other connection has got anything, and no other connection is gone.
/// Deleting the room once more changes nothing.
pub proof fn lemma_delete_room(
    s: AppStateView,
    id: Seq<char>,
    once: AppStateView,
    twice: AppStateView,
)
    requires
        s.rooms.contains_key(id),
        is_deletion(s, id, once),
        is_deletion(once, id, twice),
    ensures
        !once.rooms.contains_key(id),
        lookup(once.rooms, id) is None,
        !once.invite_codes.contains_key(s.rooms[id].invite_code),
        forall|spelling: Seq<char>|
            normalized_code(spelling) == s.rooms[id].invite_code ==> #[trigger] room_by_invite(
                once,
                spelling,
            ) is None,
        forall|k: Seq<char>|
            k != id ==> #[trigger] lookup(once.rooms, k) == lookup(s.rooms, k),
        once.outbox.take(s.outbox.len() as int) == s.outbox,
        forall|p: Seq<char>| #[trigger]
            bound_to(s.connections, id).contains(p) ==> !once.connections.contains_key(p)
                && deliveries_to(once.outbox.skip(s.outbox.len() as int), p) == seq![
                DeliveryView { participant_id: p, message: WsMessageView::Kicked },
            ],
        forall|p: Seq<char>|
            !bound_to(s.connections, id).contains(p) ==> #[trigger] lookup(once.connections, p)
                == lookup(s.connections, p) && deliveries_to(
                once.outbox.skip(s.outbox.len() as int),
                p,
            ) == Seq::<DeliveryView>::empty(),
        twice == once,
{
    let order = choose|order: Seq<Seq<char>>|
        is_order_of(order, bound_to(s.connections, id)) && once == #[trigger] after_delete(
            s,
            id,
            order,
        );
    let added = addressed(order, WsMessageView::Kicked);
    assert(once.outbox.take(s.outbox.len() as int) =~= s.outbox);
    assert(once.outbox.skip(s.outbox.len() as int) =~= added);
    assert forall|p: Seq<char>| #[trigger]
        bound_to(s.connections, id).contains(p) implies !once.connections.contains_key(p)
        && deliveries_to(once.outbox.skip(s.outbox.len() as int), p) == seq![
        DeliveryView { participant_id: p, message: WsMessageView::Kicked },
    ] by {
        lemma_one_delivery_each(order, WsMessageView::Kicked, p);
        assert(order.contains(p));
    }
    assert forall|p: Seq<char>| !bound_to(s.connections, id).contains(p) implies #[trigger] lookup(
        once.connections,
        p,
    ) == lookup(s.connections, p) && deliveries_to(once.outbox.skip(s.outbox.len() as int), p)
        == Seq::<DeliveryView>::empty() by {
        lemma_one_delivery_each(order, WsMessageView::Kicked, p);
        assert(!order.contains(p));
    }
}

/// An update from the relay never adds a room to the mirrored list and
/// never moves one: the list keeps its length, and each place its room id.
/// The first room of the updated id becomes the update; a lookup under
/// another id finds what it found before.
pub proof fn lemma_update_never_appends(rooms: Seq<RoomView>, room: RoomView)
    ensures
        with_room_replaced(rooms, room).len() == rooms.len(),
        forall|i: int|
            0 <= i < rooms.len() ==> (#[trigger] with_room_replaced(rooms, room)[i]).id
                == rooms[i].id,
        find_room(rooms, room.id) is Some ==> find_room(
            with_room_replaced(rooms, room),
            room.id,
        ) == Some(room),
        find_room(rooms, room.id) is None ==> with_room_replaced(rooms, room) == rooms,
        forall|other: Seq<char>|
            other != room.id ==> #[trigger] find_room(with_room_replaced(rooms, room), other)
                == find_room(rooms, other),
{
    let out = with_room_replaced(rooms, room);
    lemma_first_index(rooms, room_has_id(room.id));
    let k = first_index(rooms, room_has_id(room.id)) as int;
    if k < rooms.len() {
        assert forall|j: int| 0 <= j < k implies !room_has_id(room.id)(#[trigger] out[j]) by {
            assert(!room_has_id(room.id)(rooms[j]));
        }
        lemma_first_index_is(out, room_has_id(room.id), k);
    }
    assert forall|other: Seq<char>| other != room.id implies #[trigger] find_room(out, other)
        == find_room(rooms, other) by {
        lemma_first_index(rooms, room_has_id(other));
        let n = first_index(rooms, room_has_id(other)) as int;
        assert forall|j: int| 0 <= j < n implies !room_has_id(other)(#[trigger] out[j]) by {
            assert(!room_has_id(other)(rooms[j]));
        }
        lemma_first_index_is(out, room_has_id(other), n);
    }
}

/// The client after the events have reached it one by one.
pub open spec fn after_events(c: RelayClientView, events: Seq<RelayEventView>) -> RelayClientView
    decreases events.len(),
{
    if events.len() == 0 {
        c
    } else {
        after_event(after_events(c, events.drop_last()), events.last())
    }
}

/// The events by which the relay reports that it has created `created` and
/// then updated it to each of `updates` in turn.
pub open spec fn created_then_updated(created: RoomView, updates: Seq<RoomView>) -> Seq<
    RelayEventView,
> {
    seq![RelayEventView::Message(IncomingMessageView::RoomCreated { room: created })]
        + updates.map_values(
        |room: RoomView| RelayEventView::Message(IncomingMessageView::RoomUpdate { room: room }),
    )
}

/// A room that the relay creates and then updates any number of times is
/// mirrored once: the list is the former list with one room more, and that
/// room is the last update, or the room as created if there was none.
pub proof fn lemma_created_room_is_mirrored_once(
    c: RelayClientView,
    created: RoomView,
    updates: Seq<RoomView>,
)
    requires
        c.phase != RelayPhase::Disconnected,
        find_room(c.rooms, created.id) is None,
        forall|i: int| 0 <= i < updates.len() ==> (#[trigger] updates[i]).id == created.id,
    ensures
        after_events(c, created_then_updated(created, updates)) == (RelayClientView {
            rooms: c.rooms.push(
                if updates.len() == 0 {
                    created
                } else {
                    updates.last()
                },
            ),
            ..c
        }),
    decreases updates.len(),
{
    let events = created_then_updated(created, updates);
    if updates.len() == 0 {
        assert(events.drop_last() =~= Seq::<RelayEventView>::empty());
        assert(after_events(c, events.drop_last()) == c);
    } else {
        let earlier = updates.drop_last();
        lemma_created_room_is_mirrored_once(c, created, earlier);
        assert(events.drop_last() =~= created_then_updated(created, earlier));
        let mid = after_events(c, events.drop_last());
        let last = updates.last();
        assert(events.last() == RelayEventView::Message(
            IncomingMessageView::RoomUpdate { room: last },
        ));
        lemma_first_index(c.rooms, room_has_id(created.id));
        assert forall|j: int| 0 <= j < c.rooms.len() implies !room_has_id(last.id)(
            #[trigger] mid.rooms[j],
        ) by {
            assert(!room_has_id(created.id)(c.rooms[j]));
        }
        lemma_first_index_is(mid.rooms, room_has_id(last.id), c.rooms.len() as int);
        assert(with_room_replaced(mid.rooms, last) =~= c.rooms.push(last));
    }
}

} // verus!
