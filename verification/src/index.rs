//! The three indices of the store. Each is a `dashmap::DashMap` keyed by
//! text; what it holds is named by a map from the key's characters to the
//! value's view.
//!
//! The store changes an index only through a `&mut` borrow, so that no other
//! reference into the map is alive during a call, and none of the calls can
//! block on a lock.

use crate::room::{room_of, Room, RoomView};
use crate::state::{Connection, ConnectionView};
use dashmap::DashMap;
use vstd::prelude::*;

verus! {

/// `dashmap::DashMap`, opaque here.
#[verifier::external_type_specification]
#[verifier::external_body]
#[verifier::reject_recursive_types(K)]
#[verifier::reject_recursive_types(V)]
#[verifier::reject_recursive_types(S)]
pub struct ExDashMap<K, V, S>(DashMap<K, V, S>);

/// The value under `key` in `m`, if it holds one.
pub open spec fn lookup<V>(m: Map<Seq<char>, V>, key: Seq<char>) -> Option<V> {
    if m.contains_key(key) {
        Some(m[key])
    } else {
        None
    }
}

/// Whether `pairs` lists `m`: every entry of `m` once, and nothing else, in
/// whatever order.
pub open spec fn lists<V>(pairs: Seq<(Seq<char>, V)>, m: Map<Seq<char>, V>) -> bool {
    &&& forall|i: int, j: int|
        0 <= i < j < pairs.len() ==> (#[trigger] pairs[i]).0 != (#[trigger] pairs[j]).0
    &&& forall|i: int|
        0 <= i < pairs.len() ==> m.contains_pair((#[trigger] pairs[i]).0, pairs[i].1)
    &&& forall|k: Seq<char>| #[trigger]
        m.contains_key(k) ==> exists|i: int| 0 <= i < pairs.len() && (#[trigger] pairs[i]).0 == k
}

/// The rooms that a room index holds, by the text of their keys.
pub uninterp spec fn room_entries(index: DashMap<String, Room>) -> Map<Seq<char>, RoomView>;

/// The room ids that an invite index holds, by the text of their codes.
pub uninterp spec fn invite_entries(index: DashMap<String, String>) -> Map<Seq<char>, Seq<char>>;

/// The connections that a connection index holds, by the text of their
/// keys.
pub uninterp spec fn connection_entries(index: DashMap<String, Connection>) -> Map<
    Seq<char>,
    ConnectionView,
>;

/// Listed rooms, as plain values.
pub open spec fn room_pairs_of(pairs: Seq<(String, Room)>) -> Seq<(Seq<char>, RoomView)> {
    pairs.map_values(|p: (String, Room)| (p.0@, p.1@))
}

/// Listed connections, as plain values.
pub open spec fn connection_pairs_of(pairs: Seq<(String, Connection)>) -> Seq<
    (Seq<char>, ConnectionView),
> {
    pairs.map_values(|p: (String, Connection)| (p.0@, p.1@))
}

/// The text of an optional string.
pub open spec fn id_of(o: Option<String>) -> Option<Seq<char>> {
    match o {
        Some(s) => Some(s@),
        None => None,
    }
}

/// The view of an optional connection.
pub open spec fn connection_of(o: Option<Connection>) -> Option<ConnectionView> {
    match o {
        Some(c) => Some(c@),
        None => None,
    }
}

/// `DashMap::new`: a map that holds nothing.
#[verifier::external_body]
pub(crate) fn rooms_new() -> (index: DashMap<String, Room>)
    ensures
        room_entries(index) == (Map::<Seq<char>, RoomView>::empty()),
{
    DashMap::new()
}

/// `DashMap::insert`: afterwards the map holds `room` under `key`, in place
/// of what it held there, and every other entry as before.
#[verifier::external_body]
pub(crate) fn rooms_insert(index: &mut DashMap<String, Room>, key: String, room: Room)
    ensures
        room_entries(*final(index)) == room_entries(*old(index)).insert(key@, room@),
{
    index.insert(key, room);
}

/// `DashMap::remove`: takes the entry under `key` out of the map and
/// returns its value; a map without such an entry stays as it is.
#[verifier::external_body]
pub(crate) fn rooms_remove(index: &mut DashMap<String, Room>, key: &str) -> (removed: Option<
    Room,
>)
    ensures
        room_entries(*final(index)) == room_entries(*old(index)).remove(key@),
        room_of(removed) == lookup(room_entries(*old(index)), key@),
{
    index.remove(key).map(|entry| entry.1)
}

/// `DashMap::get`: a copy of the value under `key`, if the map holds one.
#[verifier::external_body]
pub(crate) fn rooms_get(index: &DashMap<String, Room>, key: &str) -> (found: Option<Room>)
    ensures
        room_of(found) == lookup(room_entries(*index), key@),
{
    index.get(key).map(|entry| entry.value().clone())
}

/// `DashMap::iter`: a copy of every entry, each once, in the order in which
/// the map happens to be walked.
#[verifier::external_body]
pub(crate) fn rooms_list(index: &DashMap<String, Room>) -> (pairs: Vec<(String, Room)>)
    ensures
        lists(room_pairs_of(pairs@), room_entries(*index)),
{
    index.iter().map(|entry| (entry.key().clone(), entry.value().clone())).collect()
}

/// `DashMap::new`: a map that holds nothing.
#[verifier::external_body]
pub(crate) fn invites_new() -> (index: DashMap<String, String>)
    ensures
        invite_entries(index) == (Map::<Seq<char>, Seq<char>>::empty()),
{
    DashMap::new()
}

/// `DashMap::insert`: afterwards the map holds `room_id` under `code`, in
/// place of what it held there, and every other entry as before.
#[verifier::external_body]
pub(crate) fn invites_insert(index: &mut DashMap<String, String>, code: String, room_id: String)
    ensures
        invite_entries(*final(index)) == invite_entries(*old(index)).insert(code@, room_id@),
{
    index.insert(code, room_id);
}

/// `DashMap::remove`: takes the entry under `code` out of the map; a map
/// without such an entry stays as it is.
#[verifier::external_body]
pub(crate) fn invites_remove(index: &mut DashMap<String, String>, code: &str)
    ensures
        invite_entries(*final(index)) == invite_entries(*old(index)).remove(code@),
{
    index.remove(code);
}

/// `DashMap::get`: a copy of the room id under `code`, if the map holds
/// one.
#[verifier::external_body]
pub(crate) fn invites_get(index: &DashMap<String, String>, code: &str) -> (found: Option<String>)
    ensures
        id_of(found) == lookup(invite_entries(*index), code@),
{
    index.get(code).map(|entry| entry.value().clone())
}

/// `DashMap::new`: a map that holds nothing.
#[verifier::external_body]
pub(crate) fn connections_new() -> (index: DashMap<String, Connection>)
    ensures
        connection_entries(index) == (Map::<Seq<char>, ConnectionView>::empty()),
{
    DashMap::new()
}

/// `DashMap::insert`: afterwards the map holds `connection` under `key`, in
/// place of what it held there, and every other entry as before.
#[verifier::external_body]
pub(crate) fn connections_insert(
    index: &mut DashMap<String, Connection>,
    key: String,
    connection: Connection,
)
    ensures
        connection_entries(*final(index)) == connection_entries(*old(index)).insert(
            key@,
            connection@,
        ),
{
    index.insert(key, connection);
}

/// `DashMap::remove`: takes the entry under `key` out of the map and
/// returns its value; a map without such an entry stays as it is.
#[verifier::external_body]
pub(crate) fn connections_remove(index: &mut DashMap<String, Connection>, key: &str) -> (removed:
    Option<Connection>)
    ensures
        connection_entries(*final(index)) == connection_entries(*old(index)).remove(key@),
        connection_of(removed) == lookup(connection_entries(*old(index)), key@),
{
    index.remove(key).map(|entry| entry.1)
}

/// `DashMap::iter`: a copy of every entry, each once, in the order in which
/// the map happens to be walked.
#[verifier::external_body]
pub(crate) fn connections_list(index: &DashMap<String, Connection>) -> (pairs: Vec<
    (String, Connection),
>)
    ensures
        lists(connection_pairs_of(pairs@), connection_entries(*index)),
{
    index.iter().map(|entry| (entry.key().clone(), entry.value().clone())).collect()
}

} // verus!
