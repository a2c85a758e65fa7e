use scrum_poker::commands::{
    clear_current_ticket, hide_votes, kick_participant, reset_votes, reveal_votes, show_ticket,
};
use scrum_poker::room::{JiraTicket, Participant, Room, WsMessage};
use scrum_poker::state::{AppState, Delivery, JiraConfig};

fn member(id: &str, name: &str) -> Participant {
    Participant::with_id(id.to_string(), name.to_string(), false)
}

fn ticket(key: &str) -> JiraTicket {
    JiraTicket {
        key: key.to_string(),
        summary: "Login page".to_string(),
        description: Some("As a user".to_string()),
        issue_type: Some("Story".to_string()),
        status: Some("To Do".to_string()),
        url: format!("https://tracker.example/browse/{}", key),
    }
}

fn store_with_room(id: &str, code: &str) -> AppState {
    let mut state = AppState::new();
    state.insert_room(Room::from_parts(id.to_string(), "Sprint 12".to_string(), 1, code.to_string()));
    state
}

fn kicked_for(deliveries: &[Delivery], participant_id: &str) -> usize {
    deliveries
        .iter()
        .filter(|d| d.participant_id == participant_id && d.message == WsMessage::Kicked)
        .count()
}

fn sorted(mut ids: Vec<String>) -> Vec<String> {
    ids.sort();
    ids
}

#[test]
fn a_new_store_holds_nothing() {
    let mut state = AppState::new();
    assert!(state.get_rooms().is_empty());
    assert_eq!(state.get_room("anything"), None);
    assert_eq!(state.get_room_by_invite("00 00 00 00"), None);
    assert!(state.take_outbox().is_empty());
    assert_eq!(state.get_server_url(), "");
    assert_eq!(state.get_share_url(), "");
    assert!(!state.has_jira_config());
    assert!(!state.is_firewall_open());
    assert_eq!(state.get_public_ip(), None);
    assert!(!state.is_relay_connected());
    assert!(state.get_relay_client().is_none());
}

#[test]
fn create_room_enters_the_room_in_both_indices() {
    let mut state = AppState::new();
    let room = state.create_room("Sprint 12".to_string());
    assert_eq!(room.name, "Sprint 12");
    assert!(room.participants.is_empty());
    assert!(!room.votes_revealed);
    assert_eq!(room.current_ticket, None);
    assert_eq!(state.get_room(&room.id), Some(room.clone()));
    assert_eq!(state.get_room_by_invite(&room.invite_code), Some(room.clone()));
    assert_eq!(state.get_rooms(), vec![room]);
}

#[test]
fn created_rooms_differ_in_id_and_code() {
    let mut state = AppState::new();
    let mut ids = Vec::new();
    let mut codes = Vec::new();
    for i in 0..20 {
        let room = state.create_room(format!("room {}", i));
        ids.push(room.id);
        codes.push(room.invite_code);
    }
    let mut unique_ids = ids.clone();
    unique_ids.sort();
    unique_ids.dedup();
    assert_eq!(unique_ids.len(), 20);
    let mut unique_codes = codes.clone();
    unique_codes.sort();
    unique_codes.dedup();
    assert_eq!(unique_codes.len(), 20);
    assert_eq!(state.get_rooms().len(), 20);
    for (id, code) in ids.iter().zip(codes.iter()) {
        assert_eq!(state.get_room_by_invite(code).map(|r| r.id), Some(id.clone()));
    }
}

#[test]
fn invite_lookup_takes_the_three_spellings() {
    let state = store_with_room("room-1", "51 58 87 72");
    let expected = state.get_room("room-1");
    assert!(expected.is_some());
    assert_eq!(expected.as_ref().map(|r| r.invite_code.as_str()), Some("51 58 87 72"));
    assert_eq!(state.get_room_by_invite("51-58-87-72"), expected);
    assert_eq!(state.get_room_by_invite("51%2058%2087%2072"), expected);
    assert_eq!(state.get_room_by_invite("51 58 87 72"), expected);
    assert_eq!(state.get_room_by_invite("51-58%2087 72"), expected);
    assert_eq!(state.get_room_by_invite("51588772"), None);
    assert_eq!(state.get_room_by_invite("51 58 87 73"), None);
}

#[test]
fn get_room_of_an_unknown_id_is_absent() {
    let state = store_with_room("room-1", "51 58 87 72");
    assert_eq!(state.get_room("room-2"), None);
    assert_eq!(state.get_room(""), None);
}

#[test]
fn get_rooms_lists_every_room_once() {
    let mut state = AppState::new();
    for i in 0..7 {
        state.insert_room(Room::from_parts(
            format!("room-{}", i),
            format!("name {}", i),
            i,
            format!("00 00 00 0{}", i),
        ));
    }
    let ids = sorted(state.get_rooms().into_iter().map(|r| r.id).collect());
    let expected: Vec<String> = (0..7).map(|i| format!("room-{}", i)).collect();
    assert_eq!(ids, expected);
}

#[test]
fn insert_room_replaces_what_stood_under_the_id() {
    let mut state = store_with_room("room-1", "51 58 87 72");
    state.insert_room(Room::from_parts("room-1".to_string(), "Second".to_string(), 2, "01 02 03 04".to_string()));
    assert_eq!(state.get_rooms().len(), 1);
    assert_eq!(state.get_room("room-1").map(|r| r.name), Some("Second".to_string()));
    assert_eq!(state.get_room_by_invite("01 02 03 04").map(|r| r.name), Some("Second".to_string()));
}

#[test]
fn add_participant_to_a_room() {
    let mut state = store_with_room("room-1", "51 58 87 72");
    assert_eq!(state.add_participant("room-1", member("a", "Ada")), Some("a".to_string()));
    assert_eq!(state.add_participant("room-1", member("b", "Bob")), Some("b".to_string()));
    let room = state.get_room("room-1").unwrap();
    let ids: Vec<&str> = room.participants.iter().map(|p| p.id.as_str()).collect();
    assert_eq!(ids, vec!["a", "b"]);
    assert!(state.take_outbox().is_empty());
}

#[test]
fn add_participant_to_an_unknown_room_creates_nothing() {
    let mut state = store_with_room("room-1", "51 58 87 72");
    assert_eq!(state.add_participant("room-2", member("a", "Ada")), None);
    assert_eq!(state.get_room("room-2"), None);
    assert_eq!(state.get_rooms().len(), 1);
    assert!(state.get_room("room-1").unwrap().participants.is_empty());
    let mut empty = AppState::new();
    assert_eq!(empty.add_participant("room-1", member("a", "Ada")), None);
    assert!(empty.get_rooms().is_empty());
}

#[test]
fn delete_room_removes_the_room_and_kicks_its_connections() {
    let mut state = store_with_room("room-1", "51 58 87 72");
    state.insert_room(Room::from_parts("room-2".to_string(), "Other".to_string(), 1, "01 02 03 04".to_string()));
    for id in ["a", "b", "c"] {
        state.add_participant("room-1", member(id, id));
        state.register_connection(id.to_string(), "room-1".to_string());
    }
    state.add_participant("room-2", member("z", "Zed"));
    state.register_connection("z".to_string(), "room-2".to_string());

    assert!(state.delete_room("room-1"));
    assert_eq!(state.get_room("room-1"), None);
    assert_eq!(state.get_room_by_invite("51 58 87 72"), None);
    assert_eq!(state.get_room_by_invite("51-58-87-72"), None);
    assert!(state.get_room("room-2").is_some());
    assert!(state.get_room_by_invite("01 02 03 04").is_some());
    assert!(state.bound_participants("room-1").is_empty());
    assert_eq!(state.bound_participants("room-2"), vec!["z".to_string()]);

    let deliveries = state.take_outbox();
    assert_eq!(deliveries.len(), 3);
    for id in ["a", "b", "c"] {
        assert_eq!(kicked_for(&deliveries, id), 1);
    }
    assert_eq!(kicked_for(&deliveries, "z"), 0);

    assert!(!state.delete_room("room-1"));
    assert!(state.take_outbox().is_empty());
    assert_eq!(state.get_rooms().len(), 1);
    assert_eq!(state.bound_participants("room-2"), vec!["z".to_string()]);
}

#[test]
fn delete_room_of_an_unknown_id_changes_nothing() {
    let mut state = store_with_room("room-1", "51 58 87 72");
    state.register_connection("a".to_string(), "room-9".to_string());
    assert!(!state.delete_room("room-9"));
    assert_eq!(state.get_rooms().len(), 1);
    assert_eq!(state.bound_participants("room-9"), vec!["a".to_string()]);
    assert!(state.take_outbox().is_empty());
}

#[test]
fn remove_participant_severs_the_connection() {
    let mut state = store_with_room("room-1", "51 58 87 72");
    state.add_participant("room-1", member("a", "Ada"));
    state.add_participant("room-1", member("b", "Bob"));
    state.register_connection("a".to_string(), "room-1".to_string());
    state.register_connection("b".to_string(), "room-1".to_string());
    state.remove_participant("room-1", "a");
    let room = state.get_room("room-1").unwrap();
    assert_eq!(room.participants.len(), 1);
    assert_eq!(room.participants[0].id, "b");
    assert_eq!(state.bound_participants("room-1"), vec!["b".to_string()]);
    assert_eq!(
        state.take_outbox(),
        vec![Delivery { participant_id: "a".to_string(), message: WsMessage::Kicked }]
    );
}

#[test]
fn remove_participant_severs_even_without_the_room() {
    let mut state = AppState::new();
    state.register_connection("a".to_string(), "room-1".to_string());
    state.remove_participant("room-1", "a");
    assert!(state.bound_participants("room-1").is_empty());
    assert_eq!(
        state.take_outbox(),
        vec![Delivery { participant_id: "a".to_string(), message: WsMessage::Kicked }]
    );
    state.remove_participant("room-1", "a");
    assert!(state.take_outbox().is_empty());
}

#[test]
fn remove_participant_without_a_connection_sends_nothing() {
    let mut state = store_with_room("room-1", "51 58 87 72");
    state.add_participant("room-1", member("a", "Ada"));
    state.remove_participant("room-1", "a");
    assert!(state.get_room("room-1").unwrap().participants.is_empty());
    assert!(state.take_outbox().is_empty());
}

#[test]
fn set_vote_records_the_vote() {
    let mut state = store_with_room("room-1", "51 58 87 72");
    state.add_participant("room-1", member("a", "Ada"));
    state.set_vote("room-1", "a", Some("5".to_string()));
    assert_eq!(state.get_room("room-1").unwrap().participants[0].vote, Some("5".to_string()));
    state.set_vote("room-1", "a", None);
    assert_eq!(state.get_room("room-1").unwrap().participants[0].vote, None);
}

#[test]
fn changes_of_an_unknown_room_are_no_ops() {
    let mut state = store_with_room("room-1", "51 58 87 72");
    state.add_participant("room-1", member("a", "Ada"));
    let before = state.get_room("room-1");
    state.set_vote("room-2", "a", Some("5".to_string()));
    state.set_votes_revealed("room-2", true);
    state.reset_votes("room-2");
    state.set_current_ticket("room-2", Some(ticket("PK-1")));
    state.update_room_from_relay(Room::from_parts("room-2".to_string(), "x".to_string(), 9, "c".to_string()));
    state.broadcast_room_update("room-2");
    assert_eq!(state.get_room("room-1"), before);
    assert_eq!(state.get_room("room-2"), None);
    assert_eq!(state.get_rooms().len(), 1);
    assert!(state.take_outbox().is_empty());
}

#[test]
fn reveal_and_hide_votes() {
    let mut state = store_with_room("room-1", "51 58 87 72");
    state.set_votes_revealed("room-1", true);
    assert!(state.get_room("room-1").unwrap().votes_revealed);
    state.set_votes_revealed("room-1", false);
    assert!(!state.get_room("room-1").unwrap().votes_revealed);
}

#[test]
fn reset_votes_clears_the_room() {
    let mut state = store_with_room("room-1", "51 58 87 72");
    for id in ["a", "b", "c"] {
        state.add_participant("room-1", member(id, id));
        state.set_vote("room-1", id, Some("8".to_string()));
    }
    state.set_votes_revealed("room-1", true);
    state.reset_votes("room-1");
    let room = state.get_room("room-1").unwrap();
    assert_eq!(room.participants.len(), 3);
    assert!(room.participants.iter().all(|p| p.vote.is_none()));
    assert!(!room.votes_revealed);
}

#[test]
fn every_vote_of_many_voters_is_recorded() {
    let mut state = store_with_room("room-1", "51 58 87 72");
    let voters: Vec<String> = (0..40).map(|i| format!("voter-{}", i)).collect();
    for id in &voters {
        state.add_participant("room-1", member(id, id));
    }
    // three rounds, each in another order of the voters
    for round in 0..3usize {
        for step in 0..voters.len() {
            let i = (step * 7 + round * 11) % voters.len();
            state.set_vote("room-1", &voters[i], Some(format!("{}-{}", round, i)));
        }
    }
    let room = state.get_room("room-1").unwrap();
    assert_eq!(room.participants.len(), 40);
    for (i, p) in room.participants.iter().enumerate() {
        assert_eq!(p.id, voters[i]);
        assert_eq!(p.vote, Some(format!("2-{}", i)));
    }
}

#[test]
fn set_current_ticket_attaches_and_detaches() {
    let mut state = store_with_room("room-1", "51 58 87 72");
    state.set_current_ticket("room-1", Some(ticket("PK-1")));
    assert_eq!(state.get_room("room-1").unwrap().current_ticket, Some(ticket("PK-1")));
    state.set_current_ticket("room-1", None);
    assert_eq!(state.get_room("room-1").unwrap().current_ticket, None);
}

#[test]
fn update_from_relay_takes_participants_and_flag_and_keeps_the_ticket() {
    let mut state = store_with_room("room-1", "51 58 87 72");
    state.add_participant("room-1", member("local", "Local"));
    state.set_current_ticket("room-1", Some(ticket("PK-1")));
    let mut reported = Room::from_parts("room-1".to_string(), "Renamed".to_string(), 99, "09 09 09 09".to_string());
    reported.add_participant(member("r1", "Remote 1"));
    reported.add_participant(member("r2", "Remote 2"));
    reported.set_vote("r2", Some("3".to_string()));
    reported.votes_revealed = true;
    reported.current_ticket = Some(ticket("PK-2"));
    state.update_room_from_relay(reported.clone());
    let room = state.get_room("room-1").unwrap();
    assert_eq!(room.participants, reported.participants);
    assert!(room.votes_revealed);
    assert_eq!(room.current_ticket, Some(ticket("PK-1")));
    assert_eq!(room.name, "Sprint 12");
    assert_eq!(room.created_at, 1);
    assert_eq!(room.invite_code, "51 58 87 72");
    assert_eq!(state.get_room_by_invite("51 58 87 72"), Some(room));
    assert_eq!(state.get_room_by_invite("09 09 09 09"), None);
}

#[test]
fn register_and_unregister_connections() {
    let mut state = AppState::new();
    state.register_connection("a".to_string(), "room-1".to_string());
    state.register_connection("b".to_string(), "room-1".to_string());
    state.register_connection("c".to_string(), "room-2".to_string());
    assert_eq!(sorted(state.bound_participants("room-1")), vec!["a".to_string(), "b".to_string()]);
    state.register_connection("a".to_string(), "room-2".to_string());
    assert_eq!(state.bound_participants("room-1"), vec!["b".to_string()]);
    assert_eq!(sorted(state.bound_participants("room-2")), vec!["a".to_string(), "c".to_string()]);
    state.unregister_connection("b");
    state.unregister_connection("nobody");
    assert!(state.bound_participants("room-1").is_empty());
    assert!(state.take_outbox().is_empty());
}

#[test]
fn broadcast_sends_the_room_once_to_each_bound_connection() {
    let mut state = store_with_room("room-1", "51 58 87 72");
    state.add_participant("room-1", member("a", "Ada"));
    state.register_connection("a".to_string(), "room-1".to_string());
    state.register_connection("b".to_string(), "room-1".to_string());
    state.register_connection("z".to_string(), "room-2".to_string());
    state.broadcast_room_update("room-1");
    let room = state.get_room("room-1").unwrap();
    let deliveries = state.take_outbox();
    assert_eq!(deliveries.len(), 2);
    let to: Vec<String> = sorted(deliveries.iter().map(|d| d.participant_id.clone()).collect());
    assert_eq!(to, vec!["a".to_string(), "b".to_string()]);
    for d in &deliveries {
        assert_eq!(d.message, WsMessage::RoomUpdate { room: room.clone() });
    }
}

#[test]
fn the_outbox_keeps_the_order_of_what_was_queued() {
    let mut state = store_with_room("room-1", "51 58 87 72");
    state.register_connection("a".to_string(), "room-1".to_string());
    state.broadcast_room_update("room-1");
    state.set_votes_revealed("room-1", true);
    state.broadcast_room_update("room-1");
    state.remove_participant("room-1", "a");
    let deliveries = state.take_outbox();
    assert_eq!(deliveries.len(), 3);
    match &deliveries[0].message {
        WsMessage::RoomUpdate { room } => assert!(!room.votes_revealed),
        other => panic!("unexpected {:?}", other),
    }
    match &deliveries[1].message {
        WsMessage::RoomUpdate { room } => assert!(room.votes_revealed),
        other => panic!("unexpected {:?}", other),
    }
    assert_eq!(deliveries[2].message, WsMessage::Kicked);
    assert!(state.take_outbox().is_empty());
}

#[test]
fn server_url_needs_address_and_port() {
    let mut state = AppState::new();
    state.set_server_info("192.168.1.5".to_string(), 0);
    assert_eq!(state.get_server_url(), "");
    state.set_server_info(String::new(), 3030);
    assert_eq!(state.get_server_url(), "");
    state.set_server_info("192.168.1.5".to_string(), 3030);
    assert_eq!(state.get_server_url(), "http://192.168.1.5:3030");
    state.set_server_info("10.0.0.1".to_string(), 65535);
    assert_eq!(state.get_server_url(), "http://10.0.0.1:65535");
    state.set_server_info("h".to_string(), 7);
    assert_eq!(state.get_server_url(), "http://h:7");
}

#[test]
fn share_url_prefers_the_public_address_when_the_port_is_open() {
    let mut state = AppState::new();
    state.set_server_info("192.168.1.5".to_string(), 3031);
    assert_eq!(state.get_share_url(), "http://192.168.1.5:3031");
    state.set_public_ip(Some("203.0.113.9".to_string()));
    assert_eq!(state.get_public_ip(), Some("203.0.113.9".to_string()));
    assert_eq!(state.get_share_url(), "http://192.168.1.5:3031");
    state.set_firewall_open(true);
    assert!(state.is_firewall_open());
    assert_eq!(state.get_share_url(), "http://203.0.113.9:3031");
    state.set_public_ip(None);
    assert_eq!(state.get_share_url(), "http://192.168.1.5:3031");
}

#[test]
fn share_url_with_the_public_address_before_the_port_is_known() {
    let mut state = AppState::new();
    state.set_firewall_open(true);
    state.set_public_ip(Some("203.0.113.9".to_string()));
    assert_eq!(state.get_share_url(), "http://203.0.113.9:0");
}

#[test]
fn jira_config_drops_the_slashes_at_the_end_of_the_base_url() {
    let mut state = AppState::new();
    state.set_jira_config(
        "https://x.example.net///".to_string(),
        "ada@example.net".to_string(),
        "SECRET-REDACTED".to_string(),
    );
    assert_eq!(
        state.get_jira_config(),
        JiraConfig {
            base_url: "https://x.example.net".to_string(),
            email: "ada@example.net".to_string(),
            api_token: "SECRET-REDACTED".to_string(),
        }
    );
    assert!(state.has_jira_config());
    state.set_jira_config("a/b".to_string(), "e".to_string(), "t".to_string());
    assert_eq!(state.get_jira_config().base_url, "a/b");
    state.set_jira_config("///".to_string(), "e".to_string(), "t".to_string());
    assert_eq!(state.get_jira_config().base_url, "");
    assert!(!state.has_jira_config());
}

#[test]
fn jira_config_is_set_only_with_all_three_parts() {
    let mut state = AppState::new();
    state.set_jira_config("u".to_string(), String::new(), "t".to_string());
    assert!(!state.has_jira_config());
    state.set_jira_config("u".to_string(), "e".to_string(), String::new());
    assert!(!state.has_jira_config());
    state.set_jira_config(String::new(), "e".to_string(), "t".to_string());
    assert!(!state.has_jira_config());
    state.set_jira_config("u".to_string(), "e".to_string(), "t".to_string());
    assert!(state.has_jira_config());
    state.set_jira_config(String::new(), String::new(), String::new());
    assert_eq!(state.get_jira_config(), JiraConfig::default());
}

fn room_sent_to(deliveries: &[Delivery], participant_id: &str) -> Room {
    assert_eq!(deliveries.len(), 1);
    assert_eq!(deliveries[0].participant_id, participant_id);
    match &deliveries[0].message {
        WsMessage::RoomUpdate { room } => room.clone(),
        other => panic!("unexpected {:?}", other),
    }
}

#[test]
fn commands_change_the_room_and_send_it() {
    let mut state = store_with_room("room-1", "51 58 87 72");
    state.add_participant("room-1", member("a", "Ada"));
    state.add_participant("room-1", member("b", "Bob"));
    state.set_vote("room-1", "a", Some("5".to_string()));
    state.register_connection("a".to_string(), "room-1".to_string());

    reveal_votes(&mut state, "room-1");
    let sent = room_sent_to(&state.take_outbox(), "a");
    assert!(sent.votes_revealed);
    assert_eq!(Some(sent), state.get_room("room-1"));

    hide_votes(&mut state, "room-1");
    assert!(!room_sent_to(&state.take_outbox(), "a").votes_revealed);

    show_ticket(&mut state, "room-1", Some(ticket("PK-1")));
    assert_eq!(room_sent_to(&state.take_outbox(), "a").current_ticket, Some(ticket("PK-1")));

    clear_current_ticket(&mut state, "room-1");
    assert_eq!(room_sent_to(&state.take_outbox(), "a").current_ticket, None);

    reveal_votes(&mut state, "room-1");
    state.take_outbox();
    reset_votes(&mut state, "room-1");
    let sent = room_sent_to(&state.take_outbox(), "a");
    assert!(!sent.votes_revealed);
    assert!(sent.participants.iter().all(|p| p.vote.is_none()));

    kick_participant(&mut state, "room-1", "b");
    let sent = room_sent_to(&state.take_outbox(), "a");
    assert_eq!(sent.participants.len(), 1);
    assert_eq!(sent.participants[0].id, "a");
}

#[test]
fn kicking_a_connected_participant_sends_the_notice_and_then_the_room_to_the_rest() {
    let mut state = store_with_room("room-1", "51 58 87 72");
    state.add_participant("room-1", member("a", "Ada"));
    state.add_participant("room-1", member("b", "Bob"));
    state.register_connection("a".to_string(), "room-1".to_string());
    state.register_connection("b".to_string(), "room-1".to_string());
    kick_participant(&mut state, "room-1", "b");
    let room = state.get_room("room-1").unwrap();
    assert_eq!(
        state.take_outbox(),
        vec![
            Delivery { participant_id: "b".to_string(), message: WsMessage::Kicked },
            Delivery { participant_id: "a".to_string(), message: WsMessage::RoomUpdate { room } },
        ]
    );
}

#[test]
fn commands_on_an_unknown_room_send_nothing() {
    let mut state = store_with_room("room-1", "51 58 87 72");
    state.register_connection("a".to_string(), "room-2".to_string());
    reveal_votes(&mut state, "room-2");
    hide_votes(&mut state, "room-2");
    reset_votes(&mut state, "room-2");
    show_ticket(&mut state, "room-2", Some(ticket("PK-1")));
    clear_current_ticket(&mut state, "room-2");
    assert!(state.take_outbox().is_empty());
    kick_participant(&mut state, "room-2", "a");
    assert_eq!(
        state.take_outbox(),
        vec![Delivery { participant_id: "a".to_string(), message: WsMessage::Kicked }]
    );
}
