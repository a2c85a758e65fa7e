use scrum_poker::ident::fresh_id;
use scrum_poker::room::{
    generate_invite_code, invite_code_from_hash, normalize_invite_code, story_points, JiraTicket,
    Participant, Room, VoteSummary, WsMessage,
};

fn member(id: &str, name: &str) -> Participant {
    Participant::with_id(id.to_string(), name.to_string(), false)
}

fn room_with_votes(votes: &[&str]) -> Room {
    let mut room = Room::from_parts(
        "room-1".to_string(),
        "Sprint 12".to_string(),
        1_700_000_000,
        "51 58 87 72".to_string(),
    );
    for (i, vote) in votes.iter().enumerate() {
        let id = format!("p-{}", i);
        room.add_participant(member(&id, "voter"));
        room.set_vote(&id, Some(vote.to_string()));
    }
    room
}

fn mean_of_numeric(votes: &[String]) -> Option<f64> {
    let numbers: Vec<f64> = votes.iter().filter_map(|v| v.parse::<f64>().ok()).collect();
    if numbers.is_empty() {
        None
    } else {
        Some(numbers.iter().sum::<f64>() / numbers.len() as f64)
    }
}

fn is_code_group(group: &str) -> bool {
    (group.len() == 2 || group.len() == 3)
        && group.chars().all(|c| c.is_ascii_digit())
        && group.parse::<u32>().map(|n| n < 256).unwrap_or(false)
        && (group.len() == 2 || !group.starts_with('0'))
}

#[test]
fn participant_clone_keeps_every_field() {
    let p = Participant {
        id: "p-1".to_string(),
        name: "Ada".to_string(),
        vote: Some("5".to_string()),
        is_host: true,
    };
    let q = p.clone();
    assert_eq!(p, q);
}

#[test]
fn new_participant_has_no_vote_and_a_fresh_id() {
    let a = Participant::new("Ada".to_string(), true);
    let b = Participant::new("Ada".to_string(), false);
    assert_eq!(a.name, "Ada");
    assert_eq!(a.vote, None);
    assert!(a.is_host);
    assert!(!b.is_host);
    assert!(!a.id.is_empty());
    assert_ne!(a.id, b.id);
}

#[test]
fn participant_with_id_is_exact() {
    let p = Participant::with_id("p-9".to_string(), "Grace".to_string(), false);
    assert_eq!(
        p,
        Participant { id: "p-9".to_string(), name: "Grace".to_string(), vote: None, is_host: false }
    );
}

#[test]
fn new_room_is_empty_and_hidden() {
    let room = Room::new("Sprint 12".to_string());
    assert_eq!(room.name, "Sprint 12");
    assert!(room.participants.is_empty());
    assert!(!room.votes_revealed);
    assert_eq!(room.current_ticket, None);
    assert!(!room.id.is_empty());
    assert!(room.created_at > 1_600_000_000);
    let groups: Vec<&str> = room.invite_code.split(' ').collect();
    assert_eq!(groups.len(), 4);
    assert!(groups.iter().all(|g| is_code_group(g)));
}

#[test]
fn two_new_rooms_differ_in_id() {
    let a = Room::new("A".to_string());
    let b = Room::new("A".to_string());
    assert_ne!(a.id, b.id);
}

#[test]
fn room_from_parts_is_exact() {
    let room = Room::from_parts("r".to_string(), "n".to_string(), 7, "00 01 02 03".to_string());
    assert_eq!(
        room,
        Room {
            id: "r".to_string(),
            name: "n".to_string(),
            participants: vec![],
            votes_revealed: false,
            created_at: 7,
            invite_code: "00 01 02 03".to_string(),
            current_ticket: None,
        }
    );
}

#[test]
fn invite_code_shows_the_four_low_bytes() {
    assert_eq!(invite_code_from_hash(0x333A_5748), "51 58 87 72");
    assert_eq!(invite_code_from_hash(0), "00 00 00 00");
    assert_eq!(invite_code_from_hash(0x0005_FF09), "00 05 255 09");
    assert_eq!(invite_code_from_hash(0x0A63_64C8), "10 99 100 200");
    assert_eq!(invite_code_from_hash(u64::MAX), "255 255 255 255");
}

#[test]
fn invite_code_ignores_the_high_bytes() {
    assert_eq!(invite_code_from_hash(0xFFFF_FFFF_0000_0000), "00 00 00 00");
    assert_eq!(invite_code_from_hash(0x1234_5678_333A_5748), "51 58 87 72");
}

#[test]
fn generated_invite_code_has_four_groups() {
    for _ in 0..50 {
        let code = generate_invite_code();
        let groups: Vec<&str> = code.split(' ').collect();
        assert_eq!(groups.len(), 4, "{}", code);
        assert!(groups.iter().all(|g| is_code_group(g)), "{}", code);
    }
}

#[test]
fn normal_form_of_the_three_spellings() {
    assert_eq!(normalize_invite_code("51-58-87-72"), "51 58 87 72");
    assert_eq!(normalize_invite_code("51%2058%2087%2072"), "51 58 87 72");
    assert_eq!(normalize_invite_code("51 58 87 72"), "51 58 87 72");
}

#[test]
fn normal_form_replaces_from_the_left_and_in_two_steps() {
    assert_eq!(normalize_invite_code(""), "");
    assert_eq!(normalize_invite_code("%20"), " ");
    assert_eq!(normalize_invite_code("%2"), "%2");
    assert_eq!(normalize_invite_code("%%20"), "% ");
    assert_eq!(normalize_invite_code("%2%200"), "%2 0");
    assert_eq!(normalize_invite_code("%-20"), "% 20");
    assert_eq!(normalize_invite_code("a-b%20c-%20"), "a b c  ");
    assert_eq!(normalize_invite_code("%20%20"), "  ");
    assert_eq!(normalize_invite_code("caf\u{e9}-\u{2615}"), "caf\u{e9} \u{2615}");
}

#[test]
fn add_participant_appends() {
    let mut room = room_with_votes(&[]);
    room.add_participant(member("a", "Ada"));
    room.add_participant(member("b", "Bob"));
    room.add_participant(member("a", "Ada again"));
    let names: Vec<&str> = room.participants.iter().map(|p| p.name.as_str()).collect();
    assert_eq!(names, vec!["Ada", "Bob", "Ada again"]);
}

#[test]
fn remove_participant_removes_every_match() {
    let mut room = room_with_votes(&[]);
    room.add_participant(member("a", "Ada"));
    room.add_participant(member("b", "Bob"));
    room.add_participant(member("a", "Ada again"));
    room.add_participant(member("c", "Cy"));
    room.remove_participant("a");
    let names: Vec<&str> = room.participants.iter().map(|p| p.name.as_str()).collect();
    assert_eq!(names, vec!["Bob", "Cy"]);
    room.remove_participant("nobody");
    assert_eq!(room.participants.len(), 2);
    room.remove_participant("c");
    room.remove_participant("b");
    assert!(room.participants.is_empty());
}

#[test]
fn set_vote_reaches_the_first_match_only() {
    let mut room = room_with_votes(&[]);
    room.add_participant(member("a", "Ada"));
    room.add_participant(member("b", "Bob"));
    room.add_participant(member("a", "Ada again"));
    room.set_vote("a", Some("8".to_string()));
    assert_eq!(room.participants[0].vote, Some("8".to_string()));
    assert_eq!(room.participants[1].vote, None);
    assert_eq!(room.participants[2].vote, None);
    room.set_vote("nobody", Some("3".to_string()));
    assert_eq!(room.participants[1].vote, None);
    room.set_vote("a", None);
    assert_eq!(room.participants[0].vote, None);
}

#[test]
fn set_vote_takes_any_token() {
    let mut room = room_with_votes(&[]);
    room.add_participant(member("a", "Ada"));
    room.set_vote("a", Some("not a story point".to_string()));
    assert_eq!(room.participants[0].vote, Some("not a story point".to_string()));
    room.set_vote("a", Some(String::new()));
    assert_eq!(room.participants[0].vote, Some(String::new()));
}

#[test]
fn reset_votes_clears_every_vote_and_hides() {
    let mut room = room_with_votes(&["1", "?", "13"]);
    room.votes_revealed = true;
    room.reset_votes();
    assert_eq!(room.participants.len(), 3);
    assert!(room.participants.iter().all(|p| p.vote.is_none()));
    assert!(!room.votes_revealed);
    assert_eq!(room.participants[1].id, "p-1");
    assert_eq!(room.name, "Sprint 12");
}

#[test]
fn reset_votes_on_an_empty_room() {
    let mut room = room_with_votes(&[]);
    room.votes_revealed = true;
    room.reset_votes();
    assert!(room.participants.is_empty());
    assert!(!room.votes_revealed);
}

#[test]
fn vote_summary_of_numeric_votes() {
    let room = room_with_votes(&["1", "2", "3"]);
    let summary = room.get_vote_summary();
    assert_eq!(summary, VoteSummary { total_voters: 3, voted_count: 3 });
    assert_eq!(mean_of_numeric(&room.cast_votes()), Some(2.0));
}

#[test]
fn vote_summary_of_votes_that_are_no_numbers() {
    let room = room_with_votes(&["?", "\u{2615}"]);
    let summary = room.get_vote_summary();
    assert_eq!(summary.total_voters, 2);
    assert_eq!(summary.voted_count, 2);
    assert_eq!(room.cast_votes(), vec!["?".to_string(), "\u{2615}".to_string()]);
    assert_eq!(mean_of_numeric(&room.cast_votes()), None);
}

#[test]
fn vote_summary_counts_only_who_voted() {
    let mut room = room_with_votes(&["5", "0.5"]);
    room.add_participant(member("silent", "Sam"));
    let summary = room.get_vote_summary();
    assert_eq!(summary.total_voters, 3);
    assert_eq!(summary.voted_count, 2);
    assert_eq!(room.cast_votes(), vec!["5".to_string(), "0.5".to_string()]);
    assert_eq!(mean_of_numeric(&room.cast_votes()), Some(2.75));
}

#[test]
fn vote_summary_of_an_empty_room() {
    let room = room_with_votes(&[]);
    assert_eq!(room.get_vote_summary(), VoteSummary { total_voters: 0, voted_count: 0 });
    assert!(room.cast_votes().is_empty());
}

#[test]
fn story_points_are_the_thirteen_tokens() {
    assert_eq!(
        story_points(),
        vec!["?", "\u{2615}", "0", "0.5", "1", "2", "3", "5", "8", "13", "20", "40", "100"]
    );
}

#[test]
fn room_clone_is_deep() {
    let mut room = room_with_votes(&["1", "2"]);
    room.current_ticket = Some(JiraTicket {
        key: "PK-7".to_string(),
        summary: "Login".to_string(),
        description: None,
        issue_type: Some("Story".to_string()),
        status: None,
        url: "https://tracker/browse/PK-7".to_string(),
    });
    let copy = room.clone();
    assert_eq!(copy, room);
    room.set_vote("p-0", Some("100".to_string()));
    assert_eq!(copy.participants[0].vote, Some("1".to_string()));
}

#[test]
fn message_clone_keeps_the_variant() {
    let messages = vec![
        WsMessage::Join { room_id: "r".to_string(), name: "n".to_string() },
        WsMessage::Vote { vote: Some("3".to_string()) },
        WsMessage::Vote { vote: None },
        WsMessage::RoomUpdate { room: room_with_votes(&["1"]) },
        WsMessage::Error { message: "Room not found".to_string() },
        WsMessage::Kicked,
        WsMessage::Ping,
        WsMessage::Pong,
    ];
    for m in &messages {
        assert_eq!(&m.clone(), m);
    }
}

fn is_written_as_an_identifier(text: &str) -> bool {
    text.len() == 36
        && text.char_indices().all(|(i, c)| {
            if i == 8 || i == 13 || i == 18 || i == 23 {
                c == '-'
            } else {
                c.is_ascii_digit() || ('a'..='f').contains(&c)
            }
        })
}

#[test]
fn a_fresh_id_is_hyphenated_lower_case_hex() {
    for _ in 0..20 {
        let id = fresh_id();
        assert!(is_written_as_an_identifier(&id), "{}", id);
    }
    assert_ne!(fresh_id(), fresh_id());
    assert!(is_written_as_an_identifier(&Participant::new("Ada".to_string(), false).id));
    assert!(is_written_as_an_identifier(&Room::new("Sprint 12".to_string()).id));
    assert!(!is_written_as_an_identifier("67E55044-10B1-426F-9247-BB680E5FE0C8"));
    assert!(!is_written_as_an_identifier("67e5504410b1426f9247bb680e5fe0c8"));
}
