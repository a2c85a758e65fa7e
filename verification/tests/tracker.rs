use scrum_poker::credentials::{
    decrypt_credentials, derive_key, encrypt_credentials, fresh_nonce, fresh_salt, key_from, open,
    plain_from, store, EncryptedCredentials, JiraCredentials, CREDENTIALS_FILE, SALT_FILE,
};
use scrum_poker::jira::{
    api_error, backlog_url, basic_auth, basic_auth_from, board_issues_url, boards_url,
    description_text, extract_all, issue_info, issue_url, projects_url, ticket_from_issue,
    JiraBoard, JiraContentNode, JiraDescription, JiraDescriptionValue, JiraIssue, JiraIssueInfo,
    JiraProject,
};
use scrum_poker::network::{
    local_ip_or_loopback, network_info, public_ip_from, rule_names_port, NetworkInfo, FIRST_PORT,
    LOOPBACK,
};
use scrum_poker::text::text_contains;
use scrum_poker::room::JiraTicket;
use scrum_poker::state::{write_http_url, AppState};

fn text(t: &str) -> JiraContentNode {
    JiraContentNode { node_type: Some("text".to_string()), text: Some(t.to_string()), content: None }
}

fn node(kind: &str, children: Vec<JiraContentNode>) -> JiraContentNode {
    JiraContentNode { node_type: Some(kind.to_string()), text: None, content: Some(children) }
}

fn issue(description: Option<JiraDescriptionValue>) -> JiraIssue {
    JiraIssue {
        key: "PK-7".to_string(),
        summary: "Login page".to_string(),
        description,
        issue_type: Some("Story".to_string()),
        status: None,
    }
}

#[test]
fn text_of_a_single_node() {
    assert_eq!(text("hello").extract_text(), "hello");
    assert_eq!(
        JiraContentNode { node_type: None, text: None, content: None }.extract_text(),
        ""
    );
}

#[test]
fn paragraphs_and_headings_end_a_line() {
    assert_eq!(node("paragraph", vec![text("a"), text("b")]).extract_text(), "ab\n");
    assert_eq!(node("heading", vec![text("Title")]).extract_text(), "Title\n");
    assert_eq!(node("bulletList", vec![text("x")]).extract_text(), "x");
    assert_eq!(node("paragraph", vec![]).extract_text(), "\n");
    assert_eq!(
        JiraContentNode { node_type: Some("paragraph".to_string()), text: Some("t".to_string()), content: None }
            .extract_text(),
        "t\n"
    );
}

#[test]
fn text_comes_before_what_is_below_and_nesting_is_followed() {
    let tree = JiraContentNode {
        node_type: Some("doc".to_string()),
        text: Some(">".to_string()),
        content: Some(vec![
            node("heading", vec![text("Goal")]),
            node(
                "bulletList",
                vec![
                    node("listItem", vec![node("paragraph", vec![text("one")])]),
                    node("listItem", vec![node("paragraph", vec![text("two"), text("!")])]),
                ],
            ),
            text("end"),
        ]),
    };
    assert_eq!(tree.extract_text(), ">Goal\none\ntwo!\nend");
}

#[test]
fn text_of_a_list_of_nodes() {
    assert_eq!(extract_all(&vec![]), "");
    assert_eq!(extract_all(&vec![text("a"), node("paragraph", vec![text("b")]), text("c")]), "ab\nc");
}

#[test]
fn description_of_plain_text_is_kept_as_it_is() {
    assert_eq!(
        description_text(Some(JiraDescriptionValue::PlainString("  spaced  ".to_string()))),
        Some("  spaced  ".to_string())
    );
    assert_eq!(
        description_text(Some(JiraDescriptionValue::PlainString(String::new()))),
        Some(String::new())
    );
    assert_eq!(description_text(None), None);
}

#[test]
fn description_of_a_document_is_trimmed() {
    let document = JiraDescription {
        content: Some(vec![
            node("paragraph", vec![text("  As a user")]),
            node("paragraph", vec![text("I want to log in \u{a0}")]),
        ]),
    };
    assert_eq!(
        description_text(Some(JiraDescriptionValue::Adf(document))),
        Some("As a user\nI want to log in".to_string())
    );
}

#[test]
fn description_of_an_empty_document_is_absent() {
    assert_eq!(description_text(Some(JiraDescriptionValue::Adf(JiraDescription { content: None }))), None);
    assert_eq!(
        description_text(Some(JiraDescriptionValue::Adf(JiraDescription { content: Some(vec![]) }))),
        None
    );
    let blank = JiraDescription { content: Some(vec![node("paragraph", vec![text("  \t")])]) };
    assert_eq!(description_text(Some(JiraDescriptionValue::Adf(blank))), None);
}

#[test]
fn ticket_of_an_issue() {
    let document = JiraDescription { content: Some(vec![node("paragraph", vec![text("Body")])]) };
    let ticket = ticket_from_issue("https://x.example.net", issue(Some(JiraDescriptionValue::Adf(document))));
    assert_eq!(
        ticket,
        JiraTicket {
            key: "PK-7".to_string(),
            summary: "Login page".to_string(),
            description: Some("Body".to_string()),
            issue_type: Some("Story".to_string()),
            status: None,
            url: "https://x.example.net/browse/PK-7".to_string(),
        }
    );
}

#[test]
fn info_of_an_issue() {
    assert_eq!(
        issue_info(issue(None)),
        JiraIssueInfo {
            key: "PK-7".to_string(),
            summary: "Login page".to_string(),
            issue_type: Some("Story".to_string()),
            status: None,
        }
    );
}

#[test]
fn projects_and_boards_are_plain_records() {
    let p = JiraProject { id: "10000".to_string(), key: "PK".to_string(), name: "Poker".to_string() };
    let b = JiraBoard { id: 12, name: "Board".to_string(), board_type: "scrum".to_string() };
    assert_eq!(p.key, "PK");
    assert_eq!(b.id, 12);
}

#[test]
fn addresses_of_the_tracker() {
    let base = "https://x.example.net";
    assert_eq!(issue_url(base, "PK-7"), "https://x.example.net/rest/api/3/issue/PK-7");
    assert_eq!(projects_url(base), "https://x.example.net/rest/api/3/project");
    assert_eq!(boards_url(base, "PK"), "https://x.example.net/rest/agile/1.0/board?projectKeyOrId=PK");
    assert_eq!(backlog_url(base, 12), "https://x.example.net/rest/agile/1.0/board/12/backlog?maxResults=50");
    assert_eq!(board_issues_url(base, 12), "https://x.example.net/rest/agile/1.0/board/12/issue?maxResults=50");
    assert_eq!(backlog_url("", 0), "/rest/agile/1.0/board/0/backlog?maxResults=50");
    assert_eq!(backlog_url("b", -5), "b/rest/agile/1.0/board/-5/backlog?maxResults=50");
    assert_eq!(
        board_issues_url("b", i64::MIN),
        "b/rest/agile/1.0/board/-9223372036854775808/issue?maxResults=50"
    );
    assert_eq!(
        board_issues_url("b", i64::MAX),
        "b/rest/agile/1.0/board/9223372036854775807/issue?maxResults=50"
    );
}

#[test]
fn failure_of_the_tracker() {
    assert_eq!(api_error("404 Not Found", "{}"), "Jira API error (404 Not Found): {}");
    assert_eq!(api_error("", ""), "Jira API error (): ");
}

#[test]
fn basic_auth_encodes_email_and_token() {
    assert_eq!(
        basic_auth("ada@example.net", "SECRET-REDACTED"),
        Some("Basic YWRhQGV4YW1wbGUubmV0OlNFQ1JFVC1SRURBQ1RFRA==".to_string())
    );
    assert_eq!(basic_auth("", ""), Some("Basic Og==".to_string()));
    assert_eq!(basic_auth("a", "b"), Some("Basic YTpi".to_string()));
    assert_eq!(basic_auth_from("YTpi"), "Basic YTpi");
}

#[test]
fn addresses_of_the_host() {
    let info = network_info("192.168.1.5".to_string(), Some("203.0.113.9".to_string()), 3030, true);
    assert_eq!(
        info,
        NetworkInfo {
            local_ip: "192.168.1.5".to_string(),
            public_ip: Some("203.0.113.9".to_string()),
            port: 3030,
            local_url: "http://192.168.1.5:3030".to_string(),
            public_url: Some("http://203.0.113.9:3030".to_string()),
            firewall_open: true,
        }
    );
    let local_only = network_info("127.0.0.1".to_string(), None, 80, false);
    assert_eq!(local_only.local_url, "http://127.0.0.1:80");
    assert_eq!(local_only.public_url, None);
    assert!(!local_only.firewall_open);
    assert_eq!(write_http_url("h", 0), "http://h:0");
    assert_eq!(write_http_url("h", 10), "http://h:10");
    assert_eq!(write_http_url("h", 65535), "http://h:65535");
}

#[test]
fn local_address_falls_back_to_loopback() {
    assert_eq!(LOOPBACK, "127.0.0.1");
    assert_eq!(local_ip_or_loopback(None), "127.0.0.1");
    assert_eq!(local_ip_or_loopback(Some("10.0.0.2".to_string())), "10.0.0.2");
}

#[test]
fn public_address_is_the_trimmed_answer() {
    assert_eq!(public_ip_from("203.0.113.9\n"), Some("203.0.113.9".to_string()));
    assert_eq!(public_ip_from("  203.0.113.9  "), Some("203.0.113.9".to_string()));
    assert_eq!(public_ip_from("\n \t"), None);
    assert_eq!(public_ip_from(""), None);
}

#[test]
fn listening_port_is_the_first_port_until_the_server_is_known() {
    let mut state = AppState::new();
    assert_eq!(FIRST_PORT, 3030);
    assert_eq!(state.listening_port(), 3030);
    state.set_server_info("10.0.0.2".to_string(), 0);
    assert_eq!(state.listening_port(), 3030);
    state.set_server_info(String::new(), 3041);
    assert_eq!(state.listening_port(), 3030);
    state.set_server_info("10.0.0.2".to_string(), 3041);
    assert_eq!(state.listening_port(), 3041);
}

#[test]
fn credential_files_have_their_names() {
    assert_eq!(CREDENTIALS_FILE, "jira_credentials.enc");
    assert_eq!(SALT_FILE, "jira_salt.key");
}

#[test]
fn fresh_salt_and_nonce_differ_from_call_to_call() {
    let a = fresh_salt();
    let b = fresh_salt();
    assert_eq!(a.len(), 32);
    assert_eq!(b.len(), 32);
    assert_ne!(a, b);
    assert_ne!(fresh_nonce(), fresh_nonce());
}

#[test]
fn the_key_depends_on_password_and_salt() {
    let salt = vec![7u8; 32];
    let key = derive_key("correct horse", &salt).unwrap();
    assert_eq!(key, derive_key("correct horse", &salt).unwrap());
    assert_ne!(key, derive_key("wrong horse", &salt).unwrap());
    assert_ne!(key, derive_key("correct horse", &vec![8u8; 32]).unwrap());
    assert_ne!(key, [0u8; 32]);
}

#[test]
fn key_derivation_fails_on_a_short_salt() {
    assert_eq!(
        derive_key("correct horse", &[1, 2, 3]),
        Err("Key derivation failed: salt is too short".to_string())
    );
    assert_eq!(key_from(Err("x".to_string())), Err("Key derivation failed: x".to_string()));
    assert_eq!(key_from(Ok([3u8; 32])), Ok([3u8; 32]));
}

#[test]
fn sealed_credentials_open_again() {
    let key = derive_key("correct horse", &vec![7u8; 32]).unwrap();
    let nonce = [9u8; 12];
    let plain = "{\"base_url\":\"https://x\",\"email\":\"e\",\"api_token\":\"SECRET-REDACTED\"}";
    let sealed = encrypt_credentials(&key, &nonce, plain).unwrap();
    assert_eq!(sealed.nonce, "CQkJCQkJCQkJCQkJ");
    assert_ne!(sealed.ciphertext, plain);
    assert!(!sealed.ciphertext.contains("SECRET"));
    assert_eq!(decrypt_credentials(&key, &sealed), Ok(plain.as_bytes().to_vec()));
    let again = encrypt_credentials(&key, &nonce, plain).unwrap();
    assert_eq!(again, sealed);
    let other = encrypt_credentials(&key, &[1u8; 12], plain).unwrap();
    assert_ne!(other.ciphertext, sealed.ciphertext);
    assert_eq!(decrypt_credentials(&key, &other), Ok(plain.as_bytes().to_vec()));
}

#[test]
fn an_empty_text_can_be_sealed() {
    let key = [5u8; 32];
    let sealed = encrypt_credentials(&key, &[0u8; 12], "").unwrap();
    assert_eq!(decrypt_credentials(&key, &sealed), Ok(vec![]));
}

#[test]
fn a_wrong_password_does_not_open() {
    let salt = vec![7u8; 32];
    let key = derive_key("correct horse", &salt).unwrap();
    let wrong = derive_key("wrong horse", &salt).unwrap();
    let sealed = encrypt_credentials(&key, &[9u8; 12], "secret text").unwrap();
    assert_eq!(
        decrypt_credentials(&wrong, &sealed),
        Err("Invalid password or corrupted credentials".to_string())
    );
}

#[test]
fn corrupted_credentials_do_not_open() {
    let key = [5u8; 32];
    let sealed = encrypt_credentials(&key, &[9u8; 12], "secret text").unwrap();
    let short_nonce = EncryptedCredentials { nonce: "CQkJ".to_string(), ciphertext: sealed.ciphertext.clone() };
    assert_eq!(
        decrypt_credentials(&key, &short_nonce),
        Err("Invalid password or corrupted credentials".to_string())
    );
    let other_nonce = EncryptedCredentials { nonce: "AQEBAQEBAQEBAQEB".to_string(), ciphertext: sealed.ciphertext.clone() };
    assert_eq!(
        decrypt_credentials(&key, &other_nonce),
        Err("Invalid password or corrupted credentials".to_string())
    );
    let cut = EncryptedCredentials { nonce: sealed.nonce.clone(), ciphertext: "AAAA".to_string() };
    assert_eq!(
        decrypt_credentials(&key, &cut),
        Err("Invalid password or corrupted credentials".to_string())
    );
}

#[test]
fn what_is_no_base64_is_reported() {
    let key = [5u8; 32];
    let bad_nonce = EncryptedCredentials { nonce: "***".to_string(), ciphertext: "AAAA".to_string() };
    let failure = decrypt_credentials(&key, &bad_nonce).unwrap_err();
    assert!(failure.starts_with("Failed to decode nonce: "), "{}", failure);
    let bad_text = EncryptedCredentials { nonce: "CQkJCQkJCQkJCQkJ".to_string(), ciphertext: "@".to_string() };
    let failure = decrypt_credentials(&key, &bad_text).unwrap_err();
    assert!(failure.starts_with("Failed to decode ciphertext: "), "{}", failure);
}

#[test]
fn opening_from_already_decoded_parts() {
    let key = [5u8; 32];
    assert_eq!(
        open(&key, Err("n".to_string()), Err("c".to_string())),
        Err("Failed to decode nonce: n".to_string())
    );
    assert_eq!(
        open(&key, Ok(vec![0u8; 12]), Err("c".to_string())),
        Err("Failed to decode ciphertext: c".to_string())
    );
    assert_eq!(
        open(&key, Ok(vec![0u8; 11]), Ok(vec![0u8; 40])),
        Err("Invalid password or corrupted credentials".to_string())
    );
    assert_eq!(
        open(&key, Ok(vec![0u8; 12]), Ok(vec![0u8; 40])),
        Err("Invalid password or corrupted credentials".to_string())
    );
}

#[test]
fn what_the_cipher_has_read() {
    assert_eq!(plain_from(Some(vec![1, 2, 3])), Ok(vec![1, 2, 3]));
    assert_eq!(plain_from(Some(vec![])), Ok(vec![]));
    assert_eq!(plain_from(None), Err("Invalid password or corrupted credentials".to_string()));
}

#[test]
fn storing_a_sealed_text() {
    assert_eq!(
        store(&[9u8; 12], Ok(vec![0, 1, 2])),
        Ok(EncryptedCredentials { nonce: "CQkJCQkJCQkJCQkJ".to_string(), ciphertext: "AAEC".to_string() })
    );
    assert_eq!(
        store(&[9u8; 12], Err("aead::Error".to_string())),
        Err("Encryption failed: aead::Error".to_string())
    );
}

#[test]
fn credentials_are_a_plain_record() {
    let c = JiraCredentials {
        base_url: "https://x".to_string(),
        email: "e".to_string(),
        api_token: "SECRET-REDACTED".to_string(),
    };
    assert_eq!(c.clone(), c);
}

#[test]
fn a_text_contains_its_parts() {
    assert!(text_contains("", ""));
    assert!(text_contains("abc", ""));
    assert!(text_contains("abc", "abc"));
    assert!(text_contains("abc", "a"));
    assert!(text_contains("abc", "bc"));
    assert!(text_contains("aab", "ab"));
    assert!(text_contains("caf\u{e9} \u{2615} 3030", "\u{2615} 30"));
    assert!(!text_contains("abc", "abcd"));
    assert!(!text_contains("abc", "ac"));
    assert!(!text_contains("", "a"));
    assert!(!text_contains("ababab", "abb"));
}

#[test]
fn the_firewall_rule_names_the_port() {
    let shown = "Rule Name: ScrumPoker\r\nLocalPort: 3030\r\nAction: Allow\r\n";
    assert!(rule_names_port(shown, 3030));
    assert!(rule_names_port(shown, 303));
    assert!(rule_names_port(shown, 30));
    assert!(!rule_names_port(shown, 3031));
    assert!(!rule_names_port(shown, 13030));
    assert!(!rule_names_port("", 3030));
    assert!(rule_names_port("0", 0));
}
