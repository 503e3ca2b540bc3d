use nymchat::cli::{get_env_file, get_verbosity};
use nymchat::client::ChatClient;
use nymchat::messages::{ChatMessage, HistoryItem, LogLevel};

fn args(list: &[&str]) -> Vec<String> {
    list.iter().map(|s| s.to_string()).collect()
}

#[test]
fn verbosity_flags() {
    assert_eq!(get_verbosity(&args(&[])), LogLevel::Off);
    assert_eq!(get_verbosity(&args(&["join", "addr", "-v"])), LogLevel::Info);
    assert_eq!(get_verbosity(&args(&["-vv"])), LogLevel::Debug);
    assert_eq!(get_verbosity(&args(&["create", "-vvv"])), LogLevel::Trace);
    // the first matching flag wins
    assert_eq!(get_verbosity(&args(&["-v", "-vvv"])), LogLevel::Info);
    assert_eq!(get_verbosity(&args(&["--verbose"])), LogLevel::Off);
}

#[test]
fn env_file_flag() {
    assert_eq!(get_env_file(&args(&[])), None);
    assert_eq!(get_env_file(&args(&["--env"])), None);
    assert_eq!(
        get_env_file(&args(&["create", "--env", "net.env", "-v"])),
        Some("net.env".to_string())
    );
    assert_eq!(
        get_env_file(&args(&["--env", "--env", "late.env"])),
        Some("--env".to_string())
    );
}

#[test]
fn new_client_starts_counting_at_zero() {
    let c = ChatClient::new("alice".to_string(), "nym://room".to_string(), LogLevel::Info);
    assert_eq!(c.username, "alice");
    assert_eq!(c.room_address, "nym://room");
    assert_eq!(c.verbosity, LogLevel::Info);
    assert_eq!(c.message_count, 0);
}

#[test]
fn client_shows_only_other_peoples_events() {
    let c = ChatClient::new("alice".to_string(), "a".to_string(), LogLevel::Off);
    assert!(!c.should_display(&ChatMessage::Join { username: "alice".to_string() }));
    assert!(c.should_display(&ChatMessage::Join { username: "bob".to_string() }));
    assert!(!c.should_display(&ChatMessage::Leave { username: "alice".to_string() }));
    assert!(c.should_display(&ChatMessage::Text {
        from: "bob".to_string(),
        content: "hi".to_string(),
        timestamp: 0,
    }));
    assert!(!c.should_display(&ChatMessage::Text {
        from: "alice".to_string(),
        content: "echo".to_string(),
        timestamp: 0,
    }));
    assert!(c.should_display(&ChatMessage::StateSync {
        history: Vec::new(),
        participants: Vec::new(),
    }));
}

#[test]
fn client_counts_displayed_messages() {
    let mut c = ChatClient::new("alice".to_string(), "a".to_string(), LogLevel::Off);
    c.record_message();
    c.record_message();
    assert_eq!(c.message_count, 2);
}

#[test]
fn visible_history_skips_own_lines() {
    let c = ChatClient::new("alice".to_string(), "a".to_string(), LogLevel::Off);
    let item = |from: &str, content: &str, t: u64| HistoryItem {
        from: from.to_string(),
        content: content.to_string(),
        timestamp: t,
    };
    let history = vec![
        item("alice", "mine", 1),
        item("bob", "his", 2),
        item("carol", "hers", 3),
        item("alice", "mine too", 4),
    ];
    let visible = c.visible_history(&history);
    assert_eq!(visible, vec![item("bob", "his", 2), item("carol", "hers", 3)]);
}
