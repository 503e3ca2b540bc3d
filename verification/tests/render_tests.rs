use nymchat::colors::Colors;
use nymchat::messages::{ChatMessage, HistoryItem, LogLevel};
use nymchat::messages::log_enabled;
use nymchat::render::{
    decimal_string, format_hms, format_nym_address, format_nym_debug_info, format_participants,
    format_timestamp_from_unix, get_username_color, separator, truncate_str,
};

#[test]
fn username_colors_follow_the_byte_sum() {
    // "alice": 97+108+105+99+101 = 510, 510 % 6 == 0 -> bright red
    assert_eq!(get_username_color("alice"), Colors::BRIGHT_RED);
    // "bob": 98+111+98 = 307, 307 % 6 == 1 -> bright green
    assert_eq!(get_username_color("bob"), Colors::BRIGHT_GREEN);
    // "": empty sum -> bright red
    assert_eq!(get_username_color(""), Colors::BRIGHT_RED);
    // the same name always gets the same color
    assert_eq!(get_username_color("carol"), get_username_color("carol"));
}

#[test]
fn separator_without_title() {
    assert_eq!(separator(None, 3), format!("{}───{}", Colors::DIM, Colors::RESET));
    assert_eq!(separator(None, 0), format!("{}{}", Colors::DIM, Colors::RESET));
}

#[test]
fn separator_centers_the_title() {
    assert_eq!(
        separator(Some("hi"), 8),
        format!("{}──{} hi {}──{}", Colors::DIM, Colors::RESET, Colors::DIM, Colors::RESET)
    );
    // an odd remainder puts the extra dash on the right
    assert_eq!(
        separator(Some("hi"), 9),
        format!("{}──{} hi {}───{}", Colors::DIM, Colors::RESET, Colors::DIM, Colors::RESET)
    );
    // a title wider than the line still gets its spaces
    assert_eq!(
        separator(Some("wide"), 2),
        format!("{}{} wide {}{}", Colors::DIM, Colors::RESET, Colors::DIM, Colors::RESET)
    );
}

#[test]
fn truncation_keeps_short_strings() {
    assert_eq!(truncate_str("hello", 10), "hello");
    assert_eq!(truncate_str("hello", 5), "hello");
}

#[test]
fn truncation_cuts_long_strings() {
    assert_eq!(truncate_str("hello world", 8), "hello...");
    assert_eq!(truncate_str("abcdef", 2), "...");
}

#[test]
fn short_addresses_stay_whole() {
    assert_eq!(format_nym_address("abc.def"), "abc.def");
    assert_eq!(format_nym_address("123456789012"), "123456789012");
}

#[test]
fn long_addresses_are_abbreviated() {
    assert_eq!(
        format_nym_address("abcdefghijklm"),
        format!("{}abcdef...hijklm", Colors::DIM)
    );
}

#[test]
fn debug_info_is_empty_without_fields() {
    assert_eq!(format_nym_debug_info(None, None), "");
}

#[test]
fn debug_info_formats_each_field() {
    assert_eq!(
        format_nym_debug_info(None, Some(5)),
        format!(" [surbs={}5{}]", Colors::YELLOW, Colors::RESET)
    );
    assert_eq!(
        format_nym_debug_info(Some("tag12345678"), None),
        format!(" [tag={}tag12...{}]", Colors::CYAN, Colors::RESET)
    );
    assert_eq!(
        format_nym_debug_info(Some("short"), Some(42)),
        format!(" [tag={}short{}, surbs={}42{}]", Colors::CYAN, Colors::RESET, Colors::YELLOW, Colors::RESET)
    );
}

#[test]
fn decimal_rendering_is_exact() {
    assert_eq!(decimal_string(0), "0");
    assert_eq!(decimal_string(7), "7");
    assert_eq!(decimal_string(1234567890), "1234567890");
    assert_eq!(decimal_string(u64::MAX), "18446744073709551615");
}

#[test]
fn clock_rendering_pads_to_two_digits() {
    assert_eq!(format_hms(1, 2, 3), "01:02:03");
    assert_eq!(format_hms(23, 59, 59), "23:59:59");
    assert_eq!(format_hms(0, 0, 0), "00:00:00");
}

#[test]
fn timestamp_rendering_has_clock_shape() {
    let s = format_timestamp_from_unix(1_700_000_000);
    let b = s.as_bytes();
    assert_eq!(b.len(), 8);
    assert_eq!(b[2], b':');
    assert_eq!(b[5], b':');
    for i in [0, 1, 3, 4, 6, 7] {
        assert!(b[i].is_ascii_digit());
    }
}

#[test]
fn consecutive_seconds_change_the_rendering() {
    // The clock reading really depends on the timestamp handed in.
    let a = format_timestamp_from_unix(1_700_000_000);
    let b = format_timestamp_from_unix(1_700_000_001);
    assert_ne!(a, b);
}

#[test]
fn empty_participant_list() {
    assert_eq!(
        format_participants(&[], "me"),
        format!("{}No other participants{}", Colors::DIM, Colors::RESET)
    );
}

#[test]
fn participant_list_colors_self_blue() {
    let names = vec!["alice".to_string(), "bob".to_string()];
    assert_eq!(
        format_participants(&names, "alice"),
        format!(
            "{}alice{}, {}bob{}",
            Colors::BRIGHT_BLUE,
            Colors::RESET,
            Colors::BRIGHT_GREEN,
            Colors::RESET
        )
    );
}

#[test]
fn text_message_rendering() {
    let msg = ChatMessage::Text {
        from: "bob".to_string(),
        content: "hello there".to_string(),
        timestamp: 1_700_000_000,
    };
    let line = msg.format(false);
    assert!(line.starts_with(Colors::DIM));
    assert!(line.ends_with(": hello there"));
    assert!(line.contains(&format!("{}bob{}", Colors::BRIGHT_GREEN, Colors::RESET)));
    // rendered as self, the name turns bright blue
    let own = msg.format(true);
    assert!(own.contains(&format!("{}bob{}", Colors::BRIGHT_BLUE, Colors::RESET)));
}

#[test]
fn join_and_leave_rendering() {
    let join = ChatMessage::Join { username: "carol".to_string() };
    let line = join.format(false);
    assert!(line.contains(&format!("{}carol{}", Colors::BRIGHT_GREEN, Colors::RESET)));
    assert!(line.contains("joined the room"));
    let leave = ChatMessage::Leave { username: "carol".to_string() };
    let line = leave.format(false);
    assert!(line.contains(&format!("{}carol{}", Colors::BRIGHT_YELLOW, Colors::RESET)));
    assert!(line.contains("left the room"));
}

#[test]
fn history_item_rendering() {
    let item = HistoryItem {
        from: "bob".to_string(),
        content: "old news".to_string(),
        timestamp: 1_700_000_000,
    };
    let line = item.format(false);
    assert!(line.contains("[HISTORY]"));
    assert!(line.ends_with(": old news"));
    assert!(line.contains(&format!("{}bob{}", Colors::BRIGHT_GREEN, Colors::RESET)));
}

#[test]
fn log_level_labels() {
    assert_eq!(LogLevel::Off.label(), "NONE");
    assert_eq!(LogLevel::Info.label(), "INFO");
    assert_eq!(LogLevel::Debug.label(), "DEBUG");
    assert_eq!(LogLevel::Trace.label(), "TRACE");
}

#[test]
fn log_enablement_orders_levels() {
    assert!(log_enabled(LogLevel::Info, LogLevel::Info));
    assert!(log_enabled(LogLevel::Info, LogLevel::Trace));
    assert!(!log_enabled(LogLevel::Trace, LogLevel::Info));
    assert!(!log_enabled(LogLevel::Debug, LogLevel::Off));
}
