//! The message kinds exchanged between clients and the room, their abstract
//! views, and their terminal renderings.

use vstd::prelude::*;

use crate::clock;
use crate::colors::Colors;
use crate::render;

verus! {

/// History item for storing chat history
#[derive(Debug, PartialEq)]
pub struct HistoryItem {
    pub from: String,
    pub content: String,
    pub timestamp: u64,
}

/// The abstract value of a history item.
pub ghost struct HistViewData {
    pub from: Seq<char>,
    pub content: Seq<char>,
    pub timestamp: u64,
}

impl View for HistoryItem {
    type V = HistViewData;

    open spec fn view(&self) -> HistViewData {
        HistViewData { from: self.from@, content: self.content@, timestamp: self.timestamp }
    }
}

impl DeepView for HistoryItem {
    type V = HistViewData;

    open spec fn deep_view(&self) -> HistViewData {
        self.view()
    }
}

impl Clone for HistoryItem {
    fn clone(&self) -> (r: Self)
        ensures
            r@ == self@,
    {
        HistoryItem {
            from: self.from.clone(),
            content: self.content.clone(),
            timestamp: self.timestamp,
        }
    }
}

/// Chat messages exchanged between clients and server
#[derive(Debug, PartialEq)]
pub enum ChatMessage {
    Join { username: String },
    Leave { username: String },
    Text { from: String, content: String, timestamp: u64 },
    StateSync { history: Vec<HistoryItem>, participants: Vec<String> },
}

/// The abstract value of a chat message.
pub ghost enum MsgView {
    Join { username: Seq<char> },
    Leave { username: Seq<char> },
    Text { from: Seq<char>, content: Seq<char>, timestamp: u64 },
    StateSync { history: Seq<HistViewData>, participants: Seq<Seq<char>> },
}

impl View for ChatMessage {
    type V = MsgView;

    open spec fn view(&self) -> MsgView {
        match self {
            ChatMessage::Join { username } => MsgView::Join { username: username@ },
            ChatMessage::Leave { username } => MsgView::Leave { username: username@ },
            ChatMessage::Text { from, content, timestamp } => MsgView::Text {
                from: from@,
                content: content@,
                timestamp: *timestamp,
            },
            ChatMessage::StateSync { history, participants } => MsgView::StateSync {
                history: history.deep_view(),
                participants: participants.deep_view(),
            },
        }
    }
}

/// Copies a history list, item by item.
pub fn clone_history(v: &Vec<HistoryItem>) -> (r: Vec<HistoryItem>)
    ensures
        r.deep_view() == v.deep_view(),
{
    let mut r: Vec<HistoryItem> = Vec::new();
    let mut i: usize = 0;
    while i < v.len()
        invariant
            i <= v@.len(),
            r@.len() == i,
            forall|j: int| 0 <= j < i ==> r@[j]@ == v@[j]@,
        decreases v@.len() - i,
    {
        r.push(v[i].clone());
        i = i + 1;
    }
    proof {
        assert(r.deep_view() =~= v.deep_view());
    }
    r
}

/// Copies a list of names, item by item.
pub fn clone_names(v: &Vec<String>) -> (r: Vec<String>)
    ensures
        r.deep_view() == v.deep_view(),
{
    let mut r: Vec<String> = Vec::new();
    let mut i: usize = 0;
    while i < v.len()
        invariant
            i <= v@.len(),
            r@.len() == i,
            forall|j: int| 0 <= j < i ==> r@[j]@ == v@[j]@,
        decreases v@.len() - i,
    {
        r.push(v[i].clone());
        i = i + 1;
    }
    proof {
        assert(r.deep_view() =~= v.deep_view());
    }
    r
}

impl Clone for ChatMessage {
    fn clone(&self) -> (r: Self)
        ensures
            r@ == self@,
    {
        match self {
            ChatMessage::Join { username } => ChatMessage::Join { username: username.clone() },
            ChatMessage::Leave { username } => ChatMessage::Leave { username: username.clone() },
            ChatMessage::Text { from, content, timestamp } => ChatMessage::Text {
                from: from.clone(),
                content: content.clone(),
                timestamp: *timestamp,
            },
            ChatMessage::StateSync { history, participants } => ChatMessage::StateSync {
                history: clone_history(history),
                participants: clone_names(participants),
            },
        }
    }
}

/// The color a rendered name takes: one's own name in bright blue, others in
/// the color their byte sum picks.
pub open spec fn name_color_chars(from: Seq<char>, is_self: bool) -> Seq<char> {
    if is_self {
        Colors::BRIGHT_BLUE@
    } else {
        render::username_color_chars(vstd::utf8::encode_utf8(from))
    }
}

/// A join notice as rendered for the terminal, given the clock reading `t`.
pub open spec fn join_line_chars(t: Seq<char>, username: Seq<char>) -> Seq<char> {
    Colors::DIM@ + t + Colors::RESET@ + seq![' '] + Colors::BRIGHT_GREEN@ + username
        + Colors::RESET@ + " joined the room"@ + seq![' '] + Colors::DIM@ + "👋"@ + Colors::RESET@
}

/// A leave notice as rendered for the terminal, given the clock reading `t`.
pub open spec fn leave_line_chars(t: Seq<char>, username: Seq<char>) -> Seq<char> {
    Colors::DIM@ + t + Colors::RESET@ + seq![' '] + Colors::BRIGHT_YELLOW@ + username
        + Colors::RESET@ + " left the room"@ + seq![' '] + Colors::DIM@ + "👋"@ + Colors::RESET@
}

/// A text message as rendered for the terminal, given the clock reading `t`.
pub open spec fn text_line_chars(
    t: Seq<char>,
    from: Seq<char>,
    content: Seq<char>,
    is_self: bool,
) -> Seq<char> {
    Colors::DIM@ + t + Colors::RESET@ + seq![' '] + name_color_chars(from, is_self) + from
        + Colors::RESET@ + ": "@ + content
}

/// A state-sync notice as rendered for the terminal, given the clock reading
/// `t`.
pub open spec fn sync_line_chars(t: Seq<char>) -> Seq<char> {
    Colors::DIM@ + t + Colors::RESET@ + "  State synchronization received"@
}

/// A history item as rendered for the terminal, given the clock reading `t`.
pub open spec fn history_line_chars(t: Seq<char>, item: HistViewData, is_self: bool) -> Seq<char> {
    Colors::DIM@ + t + Colors::RESET@ + " [HISTORY] "@ + name_color_chars(item.from, is_self)
        + item.from + Colors::RESET@ + ": "@ + item.content
}

impl ChatMessage {
    /// Returns a formatted string representation with colors and timestamps
    pub fn format(&self, is_self: bool) -> (r: String)
        ensures
            self@ matches MsgView::Join { username } ==> exists|t: Seq<char>|
                #[trigger] render::is_clock_chars(t) && r@ == join_line_chars(t, username),
            self@ matches MsgView::Leave { username } ==> exists|t: Seq<char>|
                #[trigger] render::is_clock_chars(t) && r@ == leave_line_chars(t, username),
            self@ matches MsgView::Text { from, content, timestamp } ==> exists|t: Seq<char>|
                #[trigger] render::is_clock_chars(t) && r@ == text_line_chars(
                    t,
                    from,
                    content,
                    is_self,
                ),
            self@ matches MsgView::StateSync { .. } ==> exists|t: Seq<char>|
                #[trigger] render::is_clock_chars(t) && r@ == sync_line_chars(t),
    {
        proof {
            reveal_strlit(" ");
        }
        match self {
            ChatMessage::Join { username } => {
                let time_str = render::format_timestamp_from_unix(clock::now_unix());
                let mut r = String::from_str(Colors::DIM);
                r.append(time_str.as_str());
                r.append(Colors::RESET);
                r.append(" ");
                r.append(Colors::BRIGHT_GREEN);
                r.append(username.as_str());
                r.append(Colors::RESET);
                r.append(" joined the room");
                r.append(" ");
                r.append(Colors::DIM);
                r.append("👋");
                r.append(Colors::RESET);
                proof {
                    assert(" "@ =~= seq![' ']);
                    assert(r@ =~= join_line_chars(time_str@, username@));
                }
                r
            },
            ChatMessage::Leave { username } => {
                let time_str = render::format_timestamp_from_unix(clock::now_unix());
                let mut r = String::from_str(Colors::DIM);
                r.append(time_str.as_str());
                r.append(Colors::RESET);
                r.append(" ");
                r.append(Colors::BRIGHT_YELLOW);
                r.append(username.as_str());
                r.append(Colors::RESET);
                r.append(" left the room");
                r.append(" ");
                r.append(Colors::DIM);
                r.append("👋");
                r.append(Colors::RESET);
                proof {
                    assert(" "@ =~= seq![' ']);
                    assert(r@ =~= leave_line_chars(time_str@, username@));
                }
                r
            },
            ChatMessage::Text { from, content, timestamp } => {
                let time_str = render::format_timestamp_from_unix(*timestamp);
                let name_color = if is_self {
                    Colors::BRIGHT_BLUE
                } else {
                    render::get_username_color(from.as_str())
                };
                let mut r = String::from_str(Colors::DIM);
                r.append(time_str.as_str());
                r.append(Colors::RESET);
                r.append(" ");
                r.append(name_color);
                r.append(from.as_str());
                r.append(Colors::RESET);
                r.append(": ");
                r.append(content.as_str());
                proof {
                    assert(" "@ =~= seq![' ']);
                    assert(r@ =~= text_line_chars(time_str@, from@, content@, is_self));
                }
                r
            },
            ChatMessage::StateSync { .. } => {
                let time_str = render::format_timestamp_from_unix(clock::now_unix());
                let mut r = String::from_str(Colors::DIM);
                r.append(time_str.as_str());
                r.append(Colors::RESET);
                r.append("  State synchronization received");
                proof {
                    assert(r@ =~= sync_line_chars(time_str@));
                }
                r
            },
        }
    }
}

impl HistoryItem {
    /// Format a history item with timestamp and colors
    pub fn format(&self, is_self: bool) -> (r: String)
        ensures
            exists|t: Seq<char>|
                #[trigger] render::is_clock_chars(t) && r@ == history_line_chars(
                    t,
                    self@,
                    is_self,
                ),
    {
        let time_str = render::format_timestamp_from_unix(self.timestamp);
        let name_color = if is_self {
            Colors::BRIGHT_BLUE
        } else {
            render::get_username_color(self.from.as_str())
        };
        let mut r = String::from_str(Colors::DIM);
        r.append(time_str.as_str());
        r.append(Colors::RESET);
        r.append(" [HISTORY] ");
        r.append(name_color);
        r.append(self.from.as_str());
        r.append(Colors::RESET);
        r.append(": ");
        r.append(self.content.as_str());
        proof {
            assert(r@ =~= history_line_chars(time_str@, self@, is_self));
        }
        r
    }
}

/// Log levels for debugging
#[derive(Debug, Clone, Copy, PartialEq, Eq, Structural)]
pub enum LogLevel {
    Off,
    Info,
    Debug,
    Trace,
}

/// The numeric severity order of a log level.
pub open spec fn level_rank(level: LogLevel) -> int {
    match level {
        LogLevel::Off => 0,
        LogLevel::Info => 1,
        LogLevel::Debug => 2,
        LogLevel::Trace => 3,
    }
}

impl LogLevel {
    /// The name under which this level is printed.
    pub fn label(&self) -> (r: &'static str)
        ensures
            *self == LogLevel::Off ==> r@ == "NONE"@,
            *self == LogLevel::Info ==> r@ == "INFO"@,
            *self == LogLevel::Debug ==> r@ == "DEBUG"@,
            *self == LogLevel::Trace ==> r@ == "TRACE"@,
    {
        match self {
            LogLevel::Off => "NONE",
            LogLevel::Info => "INFO",
            LogLevel::Debug => "DEBUG",
            LogLevel::Trace => "TRACE",
        }
    }
}

/// Whether a message at `level` is printed when the configured verbosity is
/// `current_level`.
pub fn log_enabled(level: LogLevel, current_level: LogLevel) -> (r: bool)
    ensures
        r == (level_rank(level) <= level_rank(current_level)),
{
    let l = match level {
        LogLevel::Off => 0u8,
        LogLevel::Info => 1u8,
        LogLevel::Debug => 2u8,
        LogLevel::Trace => 3u8,
    };
    let c = match current_level {
        LogLevel::Off => 0u8,
        LogLevel::Info => 1u8,
        LogLevel::Debug => 2u8,
        LogLevel::Trace => 3u8,
    };
    l <= c
}

} // verus!
