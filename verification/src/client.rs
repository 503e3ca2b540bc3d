//! Client-side rules: which inbound messages a chat client shows, and which
//! history items of a state sync it replays. The terminal I/O around these
//! rules lives outside the library.

use vstd::prelude::*;

use crate::messages::{ChatMessage, HistViewData, HistoryItem, LogLevel, MsgView};
use crate::seqs::{lemma_filter_take_all, lemma_filter_take_step};

verus! {

/// A chat client session: who we are, where the room is, and how much has
/// been shown.
#[derive(Debug)]
pub struct ChatClient {
    pub username: String,
    pub room_address: String,
    pub verbosity: LogLevel,
    pub connection_time: u64,
    pub message_count: usize,
}

/// Whether a client that joined as `own` displays this message: notices and
/// text from others are shown, echoes of one's own events are not, and a
/// state sync is always rendered.
pub open spec fn displays(m: MsgView, own: Seq<char>) -> bool {
    match m {
        MsgView::Join { username } => username != own,
        MsgView::Leave { username } => username != own,
        MsgView::Text { from, .. } => from != own,
        MsgView::StateSync { .. } => true,
    }
}

/// The history items a client that joined as `own` replays from a state
/// sync: everything written by someone else, in sync order.
pub open spec fn visible_items(s: Seq<HistViewData>, own: Seq<char>) -> Seq<HistViewData> {
    s.filter(|h: HistViewData| h.from != own)
}

impl ChatClient {
    /// A fresh session for `username` against the room at `room_address`.
    /// The connection time is read from the wall clock.
    pub fn new(username: String, room_address: String, verbosity: LogLevel) -> (r: ChatClient)
        ensures
            r.username == username,
            r.room_address == room_address,
            r.verbosity == verbosity,
            r.message_count == 0,
    {
        ChatClient {
            username,
            room_address,
            verbosity,
            connection_time: crate::clock::now_unix(),
            message_count: 0,
        }
    }

    /// Whether this client displays the message.
    pub fn should_display(&self, message: &ChatMessage) -> (r: bool)
        ensures
            r == displays(message@, self.username@),
    {
        match message {
            ChatMessage::Join { username } => !(*username == self.username),
            ChatMessage::Leave { username } => !(*username == self.username),
            ChatMessage::Text { from, .. } => !(*from == self.username),
            ChatMessage::StateSync { .. } => true,
        }
    }

    /// Notes one displayed message for the session statistics.
    pub fn record_message(&mut self)
        ensures
            final(self).message_count == crate::room::bumped(old(self).message_count),
            final(self).username == old(self).username,
            final(self).room_address == old(self).room_address,
            final(self).verbosity == old(self).verbosity,
            final(self).connection_time == old(self).connection_time,
    {
        if self.message_count < usize::MAX {
            self.message_count = self.message_count + 1;
        }
    }

    /// The history items of a state sync this client replays: everything
    /// written by someone else, in sync order.
    pub fn visible_history(&self, history: &Vec<HistoryItem>) -> (r: Vec<HistoryItem>)
        ensures
            r.deep_view() == visible_items(history.deep_view(), self.username@),
    {
        let ghost s = history.deep_view();
        let ghost own = self.username@;
        let mut r: Vec<HistoryItem> = Vec::new();
        let mut i: usize = 0;
        while i < history.len()
            invariant
                i <= s.len(),
                history.deep_view() == s,
                history@.len() == s.len(),
                own == self.username@,
                r.deep_view() == visible_items(s.take(i as int), own),
            decreases s.len() - i,
        {
            let ghost prev = r.deep_view();
            proof {
                assert(history@[i as int]@ == s[i as int]);
                lemma_filter_take_step(s, |h: HistViewData| h.from != own, i as int);
            }
            let item = &history[i];
            if !(item.from == self.username) {
                r.push(item.clone());
                proof {
                    assert(r.deep_view() =~= prev.push(s[i as int]));
                }
            }
            i = i + 1;
        }
        proof {
            lemma_filter_take_all(s, |h: HistViewData| h.from != own);
            assert(s.take(s.len() as int) =~= s);
        }
        r
    }
}

} // verus!
