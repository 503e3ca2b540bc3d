//! Core of a single-room broadcast coordinator for an anonymous, unreliable,
//! ack-less message transport: membership tracking with liveness eviction, a
//! bounded conversation history, a bounded outbound delivery queue with
//! staleness dropping, and full-state resynchronization.

use vstd::prelude::*;

pub mod cli;
pub mod client;
pub mod clock;
pub mod colors;
pub mod history;
pub mod messages;
pub mod queue;
pub mod registry;
pub mod render;
pub mod room;
pub mod seqs;

verus! {

/// Seconds of inactivity after which a participant is evicted.
pub const PARTICIPANT_TIMEOUT_SECS: u64 = 300;

/// Maximum number of history items retained for late-joiner catch-up.
pub const MAX_HISTORY_SIZE: usize = 100;

/// Maximum number of pending outbound deliveries.
pub const MAX_QUEUE_SIZE: usize = 1000;

/// Seconds a queued delivery may age before it is dropped instead of sent.
pub const STALE_DELIVERY_SECS: u64 = 30;

/// Splits an uptime in seconds into whole hours and leftover minutes.
pub fn uptime_parts(uptime_secs: u64) -> (r: (u64, u64))
    ensures
        r.0 == uptime_secs / 3600,
        r.1 == (uptime_secs % 3600) / 60,
{
    let hours = uptime_secs / 3600;
    let minutes = (uptime_secs % 3600) / 60;
    (hours, minutes)
}

} // verus!
