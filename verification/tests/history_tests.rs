use nymchat::history::History;
use nymchat::messages::HistoryItem;

fn item(from: &str, content: &str, timestamp: u64) -> HistoryItem {
    HistoryItem { from: from.to_string(), content: content.to_string(), timestamp }
}

#[test]
fn empty_history_snapshot() {
    let h = History::new(10);
    assert_eq!(h.len(), 0);
    assert!(h.is_empty());
    assert_eq!(h.capacity(), 10);
    assert_eq!(h.snapshot().len(), 0);
}

#[test]
fn history_keeps_insertion_order() {
    let mut h = History::new(10);
    h.append(item("alice", "one", 1));
    h.append(item("bob", "two", 2));
    h.append(item("alice", "three", 3));
    let snap = h.snapshot();
    assert_eq!(snap.len(), 3);
    assert_eq!(snap[0], item("alice", "one", 1));
    assert_eq!(snap[1], item("bob", "two", 2));
    assert_eq!(snap[2], item("alice", "three", 3));
}

#[test]
fn history_evicts_oldest_at_capacity() {
    // After M >= N appends into a buffer of capacity N, the snapshot is
    // exactly the last N items in call order.
    let mut h = History::new(3);
    for i in 0..7u64 {
        h.append(item("u", &format!("m{}", i), i));
        assert!(h.len() <= 3);
    }
    let snap = h.snapshot();
    assert_eq!(snap.len(), 3);
    assert_eq!(snap[0], item("u", "m4", 4));
    assert_eq!(snap[1], item("u", "m5", 5));
    assert_eq!(snap[2], item("u", "m6", 6));
}

#[test]
fn history_capacity_two_scenario() {
    // Capacity 2; three texts arrive; the buffer holds the newest two.
    let mut h = History::new(2);
    h.append(item("alice", "hi", 11));
    h.append(item("bob", "yo", 12));
    h.append(item("alice", "again", 13));
    let snap = h.snapshot();
    assert_eq!(snap.len(), 2);
    assert_eq!(snap[0], item("bob", "yo", 12));
    assert_eq!(snap[1], item("alice", "again", 13));
}

#[test]
fn history_capacity_zero_stays_empty() {
    let mut h = History::new(0);
    h.append(item("a", "x", 1));
    assert_eq!(h.len(), 0);
    assert!(h.snapshot().is_empty());
}
