use nymchat::registry::Registry;

#[test]
fn empty_registry() {
    let r = Registry::new();
    assert_eq!(r.len(), 0);
    assert!(r.is_empty());
    assert!(r.snapshot().is_empty());
    assert!(r.handles().is_empty());
}

#[test]
fn upsert_and_snapshot() {
    let mut r = Registry::new();
    r.upsert("alice", 7, 100);
    r.upsert("bob", 8, 101);
    assert_eq!(r.len(), 2);
    let names = r.snapshot();
    assert_eq!(names, vec!["alice".to_string(), "bob".to_string()]);
    assert_eq!(r.handles(), vec![7, 8]);
}

#[test]
fn rejoin_replaces_handle_and_timestamp() {
    // A join from a username followed by a join from the same username with
    // a different handle leaves exactly one entry, with the newer handle.
    let mut r = Registry::new();
    r.upsert("alice", 7, 100);
    r.upsert("bob", 8, 101);
    r.upsert("alice", 9, 200);
    assert_eq!(r.len(), 2);
    let entries = r.entries();
    let alice: Vec<_> = entries.iter().filter(|p| p.username == "alice").collect();
    assert_eq!(alice.len(), 1);
    assert_eq!(alice[0].handle, 9);
    assert_eq!(alice[0].last_active, 200);
    // the other entry is untouched
    let bob: Vec<_> = entries.iter().filter(|p| p.username == "bob").collect();
    assert_eq!(bob.len(), 1);
    assert_eq!(bob[0].handle, 8);
    assert_eq!(bob[0].last_active, 101);
}

#[test]
fn remove_reports_presence() {
    let mut r = Registry::new();
    r.upsert("alice", 7, 100);
    assert!(r.remove("alice"));
    assert!(!r.remove("alice"));
    assert_eq!(r.len(), 0);
}

#[test]
fn touch_refreshes_only_the_named_user() {
    let mut r = Registry::new();
    r.upsert("alice", 7, 100);
    r.upsert("bob", 8, 100);
    r.touch("alice", 250);
    r.touch("carol", 250); // absent: a no-op
    let entries = r.entries();
    assert_eq!(entries.len(), 2);
    assert_eq!(entries[0].username, "alice");
    assert_eq!(entries[0].last_active, 250);
    assert_eq!(entries[0].handle, 7);
    assert_eq!(entries[1].username, "bob");
    assert_eq!(entries[1].last_active, 100);
}

#[test]
fn handles_excluding_skips_only_that_user() {
    let mut r = Registry::new();
    r.upsert("alice", 7, 100);
    r.upsert("bob", 8, 100);
    r.upsert("carol", 9, 100);
    assert_eq!(r.handles_excluding("bob"), vec![7, 9]);
    assert_eq!(r.handles_excluding("nobody"), vec![7, 8, 9]);
}

#[test]
fn sweep_removes_exactly_the_expired() {
    // sweep(now, timeout) removes exactly the participants with
    // now - last_active >= timeout and leaves the rest untouched.
    let mut r = Registry::new();
    r.upsert("old1", 1, 0);
    r.upsert("fresh", 2, 250);
    r.upsert("old2", 3, 10);
    r.upsert("edge", 4, 100);
    let evicted = r.sweep(400, 300);
    assert_eq!(evicted, vec!["old1".to_string(), "old2".to_string(), "edge".to_string()]);
    let entries = r.entries();
    assert_eq!(entries.len(), 1);
    assert_eq!(entries[0].username, "fresh");
    assert_eq!(entries[0].handle, 2);
    assert_eq!(entries[0].last_active, 250);
}

#[test]
fn sweep_keeps_entries_from_the_future() {
    // A participant whose timestamp lies ahead of the sweep clock is kept.
    let mut r = Registry::new();
    r.upsert("ahead", 1, 1000);
    let evicted = r.sweep(500, 300);
    assert!(evicted.is_empty());
    assert_eq!(r.len(), 1);
}
