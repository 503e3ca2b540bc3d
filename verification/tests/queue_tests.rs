use nymchat::messages::ChatMessage;
use nymchat::queue::{Delivery, DeliveryQueue, Priority};

fn delivery(recipient: u64, enqueued_at: u64) -> Delivery {
    Delivery {
        payload: ChatMessage::Leave { username: "u".to_string() },
        recipient,
        priority: Priority::Low,
        enqueued_at,
    }
}

#[test]
fn enqueue_past_capacity_fails_without_growing() {
    let mut q = DeliveryQueue::new(2);
    assert!(q.enqueue(delivery(1, 0)).is_ok());
    assert!(q.enqueue(delivery(2, 0)).is_ok());
    assert!(q.enqueue(delivery(3, 0)).is_err());
    assert_eq!(q.len(), 2);
    // the rejected delivery is gone; the first two are intact and in order
    let first = q.next_fresh(0).expect("first delivery");
    assert_eq!(first.recipient, 1);
    let second = q.next_fresh(0).expect("second delivery");
    assert_eq!(second.recipient, 2);
    assert!(q.next_fresh(0).is_none());
}

#[test]
fn stale_deliveries_are_never_returned() {
    // A delivery enqueued more than 30s before dequeue time is dropped.
    let mut q = DeliveryQueue::new(10);
    assert!(q.enqueue(delivery(1, 100)).is_ok());
    assert!(q.next_fresh(131).is_none());
    assert_eq!(q.len(), 0);
}

#[test]
fn next_fresh_skips_stale_and_returns_first_fresh() {
    let mut q = DeliveryQueue::new(10);
    assert!(q.enqueue(delivery(1, 100)).is_ok()); // stale at 140
    assert!(q.enqueue(delivery(2, 105)).is_ok()); // stale at 140
    assert!(q.enqueue(delivery(3, 125)).is_ok()); // fresh at 140
    assert!(q.enqueue(delivery(4, 130)).is_ok()); // fresh, stays queued
    let d = q.next_fresh(140).expect("a fresh delivery");
    assert_eq!(d.recipient, 3);
    assert_eq!(q.len(), 1);
}

#[test]
fn delivery_exactly_at_threshold_is_still_sent() {
    // 30s old is not "more than 30s in the past".
    let mut q = DeliveryQueue::new(10);
    assert!(q.enqueue(delivery(1, 100)).is_ok());
    let d = q.next_fresh(130).expect("threshold-age delivery");
    assert_eq!(d.recipient, 1);
}

#[test]
fn empty_queue_has_nothing_fresh() {
    let mut q = DeliveryQueue::new(4);
    assert!(q.is_empty());
    assert_eq!(q.capacity(), 4);
    assert!(q.next_fresh(0).is_none());
}

fn tagged(recipient: u64, priority: Priority, enqueued_at: u64) -> Delivery {
    Delivery {
        payload: ChatMessage::Leave { username: "u".to_string() },
        recipient,
        priority,
        enqueued_at,
    }
}

#[test]
fn priority_dequeue_prefers_urgent_tags() {
    let mut q = DeliveryQueue::new(10);
    assert!(q.enqueue(tagged(1, Priority::Low, 0)).is_ok());
    assert!(q.enqueue(tagged(2, Priority::Medium, 0)).is_ok());
    assert!(q.enqueue(tagged(3, Priority::High, 0)).is_ok());
    assert!(q.enqueue(tagged(4, Priority::High, 0)).is_ok());
    // the earliest High first, then the second High, then Medium, then Low
    assert_eq!(q.next_fresh_by_priority(0).expect("high").recipient, 3);
    assert_eq!(q.next_fresh_by_priority(0).expect("high").recipient, 4);
    assert_eq!(q.next_fresh_by_priority(0).expect("medium").recipient, 2);
    assert_eq!(q.next_fresh_by_priority(0).expect("low").recipient, 1);
    assert!(q.next_fresh_by_priority(0).is_none());
}

#[test]
fn priority_dequeue_drops_stale_picks() {
    let mut q = DeliveryQueue::new(10);
    assert!(q.enqueue(tagged(1, Priority::Low, 140)).is_ok());
    assert!(q.enqueue(tagged(2, Priority::High, 100)).is_ok()); // stale at 140
    let d = q.next_fresh_by_priority(140).expect("the fresh low one");
    assert_eq!(d.recipient, 1);
    assert!(q.next_fresh_by_priority(140).is_none());
}

#[test]
fn fifo_dequeue_ignores_the_tag() {
    // The plain dequeue path is strict FIFO whatever the tags say.
    let mut q = DeliveryQueue::new(10);
    assert!(q.enqueue(tagged(1, Priority::Low, 0)).is_ok());
    assert!(q.enqueue(tagged(2, Priority::High, 0)).is_ok());
    assert_eq!(q.next_fresh(0).expect("first in").recipient, 1);
    assert_eq!(q.next_fresh(0).expect("second in").recipient, 2);
}
