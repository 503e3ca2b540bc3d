//! The outbound delivery queue: a bounded buffer of pending deliveries that
//! decouples event processing from transport sends. Enqueueing past the
//! bound fails instead of blocking or growing (backpressure); a delivery
//! that has aged past the staleness threshold is dropped at dequeue time,
//! never handed to the transport.
//!
//! Every delivery carries a priority tag for observability, but dequeueing
//! is deliberately strict FIFO regardless of the tag: the tag is data, not
//! an ordering, and a reordering policy would be a separate dequeue method.

use std::collections::VecDeque;
use vstd::prelude::*;

use crate::messages::{ChatMessage, MsgView};
use crate::STALE_DELIVERY_SECS;

verus! {

/// How urgent a delivery is: join/leave notices are high, state syncs
/// medium, ordinary text low.
#[derive(Debug, Clone, Copy, PartialEq, Eq, Structural)]
pub enum Priority {
    High,
    Medium,
    Low,
}

/// One pending outbound delivery: the payload, the opaque recipient handle
/// it is addressed to, its priority tag, and the time it was enqueued.
#[derive(Debug, PartialEq)]
pub struct Delivery {
    pub payload: ChatMessage,
    pub recipient: u64,
    pub priority: Priority,
    pub enqueued_at: u64,
}

/// The abstract value of a pending delivery.
pub ghost struct DeliveryView {
    pub payload: MsgView,
    pub recipient: u64,
    pub priority: Priority,
    pub enqueued_at: u64,
}

impl View for Delivery {
    type V = DeliveryView;

    open spec fn view(&self) -> DeliveryView {
        DeliveryView {
            payload: self.payload@,
            recipient: self.recipient,
            priority: self.priority,
            enqueued_at: self.enqueued_at,
        }
    }
}

impl DeepView for Delivery {
    type V = DeliveryView;

    open spec fn deep_view(&self) -> DeliveryView {
        self.view()
    }
}

impl Clone for Delivery {
    fn clone(&self) -> (r: Self)
        ensures
            r@ == self@,
    {
        Delivery {
            payload: self.payload.clone(),
            recipient: self.recipient,
            priority: self.priority,
            enqueued_at: self.enqueued_at,
        }
    }
}

/// The failure an enqueue reports when the queue is at capacity.
#[derive(Debug, Clone, Copy, PartialEq, Eq, Structural)]
pub struct QueueFull;

/// Whether a delivery has aged past the staleness threshold at time `now`
/// and must be dropped instead of sent.
pub open spec fn is_stale(d: DeliveryView, now: u64) -> bool {
    d.enqueued_at < now && now - d.enqueued_at > STALE_DELIVERY_SECS
}

/// Bounded FIFO of pending outbound deliveries.
#[derive(Debug)]
pub struct DeliveryQueue {
    items: VecDeque<Delivery>,
    capacity: usize,
}

impl View for DeliveryQueue {
    type V = Seq<DeliveryView>;

    closed spec fn view(&self) -> Seq<DeliveryView> {
        self.items.deep_view()
    }
}

impl DeliveryQueue {
    /// The fixed capacity the queue was built with.
    pub closed spec fn cap(&self) -> int {
        self.capacity as int
    }

    /// The queue never holds more deliveries than its capacity.
    pub open spec fn wf(&self) -> bool {
        self@.len() <= self.cap()
    }

    /// An empty queue of the given fixed capacity.
    pub fn new(capacity: usize) -> (r: DeliveryQueue)
        ensures
            r@ == Seq::<DeliveryView>::empty(),
            r.cap() == capacity,
            r.wf(),
    {
        let r = DeliveryQueue { items: VecDeque::new(), capacity };
        proof {
            assert(r@ =~= Seq::<DeliveryView>::empty());
        }
        r
    }

    /// How many deliveries are pending.
    pub fn len(&self) -> (r: usize)
        ensures
            r == self@.len(),
    {
        self.items.len()
    }

    /// Whether nothing is pending.
    pub fn is_empty(&self) -> (r: bool)
        ensures
            r == (self@.len() == 0),
    {
        self.items.len() == 0
    }

    /// The capacity the queue was built with.
    pub fn capacity(&self) -> (r: usize)
        ensures
            r == self.cap(),
    {
        self.capacity
    }

    /// Appends a delivery, unless the queue is at capacity: then the
    /// delivery is rejected at once — the queue neither blocks nor grows
    /// past its bound.
    pub fn enqueue(&mut self, d: Delivery) -> (r: Result<(), QueueFull>)
        requires
            old(self).wf(),
        ensures
            old(self)@.len() == old(self).cap() ==> r is Err && final(self)@ == old(self)@,
            old(self)@.len() < old(self).cap() ==> r is Ok && final(self)@ == old(self)@.push(d@),
            final(self).cap() == old(self).cap(),
            final(self).wf(),
    {
        let ghost s = self@;
        if self.items.len() == self.capacity {
            return Err(QueueFull);
        }
        self.items.push_back(d);
        proof {
            assert(self.items.deep_view() =~= s.push(d@));
        }
        Ok(())
    }

    /// Removes deliveries from the front until one is still fresh at time
    /// `now`, and returns it; stale ones are discarded, never returned.
    /// Dequeue order is strict FIFO: the priority tag is not consulted.
    pub fn next_fresh(&mut self, now: u64) -> (r: Option<Delivery>)
        requires
            old(self).wf(),
        ensures
            final(self).cap() == old(self).cap(),
            final(self).wf(),
            r matches Some(d) ==> exists|k: int|
                0 <= k < old(self)@.len() && (forall|j: int|
                    0 <= j < k ==> is_stale(#[trigger] old(self)@[j], now)) && !is_stale(
                    old(self)@[k],
                    now,
                ) && d@ == old(self)@[k] && final(self)@ == old(self)@.subrange(
                    k + 1,
                    old(self)@.len() as int,
                ),
            r is None ==> final(self)@.len() == 0 && (forall|j: int|
                0 <= j < old(self)@.len() ==> is_stale(#[trigger] old(self)@[j], now)),
    {
        let ghost s = self@;
        let ghost mut k: int = 0;
        loop
            invariant
                s == old(self)@,
                self.capacity == old(self).capacity,
                0 <= k <= s.len(),
                self@ == s.subrange(k, s.len() as int),
                forall|j: int| 0 <= j < k ==> is_stale(#[trigger] s[j], now),
                self@.len() <= self.cap(),
            decreases s.len() - k,
        {
            let ghost before_items = self.items@;
            let ghost before = self@;
            match self.items.pop_front() {
                None => {
                    proof {
                        assert(before.len() == 0);
                        assert(k == s.len());
                        assert(s == old(self)@);
                        assert(forall|j: int|
                            0 <= j < old(self)@.len() ==> is_stale(#[trigger] old(self)@[j], now));
                    }
                    return None;
                },
                Some(d) => {
                    proof {
                        assert(d == before_items[0]);
                        assert(d@ == before_items[0]@);
                        assert(before_items[0]@ == before[0]);
                        assert(before[0] == s.subrange(k, s.len() as int)[0]);
                        assert(d@ == s[k]);
                        assert(self.items@ == before_items.subrange(
                            1,
                            before_items.len() as int,
                        ));
                        assert(forall|i2: int|
                            0 <= i2 < self.items@.len() ==> #[trigger] self.items@[i2]
                                == before_items[i2 + 1]);
                        assert(forall|i2: int|
                            0 <= i2 < self@.len() ==> #[trigger] self@[i2] == before[i2 + 1]);
                        assert(forall|i2: int|
                            0 <= i2 < self@.len() ==> #[trigger] self@[i2] == s[k + 1 + i2]);
                        assert(self@ =~= s.subrange(k + 1, s.len() as int));
                    }
                    let stale = d.enqueued_at < now && now - d.enqueued_at > STALE_DELIVERY_SECS;
                    if !stale {
                        proof {
                            let ghost kk = k;
                            assert(s == old(self)@);
                            assert(0 <= kk < old(self)@.len() && (forall|j: int|
                                0 <= j < kk ==> is_stale(#[trigger] old(self)@[j], now))
                                && !is_stale(old(self)@[kk], now) && d@ == old(self)@[kk] && self@
                                == old(self)@.subrange(kk + 1, old(self)@.len() as int));
                        }
                        return Some(d);
                    }
                    proof {
                        k = k + 1;
                    }
                },
            }
        }
    }
}


/// The severity order of a priority tag: smaller is more urgent.
pub open spec fn priority_rank(p: Priority) -> int {
    match p {
        Priority::High => 0,
        Priority::Medium => 1,
        Priority::Low => 2,
    }
}

/// The index a priority-honoring dequeue picks from a non-empty queue: the
/// earliest-enqueued delivery among those of the most urgent tag present.
pub open spec fn best_index(s: Seq<DeliveryView>) -> int
    decreases s.len(),
{
    if s.len() <= 1 {
        0
    } else {
        let b = best_index(s.drop_last());
        if priority_rank(s.last().priority) < priority_rank(s[b].priority) {
            s.len() - 1
        } else {
            b
        }
    }
}

/// What a priority-honoring dequeue at time `now` returns and leaves
/// behind: picked deliveries that have gone stale are dropped, and the
/// first fresh pick comes out.
pub open spec fn priority_dequeue(s: Seq<DeliveryView>, now: u64) -> (Option<DeliveryView>, Seq<
    DeliveryView,
>)
    decreases s.len(),
        via priority_dequeue_decreases
{
    if s.len() == 0 {
        (Option::None, s)
    } else {
        let b = best_index(s);
        let d = s[b];
        let rest = s.remove(b);
        if is_stale(d, now) {
            priority_dequeue(rest, now)
        } else {
            (Option::Some(d), rest)
        }
    }
}

#[via_fn]
proof fn priority_dequeue_decreases(s: Seq<DeliveryView>, now: u64) {
    if s.len() > 0 {
        lemma_best_index(s);
    }
}

/// The picked index is in range and no earlier delivery is as urgent.
pub proof fn lemma_best_index(s: Seq<DeliveryView>)
    requires
        s.len() > 0,
    ensures
        0 <= best_index(s) < s.len(),
        forall|j: int|
            0 <= j < s.len() ==> priority_rank(s[best_index(s)].priority) <= priority_rank(
                #[trigger] s[j].priority,
            ),
        forall|j: int|
            0 <= j < best_index(s) ==> priority_rank(s[best_index(s)].priority) < priority_rank(
                #[trigger] s[j].priority,
            ),
    decreases s.len(),
{
    if s.len() > 1 {
        lemma_best_index(s.drop_last());
        assert(forall|j: int| 0 <= j < s.len() - 1 ==> s.drop_last()[j] == s[j]);
    }
}

fn rank_of(p: Priority) -> (r: u8)
    ensures
        r == priority_rank(p),
{
    match p {
        Priority::High => 0,
        Priority::Medium => 1,
        Priority::Low => 2,
    }
}

impl DeliveryQueue {
    /// The alternative dequeue policy: picks the earliest-enqueued delivery
    /// of the most urgent tag present, dropping stale picks, instead of the
    /// plain FIFO order of `next_fresh`.
    pub fn next_fresh_by_priority(&mut self, now: u64) -> (r: Option<Delivery>)
        requires
            old(self).wf(),
        ensures
            final(self).cap() == old(self).cap(),
            final(self).wf(),
            r matches Some(d) ==> priority_dequeue(old(self)@, now).0 == Some(d@) && !is_stale(
                d@,
                now,
            ),
            r is None ==> priority_dequeue(old(self)@, now).0 is None,
            final(self)@ == priority_dequeue(old(self)@, now).1,
    {
        loop
            invariant
                self.capacity == old(self).capacity,
                self@.len() <= self.cap(),
                priority_dequeue(self@, now) == priority_dequeue(old(self)@, now),
            decreases self@.len(),
        {
            let ghost cur = self@;
            if self.items.len() == 0 {
                return None;
            }
            proof {
                lemma_best_index(cur);
            }
            let mut best: usize = 0;
            let mut best_rank = rank_of(self.items[0].priority);
            let mut j: usize = 1;
            while j < self.items.len()
                invariant
                    self@ == cur,
                    cur.len() > 0,
                    self.items@.len() == cur.len(),
                    1 <= j <= cur.len(),
                    best < j,
                    best == best_index(cur.take(j as int)),
                    best_rank == priority_rank(cur[best as int].priority),
                decreases cur.len() - j,
            {
                proof {
                    assert(cur.take(j + 1).drop_last() =~= cur.take(j as int));
                    assert(cur.take(j + 1).last() == cur[j as int]);
                    assert(forall|m: int|
                        0 <= m < j ==> cur.take(j + 1)[m] == #[trigger] cur.take(j as int)[m]);
                }
                let r = rank_of(self.items[j].priority);
                if r < best_rank {
                    best = j;
                    best_rank = r;
                }
                j = j + 1;
            }
            proof {
                assert(cur.take(cur.len() as int) =~= cur);
                assert(best == best_index(cur));
            }
            let picked = match self.items.remove(best) {
                Some(d) => d,
                None => {
                    return None;
                },
            };
            proof {
                assert(picked@ == cur[best as int]);
                assert(self.items.deep_view() =~= cur.remove(best as int));
            }
            let stale = picked.enqueued_at < now && now - picked.enqueued_at
                > STALE_DELIVERY_SECS;
            if !stale {
                return Some(picked);
            }
        }
    }
}

} // verus!
