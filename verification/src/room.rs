//! The room: aggregate state (registry, history, delivery queue, counters)
//! and the engines over it — broadcast fan-out, the inbound event
//! dispatcher, the liveness sweeper and the state-sync publisher.

use vstd::prelude::*;

use crate::history::{pushed_evicting, History};
use crate::messages::{ChatMessage, HistViewData, HistoryItem, MsgView};
use crate::queue::{Delivery, DeliveryQueue, DeliveryView, Priority, QueueFull};
use crate::registry::{
    handles_excl, handles_of, surviving, swept, touched, upserted, usernames_of, without_user,
    PView, Registry,
};
use crate::{MAX_HISTORY_SIZE, MAX_QUEUE_SIZE, PARTICIPANT_TIMEOUT_SECS};

verus! {

/// A counter bumped by one, stopping at its ceiling instead of wrapping.
pub open spec fn bumped(n: usize) -> usize {
    if n == usize::MAX {
        n
    } else {
        (n + 1) as usize
    }
}

/// The deliveries a fan-out of one payload to a set of handles intends to
/// enqueue, in handle order.
pub open spec fn fanout(handles: Seq<u64>, payload: MsgView, priority: Priority, now: u64) -> Seq<
    DeliveryView,
> {
    handles.map_values(
        |h: u64| DeliveryView { payload, recipient: h, priority, enqueued_at: now },
    )
}

/// How many of `n` intended deliveries fit into a queue of capacity `cap`
/// already holding `qlen`.
pub open spec fn fit(cap: int, qlen: int, n: int) -> int {
    if n <= cap - qlen {
        n
    } else {
        cap - qlen
    }
}

/// The queue after intended deliveries are enqueued in order, each one
/// dropped individually once the queue is full.
pub open spec fn enqueued_up_to(q: Seq<DeliveryView>, intent: Seq<DeliveryView>, cap: int) -> Seq<
    DeliveryView,
> {
    q + intent.take(fit(cap, q.len() as int, intent.len() as int))
}

/// Enqueueing one intent batch after another is enqueueing their
/// concatenation.
pub proof fn lemma_enqueued_compose(
    q: Seq<DeliveryView>,
    a: Seq<DeliveryView>,
    b: Seq<DeliveryView>,
    cap: int,
)
    requires
        q.len() <= cap,
    ensures
        enqueued_up_to(enqueued_up_to(q, a, cap), b, cap) == enqueued_up_to(q, a + b, cap),
{
    let fa = fit(cap, q.len() as int, a.len() as int);
    let q1 = q + a.take(fa);
    let fb = fit(cap, q1.len() as int, b.len() as int);
    let fab = fit(cap, q.len() as int, a.len() as int + b.len() as int);
    assert((a + b).take(fab) =~= a.take(fa) + b.take(fb));
    assert(enqueued_up_to(enqueued_up_to(q, a, cap), b, cap) =~= enqueued_up_to(q, a + b, cap));
}

/// The aggregate room state: membership registry, history buffer, outbound
/// delivery queue, and running counters. All mutation goes through the
/// methods here; one inbound event is handled at a time.
#[derive(Debug)]
pub struct Room {
    pub registry: Registry,
    pub history: History,
    pub queue: DeliveryQueue,
    pub message_count: usize,
    pub broadcast_count: usize,
    pub start_time: u64,
}

impl Room {
    /// Every component keeps its own invariant.
    pub open spec fn wf(&self) -> bool {
        self.registry.wf() && self.history.wf() && self.queue.wf()
    }

    /// A fresh room, started at time `now`, with the fixed history and
    /// queue bounds.
    pub fn new(now: u64) -> (r: Room)
        ensures
            r.registry@ == Seq::<PView>::empty(),
            r.history@ == Seq::<HistViewData>::empty(),
            r.queue@ == Seq::<DeliveryView>::empty(),
            r.history.cap() == MAX_HISTORY_SIZE,
            r.queue.cap() == MAX_QUEUE_SIZE,
            r.message_count == 0,
            r.broadcast_count == 0,
            r.start_time == now,
            r.wf(),
    {
        Room {
            registry: Registry::new(),
            history: History::new(MAX_HISTORY_SIZE),
            queue: DeliveryQueue::new(MAX_QUEUE_SIZE),
            message_count: 0,
            broadcast_count: 0,
            start_time: now,
        }
    }

    /// Enqueues one delivery of `payload` to `handle`; reports the failure
    /// when the queue is full.
    pub fn unicast(&mut self, payload: &ChatMessage, handle: u64, priority: Priority, now: u64) -> (r:
        Result<(), QueueFull>)
        requires
            old(self).wf(),
        ensures
            final(self).queue@ == enqueued_up_to(
                old(self).queue@,
                seq![
                    DeliveryView {
                        payload: payload@,
                        recipient: handle,
                        priority,
                        enqueued_at: now,
                    },
                ],
                old(self).queue.cap(),
            ),
            r is Ok <==> old(self).queue@.len() < old(self).queue.cap(),
            final(self).registry == old(self).registry,
            final(self).history == old(self).history,
            final(self).message_count == old(self).message_count,
            final(self).broadcast_count == old(self).broadcast_count,
            final(self).start_time == old(self).start_time,
            final(self).queue.cap() == old(self).queue.cap(),
            final(self).wf(),
    {
        let d = Delivery { payload: payload.clone(), recipient: handle, priority, enqueued_at: now };
        let r = self.queue.enqueue(d);
        proof {
            let dv = DeliveryView { payload: payload@, recipient: handle, priority, enqueued_at: now };
            if old(self).queue@.len() < old(self).queue.cap() {
                assert(self.queue@ =~= enqueued_up_to(
                    old(self).queue@,
                    seq![dv],
                    old(self).queue.cap(),
                ));
            } else {
                assert(self.queue@ =~= enqueued_up_to(
                    old(self).queue@,
                    seq![dv],
                    old(self).queue.cap(),
                ));
            }
        }
        r
    }

    /// Resolves the recipient set from the registry — every participant, or
    /// every participant but `exclude` — and enqueues one delivery of
    /// `payload` per recipient. A delivery rejected because the queue is
    /// full is dropped without aborting the rest of the fan-out.
    pub fn broadcast(
        &mut self,
        payload: &ChatMessage,
        exclude: Option<&str>,
        priority: Priority,
        now: u64,
    )
        requires
            old(self).wf(),
        ensures
            final(self).queue@ == enqueued_up_to(
                old(self).queue@,
                fanout(
                    match exclude {
                        Some(u) => handles_excl(old(self).registry@, u@),
                        None => handles_of(old(self).registry@),
                    },
                    payload@,
                    priority,
                    now,
                ),
                old(self).queue.cap(),
            ),
            final(self).registry == old(self).registry,
            final(self).history == old(self).history,
            final(self).message_count == old(self).message_count,
            final(self).broadcast_count == old(self).broadcast_count,
            final(self).start_time == old(self).start_time,
            final(self).queue.cap() == old(self).queue.cap(),
            final(self).wf(),
    {
        let handles: Vec<u64> = match exclude {
            Some(u) => self.registry.handles_excluding(u),
            None => self.registry.handles(),
        };
        let ghost q0 = self.queue@;
        let ghost cap = self.queue.cap();
        let ghost intent = fanout(handles@, payload@, priority, now);
        let mut i: usize = 0;
        while i < handles.len()
            invariant
                old(self).wf(),
                i <= handles@.len(),
                intent == fanout(handles@, payload@, priority, now),
                intent.len() == handles@.len(),
                self.queue@ == enqueued_up_to(q0, intent.take(i as int), cap),
                self.queue.cap() == cap,
                q0.len() <= cap,
                self.queue.wf(),
                self.registry == old(self).registry,
                self.history == old(self).history,
                self.message_count == old(self).message_count,
                self.broadcast_count == old(self).broadcast_count,
                self.start_time == old(self).start_time,
            decreases handles@.len() - i,
        {
            let ghost q_before = self.queue@;
            let d = Delivery {
                payload: payload.clone(),
                recipient: handles[i],
                priority,
                enqueued_at: now,
            };
            proof {
                assert(d@ == intent[i as int]);
            }
            let _ = self.queue.enqueue(d);
            proof {
                if q_before.len() < cap {
                    assert(self.queue@ == q_before.push(intent[i as int]));
                } else {
                    assert(self.queue@ == q_before);
                }
                assert(self.queue@ =~= enqueued_up_to(q0, intent.take(i + 1), cap));
            }
            i = i + 1;
        }
        proof {
            assert(intent.take(intent.len() as int) =~= intent);
        }
    }

    /// Handles one inbound transport event, the single entry point for
    /// state mutation outside the periodic tasks.
    ///
    /// A join needs a usable reply handle: without one the event is dropped
    /// whole, since the participant could never be reached. A join stores
    /// the participant, answers it with a state-sync snapshot, and
    /// broadcasts the join to everyone else; a leave removes the
    /// participant and broadcasts the leave; a text refreshes the sender's
    /// liveness, goes into the history and is broadcast to everyone but its
    /// author. An inbound state-sync is server-to-client only and is
    /// discarded without touching state or counters.
    pub fn dispatch(&mut self, message: ChatMessage, reply_handle: Option<u64>, now: u64)
        requires
            old(self).wf(),
        ensures
            final(self).wf(),
            final(self).queue.cap() == old(self).queue.cap(),
            final(self).history.cap() == old(self).history.cap(),
            final(self).broadcast_count == old(self).broadcast_count,
            final(self).start_time == old(self).start_time,
            message@ matches MsgView::Join { username } ==> match reply_handle {
                Some(h) => {
                    &&& final(self).registry@ == upserted(old(self).registry@, username, h, now)
                    &&& final(self).history == old(self).history
                    &&& final(self).message_count == bumped(old(self).message_count)
                    &&& final(self).queue@ == enqueued_up_to(
                        old(self).queue@,
                        join_intent(
                            upserted(old(self).registry@, username, h, now),
                            old(self).history@,
                            username,
                            h,
                            now,
                        ),
                        old(self).queue.cap(),
                    )
                },
                None => *final(self) == *old(self),
            },
            message@ matches MsgView::Leave { username } ==> {
                &&& final(self).registry@ == without_user(old(self).registry@, username)
                &&& final(self).history == old(self).history
                &&& final(self).message_count == bumped(old(self).message_count)
                &&& final(self).queue@ == enqueued_up_to(
                    old(self).queue@,
                    fanout(
                        handles_excl(without_user(old(self).registry@, username), username),
                        MsgView::Leave { username },
                        Priority::High,
                        now,
                    ),
                    old(self).queue.cap(),
                )
            },
            message@ matches MsgView::Text { from, content, timestamp } ==> {
                &&& final(self).registry@ == touched(old(self).registry@, from, now)
                &&& final(self).history@ == pushed_evicting(
                    old(self).history@,
                    HistViewData { from, content, timestamp },
                    old(self).history.cap(),
                )
                &&& final(self).message_count == bumped(old(self).message_count)
                &&& final(self).queue@ == enqueued_up_to(
                    old(self).queue@,
                    fanout(
                        handles_excl(touched(old(self).registry@, from, now), from),
                        MsgView::Text { from, content, timestamp },
                        Priority::Low,
                        now,
                    ),
                    old(self).queue.cap(),
                )
            },
            message@ matches MsgView::StateSync { .. } ==> *final(self) == *old(self),
    {
        let ghost q0 = self.queue@;
        let ghost cap = self.queue.cap();
        match &message {
            ChatMessage::Join { username } => {
                let handle = match reply_handle {
                    Some(h) => h,
                    None => {
                        return ;
                    },
                };
                self.registry.upsert(username.as_str(), handle, now);
                self.message_count = bump(self.message_count);
                let hist_items = self.history.snapshot();
                let parts = self.registry.snapshot();
                let sync = ChatMessage::StateSync { history: hist_items, participants: parts };
                let ghost sync_dv = DeliveryView {
                    payload: sync@,
                    recipient: handle,
                    priority: Priority::Medium,
                    enqueued_at: now,
                };
                let _ = self.unicast(&sync, handle, Priority::Medium, now);
                self.broadcast(&message, Some(username.as_str()), Priority::High, now);
                proof {
                    let reg_after = upserted(old(self).registry@, username@, handle, now);
                    let joins = fanout(
                        handles_excl(reg_after, username@),
                        MsgView::Join { username: username@ },
                        Priority::High,
                        now,
                    );
                    lemma_enqueued_compose(q0, seq![sync_dv], joins, cap);
                    assert(seq![sync_dv] + joins =~= join_intent(
                        reg_after,
                        old(self).history@,
                        username@,
                        handle,
                        now,
                    ));
                }
            },
            ChatMessage::Leave { username } => {
                self.registry.remove(username.as_str());
                self.message_count = bump(self.message_count);
                self.broadcast(&message, Some(username.as_str()), Priority::High, now);
            },
            ChatMessage::Text { from, content, timestamp } => {
                self.registry.touch(from.as_str(), now);
                let item = HistoryItem {
                    from: from.clone(),
                    content: content.clone(),
                    timestamp: *timestamp,
                };
                self.history.append(item);
                self.message_count = bump(self.message_count);
                self.broadcast(&message, Some(from.as_str()), Priority::Low, now);
            },
            ChatMessage::StateSync { .. } => {},
        }
    }

    /// One liveness-sweeper tick: evicts every participant whose
    /// inactivity has reached the timeout, and broadcasts a synthesized
    /// leave notice for each of them to all remaining participants. The
    /// transport gives no disconnect signal; silence beyond the timeout is
    /// the only sign of departure.
    pub fn sweep_tick(&mut self, now: u64) -> (r: Vec<String>)
        requires
            old(self).wf(),
        ensures
            final(self).wf(),
            final(self).registry@ == surviving(
                old(self).registry@,
                now,
                PARTICIPANT_TIMEOUT_SECS,
            ),
            r.deep_view() == usernames_of(
                swept(old(self).registry@, now, PARTICIPANT_TIMEOUT_SECS),
            ),
            final(self).queue@ == enqueued_up_to(
                old(self).queue@,
                leave_cascade(
                    surviving(old(self).registry@, now, PARTICIPANT_TIMEOUT_SECS),
                    usernames_of(swept(old(self).registry@, now, PARTICIPANT_TIMEOUT_SECS)),
                    now,
                ),
                old(self).queue.cap(),
            ),
            final(self).history == old(self).history,
            final(self).message_count == old(self).message_count,
            final(self).broadcast_count == old(self).broadcast_count,
            final(self).start_time == old(self).start_time,
            final(self).queue.cap() == old(self).queue.cap(),
            final(self).history.cap() == old(self).history.cap(),
    {
        let ghost q0 = self.queue@;
        let ghost cap = self.queue.cap();
        let pruned = self.registry.sweep(now, PARTICIPANT_TIMEOUT_SECS);
        let ghost reg_after = self.registry@;
        let ghost names = pruned.deep_view();
        let mut i: usize = 0;
        while i < pruned.len()
            invariant
                old(self).wf(),
                i <= names.len(),
                pruned@.len() == names.len(),
                forall|j: int| 0 <= j < names.len() ==> #[trigger] pruned@[j]@ == names[j],
                self.registry@ == reg_after,
                self.registry.wf(),
                self.queue@ == enqueued_up_to(q0, leave_cascade(reg_after, names.take(i as int), now), cap),
                self.queue.cap() == cap,
                q0.len() <= cap,
                self.queue.wf(),
                self.history == old(self).history,
                self.message_count == old(self).message_count,
                self.broadcast_count == old(self).broadcast_count,
                self.start_time == old(self).start_time,
            decreases names.len() - i,
        {
            let ghost q_before = self.queue@;
            let leave = ChatMessage::Leave { username: pruned[i].clone() };
            proof {
                assert(leave@ == (MsgView::Leave { username: names[i as int] }));
            }
            self.broadcast(&leave, None, Priority::High, now);
            proof {
                let batch = fanout(
                    handles_of(reg_after),
                    MsgView::Leave { username: names[i as int] },
                    Priority::High,
                    now,
                );
                lemma_enqueued_compose(q0, leave_cascade(reg_after, names.take(i as int), now), batch, cap);
                assert(names.take(i + 1).drop_last() =~= names.take(i as int));
                assert(names.take(i + 1).last() == names[i as int]);
                assert(leave_cascade(reg_after, names.take(i + 1), now) == leave_cascade(
                    reg_after,
                    names.take(i as int),
                    now,
                ) + batch);
            }
            i = i + 1;
        }
        proof {
            assert(names.take(names.len() as int) =~= names);
        }
        pruned
    }

    /// One state-sync publisher tick: if anything is worth syncing — at
    /// least one participant and at least one history item — snapshots both
    /// and broadcasts the snapshot to every current participant, repairing
    /// whatever events the unreliable transport dropped.
    pub fn sync_tick(&mut self, now: u64)
        requires
            old(self).wf(),
        ensures
            final(self).wf(),
            old(self).registry@.len() == 0 || old(self).history@.len() == 0 ==> *final(self)
                == *old(self),
            old(self).registry@.len() > 0 && old(self).history@.len() > 0 ==> {
                &&& final(self).queue@ == enqueued_up_to(
                    old(self).queue@,
                    fanout(
                        handles_of(old(self).registry@),
                        MsgView::StateSync {
                            history: old(self).history@,
                            participants: usernames_of(old(self).registry@),
                        },
                        Priority::Medium,
                        now,
                    ),
                    old(self).queue.cap(),
                )
                &&& final(self).registry == old(self).registry
                &&& final(self).history == old(self).history
                &&& final(self).message_count == old(self).message_count
                &&& final(self).broadcast_count == old(self).broadcast_count
                &&& final(self).start_time == old(self).start_time
                &&& final(self).queue.cap() == old(self).queue.cap()
            },
    {
        if self.registry.is_empty() || self.history.is_empty() {
            return ;
        }
        let hist_items = self.history.snapshot();
        let parts = self.registry.snapshot();
        let sync = ChatMessage::StateSync { history: hist_items, participants: parts };
        self.broadcast(&sync, None, Priority::Medium, now);
    }

    /// Notes one completed send attempt, for the periodic statistics.
    pub fn record_broadcast(&mut self)
        requires
            old(self).wf(),
        ensures
            final(self).wf(),
            final(self).broadcast_count == bumped(old(self).broadcast_count),
            final(self).registry == old(self).registry,
            final(self).history == old(self).history,
            final(self).queue == old(self).queue,
            final(self).message_count == old(self).message_count,
            final(self).start_time == old(self).start_time,
    {
        self.broadcast_count = bump(self.broadcast_count);
    }
}

/// Bumps a counter by one, stopping at the ceiling instead of wrapping.
fn bump(n: usize) -> (r: usize)
    ensures
        r == bumped(n),
{
    if n == usize::MAX {
        n
    } else {
        n + 1
    }
}

/// The deliveries a join intends to enqueue: first the state-sync reply to
/// the joiner, then the join notice to everyone else.
pub open spec fn join_intent(
    reg_after: Seq<PView>,
    hist: Seq<HistViewData>,
    u: Seq<char>,
    h: u64,
    now: u64,
) -> Seq<DeliveryView> {
    seq![
        DeliveryView {
            payload: MsgView::StateSync { history: hist, participants: usernames_of(reg_after) },
            recipient: h,
            priority: Priority::Medium,
            enqueued_at: now,
        },
    ] + fanout(handles_excl(reg_after, u), MsgView::Join { username: u }, Priority::High, now)
}

/// The deliveries a sweep intends to enqueue: one leave notice per evicted
/// username, each fanned out to all remaining participants, in eviction
/// order.
pub open spec fn leave_cascade(reg_after: Seq<PView>, names: Seq<Seq<char>>, now: u64) -> Seq<
    DeliveryView,
>
    decreases names.len(),
{
    if names.len() == 0 {
        Seq::empty()
    } else {
        leave_cascade(reg_after, names.drop_last(), now) + fanout(
            handles_of(reg_after),
            MsgView::Leave { username: names.last() },
            Priority::High,
            now,
        )
    }
}

/// A broadcast that excludes username `u` never enqueues a delivery
/// addressed to `u`'s own handle `h`, for every registry state — provided
/// no participant other than `u` shares that handle.
pub proof fn lemma_broadcast_excludes_self(
    reg: Seq<PView>,
    u: Seq<char>,
    h: u64,
    payload: MsgView,
    priority: Priority,
    now: u64,
    q: Seq<DeliveryView>,
    cap: int,
)
    requires
        q.len() <= cap,
        forall|i: int| 0 <= i < reg.len() && #[trigger] reg[i].username != u ==> reg[i].handle != h,
    ensures
        ({
            let out = enqueued_up_to(q, fanout(handles_excl(reg, u), payload, priority, now), cap);
            forall|k: int| q.len() <= k < out.len() ==> #[trigger] out[k].recipient != h
        }),
{
    crate::registry::lemma_excluded_handle_absent(reg, u, h);
    let hs = handles_excl(reg, u);
    let intent = fanout(hs, payload, priority, now);
    let out = enqueued_up_to(q, intent, cap);
    assert forall|k: int| q.len() <= k < out.len() implies #[trigger] out[k].recipient != h by {
        let f = fit(cap, q.len() as int, intent.len() as int);
        assert(0 <= f <= intent.len());
        let j = k - q.len();
        assert(0 <= j < f);
        assert(out[k] == intent.take(f)[j]);
        assert(intent.take(f)[j] == intent[j]);
        assert(intent[j].recipient == hs[j]);
        assert(hs[j] != h);
    }
}

} // verus!
