//! The history buffer: a bounded FIFO of recent text events kept for
//! late-joiner catch-up.

use std::collections::VecDeque;
use vstd::prelude::*;

use crate::messages::{HistViewData, HistoryItem};

verus! {

/// The buffer contents after one append: the item goes to the back, and if
/// that would exceed the capacity, the oldest item is evicted first.
pub open spec fn pushed_evicting(s: Seq<HistViewData>, item: HistViewData, cap: int) -> Seq<
    HistViewData,
> {
    let grown = s.push(item);
    if grown.len() > cap {
        grown.subrange(1, grown.len() as int)
    } else {
        grown
    }
}

/// The buffer contents after a whole sequence of appends, starting empty.
pub open spec fn applied_appends(appends: Seq<HistViewData>, cap: int) -> Seq<HistViewData>
    decreases appends.len(),
{
    if appends.len() == 0 {
        Seq::empty()
    } else {
        pushed_evicting(applied_appends(appends.drop_last(), cap), appends.last(), cap)
    }
}

/// For every sequence of appends into an empty buffer of capacity `cap`,
/// the buffer holds the last `cap` items in call order: all of them while
/// they fit, and exactly the newest `cap` once they do not.
pub proof fn lemma_history_fifo(appends: Seq<HistViewData>, cap: int)
    requires
        cap >= 0,
    ensures
        appends.len() <= cap ==> applied_appends(appends, cap) == appends,
        appends.len() >= cap ==> applied_appends(appends, cap) == appends.subrange(
            appends.len() - cap,
            appends.len() as int,
        ),
    decreases appends.len(),
{
    if appends.len() == 0 {
        assert(applied_appends(appends, cap) =~= appends);
        if appends.len() >= cap {
            assert(applied_appends(appends, cap) =~= appends.subrange(
                appends.len() - cap,
                appends.len() as int,
            ));
        }
    } else {
        let d = appends.drop_last();
        lemma_history_fifo(d, cap);
        if appends.len() <= cap {
            assert(applied_appends(appends, cap) =~= appends);
        } else {
            if d.len() < cap {
                assert(applied_appends(appends, cap) =~= appends.subrange(
                    appends.len() - cap,
                    appends.len() as int,
                ));
            } else {
                assert(applied_appends(d, cap) == d.subrange(d.len() - cap, d.len() as int));
                assert(applied_appends(appends, cap) =~= appends.subrange(
                    appends.len() - cap,
                    appends.len() as int,
                ));
            }
        }
    }
}

/// Bounded FIFO of recent text events, in insertion order. The capacity is
/// fixed at construction; appending past it evicts the oldest item.
#[derive(Debug)]
pub struct History {
    items: VecDeque<HistoryItem>,
    capacity: usize,
}

impl View for History {
    type V = Seq<HistViewData>;

    closed spec fn view(&self) -> Seq<HistViewData> {
        self.items.deep_view()
    }
}

impl History {
    /// The fixed capacity the buffer was built with.
    pub closed spec fn cap(&self) -> int {
        self.capacity as int
    }

    /// The buffer never holds more items than its capacity.
    pub open spec fn wf(&self) -> bool {
        self@.len() <= self.cap()
    }

    /// An empty buffer of the given fixed capacity.
    pub fn new(capacity: usize) -> (r: History)
        ensures
            r@ == Seq::<HistViewData>::empty(),
            r.cap() == capacity,
            r.wf(),
    {
        let r = History { items: VecDeque::with_capacity(capacity), capacity };
        proof {
            assert(r@ =~= Seq::<HistViewData>::empty());
        }
        r
    }

    /// How many items the buffer holds.
    pub fn len(&self) -> (r: usize)
        ensures
            r == self@.len(),
    {
        self.items.len()
    }

    /// Whether the buffer holds nothing.
    pub fn is_empty(&self) -> (r: bool)
        ensures
            r == (self@.len() == 0),
    {
        self.items.len() == 0
    }

    /// The capacity the buffer was built with.
    pub fn capacity(&self) -> (r: usize)
        ensures
            r == self.cap(),
    {
        self.capacity
    }

    /// Appends an item; if the buffer is full, the oldest item is evicted
    /// first (strict FIFO).
    pub fn append(&mut self, item: HistoryItem)
        requires
            old(self).wf(),
        ensures
            final(self)@ == pushed_evicting(old(self)@, item@, old(self).cap()),
            final(self).cap() == old(self).cap(),
            final(self).wf(),
    {
        let ghost s = self@;
        let ghost it = item@;
        self.items.push_back(item);
        proof {
            assert(self.items.deep_view() =~= s.push(it));
        }
        if self.items.len() > self.capacity {
            let ghost grown = self.items.deep_view();
            self.items.pop_front();
            proof {
                assert(self.items.deep_view() =~= grown.subrange(1, grown.len() as int));
            }
        }
    }

    /// The items in insertion order, copied out verbatim for state-sync
    /// payloads.
    pub fn snapshot(&self) -> (r: Vec<HistoryItem>)
        ensures
            r.deep_view() == self@,
    {
        let mut r: Vec<HistoryItem> = Vec::new();
        let mut i: usize = 0;
        while i < self.items.len()
            invariant
                i <= self@.len(),
                self.items@.len() == self@.len(),
                r@.len() == i,
                forall|j: int| 0 <= j < i ==> r@[j]@ == self@[j],
            decreases self@.len() - i,
        {
            r.push(self.items[i].clone());
            proof {
                assert(self.items@[i as int]@ == self@[i as int]);
            }
            i = i + 1;
        }
        proof {
            assert(r.deep_view() =~= self@);
        }
        r
    }
}

} // verus!
