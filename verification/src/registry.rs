//! The membership registry: the authoritative map of active participants,
//! their opaque recipient handles and liveness timestamps.

use vstd::prelude::*;

use crate::seqs::{lemma_filter_take_all, lemma_filter_take_step};

verus! {

/// One active participant: a self-asserted username, the transport handle
/// replies are delivered to, and the time of the last inbound event
/// attributed to the username.
#[derive(Debug, PartialEq)]
pub struct Participant {
    pub username: String,
    pub handle: u64,
    pub last_active: u64,
}

/// The abstract value of a participant entry.
pub ghost struct PView {
    pub username: Seq<char>,
    pub handle: u64,
    pub last_active: u64,
}

impl View for Participant {
    type V = PView;

    open spec fn view(&self) -> PView {
        PView { username: self.username@, handle: self.handle, last_active: self.last_active }
    }
}

impl DeepView for Participant {
    type V = PView;

    open spec fn deep_view(&self) -> PView {
        self.view()
    }
}

impl Clone for Participant {
    fn clone(&self) -> (r: Self)
        ensures
            r@ == self@,
    {
        Participant {
            username: self.username.clone(),
            handle: self.handle,
            last_active: self.last_active,
        }
    }
}

/// Whether some entry carries the given username.
pub open spec fn has_user(s: Seq<PView>, u: Seq<char>) -> bool {
    exists|i: int| 0 <= i < s.len() && s[i].username == u
}

/// No two entries carry the same username.
pub open spec fn unique_usernames(s: Seq<PView>) -> bool {
    forall|i: int, j: int| 0 <= i < j < s.len() ==> s[i].username != s[j].username
}

/// The entries that remain when every entry for `u` is taken out.
pub open spec fn without_user(s: Seq<PView>, u: Seq<char>) -> Seq<PView> {
    s.filter(|p: PView| p.username != u)
}

/// Whether an entry has been inactive long enough to be evicted.
pub open spec fn is_expired(p: PView, now: u64, timeout: u64) -> bool {
    p.last_active <= now && now - p.last_active >= timeout
}

/// The entries that survive a sweep at time `now`.
pub open spec fn surviving(s: Seq<PView>, now: u64, timeout: u64) -> Seq<PView> {
    s.filter(|p: PView| !is_expired(p, now, timeout))
}

/// The entries a sweep at time `now` evicts.
pub open spec fn swept(s: Seq<PView>, now: u64, timeout: u64) -> Seq<PView> {
    s.filter(|p: PView| is_expired(p, now, timeout))
}

/// The usernames of the entries, in entry order.
pub open spec fn usernames_of(s: Seq<PView>) -> Seq<Seq<char>> {
    s.map_values(|p: PView| p.username)
}

/// The handles of the entries, in entry order.
pub open spec fn handles_of(s: Seq<PView>) -> Seq<u64> {
    s.map_values(|p: PView| p.handle)
}

/// The handles of every entry whose username is not `u`, in entry order.
pub open spec fn handles_excl(s: Seq<PView>, u: Seq<char>) -> Seq<u64> {
    handles_of(without_user(s, u))
}

/// The state of the registry after an upsert: every old entry for the
/// username is dropped and one fresh entry is appended.
pub open spec fn upserted(s: Seq<PView>, u: Seq<char>, handle: u64, now: u64) -> Seq<PView> {
    without_user(s, u).push(PView { username: u, handle, last_active: now })
}

/// A filtered sequence keeps only values of the original, and keeps
/// usernames unique if they were.
pub proof fn lemma_filter_keeps(s: Seq<PView>, pred: spec_fn(PView) -> bool)
    ensures
        forall|i: int|
            0 <= i < s.filter(pred).len() ==> #[trigger] s.contains(s.filter(pred)[i]),
        unique_usernames(s) ==> unique_usernames(s.filter(pred)),
    decreases s.len(),
{
    reveal(Seq::filter);
    if s.len() > 0 {
        let d = s.drop_last();
        lemma_filter_keeps(d, pred);
        assert(forall|i: int| 0 <= i < d.len() ==> d[i] == s[i]);
        assert(forall|i: int| 0 <= i < d.len() && d.contains(d[i]) ==> s.contains(d[i]));
        assert(forall|v: PView| d.contains(v) ==> s.contains(v));
        if unique_usernames(s) {
            assert(unique_usernames(d));
            let f = s.filter(pred);
            let fd = d.filter(pred);
            if pred(s.last()) {
                assert(f == fd.push(s.last()));
                assert forall|i: int, j: int| 0 <= i < j < f.len() implies f[i].username
                    != f[j].username by {
                    if j < f.len() - 1 {
                        assert(f[i] == fd[i] && f[j] == fd[j]);
                    } else {
                        assert(f[i] == fd[i]);
                        assert(d.contains(fd[i]));
                        let k = choose|k: int| 0 <= k < d.len() && d[k] == fd[i];
                        assert(s[k] == fd[i]);
                        assert(s[k].username != s[s.len() - 1].username);
                    }
                }
            }
        }
    }
}

/// Membership in a filtered sequence: an entry for a username the filter
/// keeps is present exactly when it was present before.
pub proof fn lemma_without_user_has(s: Seq<PView>, u: Seq<char>, v: Seq<char>)
    ensures
        !has_user(without_user(s, u), u),
        v != u ==> has_user(without_user(s, u), v) == has_user(s, v),
    decreases s.len(),
{
    reveal(Seq::filter);
    lemma_filter_keeps(s, |p: PView| p.username != u);
    let w = without_user(s, u);
    assert forall|i: int| 0 <= i < w.len() implies w[i].username != u by {
        s.lemma_filter_pred(|p: PView| p.username != u, i);
    }
    if s.len() > 0 {
        lemma_without_user_has(s.drop_last(), u, v);
        assert(s.drop_last().push(s.last()) =~= s);
        if s.last().username != u {
            assert(w == without_user(s.drop_last(), u).push(s.last()));
        } else {
            assert(w == without_user(s.drop_last(), u));
        }
        if v != u {
            let d = s.drop_last();
            let wd = without_user(d, u);
            if has_user(s, v) {
                let i = choose|i: int| 0 <= i < s.len() && s[i].username == v;
                if i < d.len() {
                    assert(d[i] == s[i]);
                    assert(has_user(d, v));
                    let j = choose|j: int| 0 <= j < wd.len() && wd[j].username == v;
                    if s.last().username != u {
                        assert(w[j] == wd[j]);
                    }
                    assert(has_user(w, v));
                } else {
                    assert(s.last().username == v);
                    assert(w[w.len() - 1] == s.last());
                    assert(has_user(w, v));
                }
            }
            if has_user(w, v) {
                let i = choose|i: int| 0 <= i < w.len() && w[i].username == v;
                assert(s.contains(w[i]));
                let k = choose|k: int| 0 <= k < s.len() && s[k] == w[i];
                assert(has_user(s, v));
            }
        }
    } else {
        assert(w =~= s);
    }
}

/// Membership tracking of active participants and liveness timestamps.
/// Its abstract value is the sequence of entries in insertion order; no
/// ordering among usernames is promised to callers beyond consistency with
/// the current snapshot.
#[derive(Debug)]
pub struct Registry {
    entries: Vec<Participant>,
}

impl View for Registry {
    type V = Seq<PView>;

    closed spec fn view(&self) -> Seq<PView> {
        self.entries.deep_view()
    }
}

impl Registry {
    /// The registry invariant: at most one live entry per username.
    pub open spec fn wf(&self) -> bool {
        unique_usernames(self@)
    }

    /// An empty registry.
    pub fn new() -> (r: Registry)
        ensures
            r@ == Seq::<PView>::empty(),
            r.wf(),
    {
        let r = Registry { entries: Vec::new() };
        proof {
            assert(r@ =~= Seq::<PView>::empty());
        }
        r
    }

    /// How many participants are registered.
    pub fn len(&self) -> (r: usize)
        ensures
            r == self@.len(),
    {
        self.entries.len()
    }

    /// Whether no participant is registered.
    pub fn is_empty(&self) -> (r: bool)
        ensures
            r == (self@.len() == 0),
    {
        self.entries.len() == 0
    }

    /// Removes the entry for `username`, if any; reports whether one was
    /// there.
    pub fn remove(&mut self, username: &str) -> (r: bool)
        requires
            old(self).wf(),
        ensures
            final(self)@ == without_user(old(self)@, username@),
            r == has_user(old(self)@, username@),
            final(self).wf(),
    {
        let ghost s = self@;
        let ghost u = username@;
        let uname: String = username.to_owned();
        let mut kept: Vec<Participant> = Vec::new();
        let mut found = false;
        let mut i: usize = 0;
        while i < self.entries.len()
            invariant
                i <= self@.len(),
                self@ == s,
                self.entries@.len() == s.len(),
                kept.deep_view() == without_user(s.take(i as int), u),
                found == has_user(s.take(i as int), u),
                uname@ == u,
            decreases self@.len() - i,
        {
            let ghost prev = kept.deep_view();
            let entry = &self.entries[i];
            proof {
                assert(entry@ == s[i as int]);
                lemma_filter_take_step(s, |p: PView| p.username != u, i as int);
            }
            if entry.username == uname {
                found = true;
                proof {
                    assert(s.take(i + 1)[i as int].username == u);
                    assert(has_user(s.take(i + 1), u));
                }
            } else {
                kept.push(entry.clone());
                proof {
                    assert(kept.deep_view() =~= prev.push(s[i as int]));
                }
            }
            proof {
                if has_user(s.take(i + 1), u) && s[i as int].username != u {
                    let k = choose|k: int|
                        0 <= k < s.take(i + 1).len() && #[trigger] s.take(i + 1)[k].username == u;
                    if k < i {
                        assert(s.take(i as int)[k].username == u);
                        assert(has_user(s.take(i as int), u));
                    }
                }
            }
            i = i + 1;
        }
        proof {
            assert(s.take(s.len() as int) =~= s);
            lemma_filter_take_all(s, |p: PView| p.username != u);
            lemma_filter_keeps(s, |p: PView| p.username != u);
        }
        self.entries = kept;
        found
    }

    /// Inserts or replaces the entry for `username`: a later join for an
    /// existing username overwrites the handle and the liveness timestamp.
    pub fn upsert(&mut self, username: &str, handle: u64, now: u64)
        requires
            old(self).wf(),
        ensures
            final(self)@ == upserted(old(self)@, username@, handle, now),
            final(self).wf(),
    {
        let ghost s = self@;
        let ghost u = username@;
        self.remove(username);
        let entry = Participant { username: username.to_owned(), handle, last_active: now };
        proof {
            assert(entry@ == (PView { username: u, handle, last_active: now }));
            lemma_without_user_has(s, u, u);
            lemma_filter_keeps(s, |p: PView| p.username != u);
            let w = without_user(s, u);
            assert forall|i: int, j: int|
                0 <= i < j < w.push(entry@).len() implies w.push(entry@)[i].username != w.push(
                entry@,
            )[j].username by {
                if j < w.len() {
                    assert(w.push(entry@)[i] == w[i] && w.push(entry@)[j] == w[j]);
                } else {
                    assert(w.push(entry@)[i] == w[i]);
                    assert(!has_user(w, u));
                    assert(w[i].username != u);
                }
            }
        }
        self.entries.push(entry);
        proof {
            assert(final(self)@ =~= upserted(s, u, handle, now));
        }
    }

    /// Refreshes the liveness timestamp of `username`, if registered; a
    /// no-op otherwise.
    pub fn touch(&mut self, username: &str, now: u64)
        requires
            old(self).wf(),
        ensures
            final(self)@ == touched(old(self)@, username@, now),
            final(self).wf(),
    {
        let ghost s = self@;
        let ghost u = username@;
        let uname: String = username.to_owned();
        let mut out: Vec<Participant> = Vec::new();
        let mut i: usize = 0;
        while i < self.entries.len()
            invariant
                i <= self@.len(),
                self@ == s,
                self.entries@.len() == s.len(),
                uname@ == u,
                out@.len() == i,
                forall|j: int| 0 <= j < i ==> out@[j]@ == touched(s, u, now)[j],
            decreases self@.len() - i,
        {
            let entry = &self.entries[i];
            proof {
                assert(entry@ == s[i as int]);
            }
            if entry.username == uname {
                out.push(
                    Participant {
                        username: entry.username.clone(),
                        handle: entry.handle,
                        last_active: now,
                    },
                );
            } else {
                out.push(entry.clone());
            }
            i = i + 1;
        }
        self.entries = out;
        proof {
            assert(final(self)@ =~= touched(s, u, now));
            let t = touched(s, u, now);
            assert forall|i: int, j: int| 0 <= i < j < t.len() implies t[i].username
                != t[j].username by {
                assert(t[i].username == s[i].username);
                assert(t[j].username == s[j].username);
            }
        }
    }

    /// The usernames of all current participants, in entry order.
    pub fn snapshot(&self) -> (r: Vec<String>)
        ensures
            r.deep_view() == usernames_of(self@),
    {
        let mut r: Vec<String> = Vec::new();
        let mut i: usize = 0;
        while i < self.entries.len()
            invariant
                i <= self@.len(),
                self.entries@.len() == self@.len(),
                r@.len() == i,
                forall|j: int| 0 <= j < i ==> r@[j]@ == self@[j].username,
            decreases self@.len() - i,
        {
            r.push(self.entries[i].username.clone());
            i = i + 1;
        }
        proof {
            assert(r.deep_view() =~= usernames_of(self@));
        }
        r
    }

    /// The handles of all current participants, in entry order.
    pub fn handles(&self) -> (r: Vec<u64>)
        ensures
            r@ == handles_of(self@),
    {
        let mut r: Vec<u64> = Vec::new();
        let mut i: usize = 0;
        while i < self.entries.len()
            invariant
                i <= self@.len(),
                self.entries@.len() == self@.len(),
                r@.len() == i,
                forall|j: int| 0 <= j < i ==> r@[j] == self@[j].handle,
            decreases self@.len() - i,
        {
            r.push(self.entries[i].handle);
            i = i + 1;
        }
        proof {
            assert(r@ =~= handles_of(self@));
        }
        r
    }

    /// The handles of every participant other than `exclude`, in entry
    /// order: the fan-out set of a broadcast that skips its originator.
    pub fn handles_excluding(&self, exclude: &str) -> (r: Vec<u64>)
        ensures
            r@ == handles_excl(self@, exclude@),
    {
        let ghost s = self@;
        let ghost u = exclude@;
        let uname: String = exclude.to_owned();
        let mut r: Vec<u64> = Vec::new();
        let mut i: usize = 0;
        while i < self.entries.len()
            invariant
                i <= self@.len(),
                self@ == s,
                self.entries@.len() == s.len(),
                uname@ == u,
                r@ == handles_excl(s.take(i as int), u),
            decreases self@.len() - i,
        {
            let entry = &self.entries[i];
            proof {
                assert(entry@ == s[i as int]);
                lemma_filter_take_step(s, |p: PView| p.username != u, i as int);
            }
            let ghost prev = r@;
            if !(entry.username == uname) {
                r.push(entry.handle);
                proof {
                    assert(handles_excl(s.take(i + 1), u) =~= prev.push(s[i as int].handle));
                }
            } else {
                proof {
                    assert(handles_excl(s.take(i + 1), u) =~= prev);
                }
            }
            i = i + 1;
        }
        proof {
            assert(s.take(s.len() as int) =~= s);
        }
        r
    }

    /// A copy of all entries, in entry order, for inspection and
    /// statistics.
    pub fn entries(&self) -> (r: Vec<Participant>)
        ensures
            r.deep_view() == self@,
    {
        let mut r: Vec<Participant> = Vec::new();
        let mut i: usize = 0;
        while i < self.entries.len()
            invariant
                i <= self@.len(),
                self.entries@.len() == self@.len(),
                r@.len() == i,
                forall|j: int| 0 <= j < i ==> r@[j]@ == self@[j],
            decreases self@.len() - i,
        {
            r.push(self.entries[i].clone());
            i = i + 1;
        }
        proof {
            assert(r.deep_view() =~= self@);
        }
        r
    }

    /// Atomically removes and returns all participants whose inactivity has
    /// reached the timeout: entries with `now - last_active >= timeout` go,
    /// every other entry keeps its handle and timestamp unchanged.
    pub fn sweep(&mut self, now: u64, timeout: u64) -> (r: Vec<String>)
        requires
            old(self).wf(),
        ensures
            final(self)@ == surviving(old(self)@, now, timeout),
            r.deep_view() == usernames_of(swept(old(self)@, now, timeout)),
            final(self).wf(),
    {
        let ghost s = self@;
        let mut kept: Vec<Participant> = Vec::new();
        let mut pruned: Vec<String> = Vec::new();
        let mut i: usize = 0;
        while i < self.entries.len()
            invariant
                i <= self@.len(),
                self@ == s,
                self.entries@.len() == s.len(),
                kept.deep_view() == surviving(s.take(i as int), now, timeout),
                pruned.deep_view() == usernames_of(swept(s.take(i as int), now, timeout)),
            decreases self@.len() - i,
        {
            let entry = &self.entries[i];
            proof {
                assert(entry@ == s[i as int]);
                lemma_filter_take_step(s, |p: PView| !is_expired(p, now, timeout), i as int);
                lemma_filter_take_step(s, |p: PView| is_expired(p, now, timeout), i as int);
            }
            let ghost prev_kept = kept.deep_view();
            let ghost prev_pruned = pruned.deep_view();
            let expired = entry.last_active <= now && now - entry.last_active >= timeout;
            if expired {
                pruned.push(entry.username.clone());
                proof {
                    assert(pruned.deep_view() =~= prev_pruned.push(s[i as int].username));
                    assert(usernames_of(swept(s.take(i + 1), now, timeout)) =~= usernames_of(
                        swept(s.take(i as int), now, timeout),
                    ).push(s[i as int].username));
                    assert(kept.deep_view() =~= surviving(s.take(i + 1), now, timeout));
                }
            } else {
                kept.push(entry.clone());
                proof {
                    assert(kept.deep_view() =~= surviving(s.take(i + 1), now, timeout));
                    assert(pruned.deep_view() =~= usernames_of(swept(s.take(i + 1), now, timeout)));
                }
            }
            i = i + 1;
        }
        proof {
            assert(s.take(s.len() as int) =~= s);
            lemma_filter_keeps(s, |p: PView| !is_expired(p, now, timeout));
        }
        self.entries = kept;
        pruned
    }
}

/// The state of the registry after a liveness refresh: the entry for the
/// username keeps its handle and takes the new timestamp; every other entry
/// is untouched.
pub open spec fn touched(s: Seq<PView>, u: Seq<char>, now: u64) -> Seq<PView> {
    s.map_values(
        |p: PView|
            if p.username == u {
                PView { username: p.username, handle: p.handle, last_active: now }
            } else {
                p
            },
    )
}

/// The entries that carry the given username.
pub open spec fn entries_for(s: Seq<PView>, u: Seq<char>) -> Seq<PView> {
    s.filter(|p: PView| p.username == u)
}

/// A sequence none of whose entries carries `u` filters down to nothing.
proof fn lemma_entries_for_none(s: Seq<PView>, u: Seq<char>)
    requires
        forall|i: int| 0 <= i < s.len() ==> s[i].username != u,
    ensures
        entries_for(s, u) == Seq::<PView>::empty(),
    decreases s.len(),
{
    reveal(Seq::filter);
    if s.len() > 0 {
        lemma_entries_for_none(s.drop_last(), u);
    } else {
        assert(entries_for(s, u) =~= Seq::<PView>::empty());
    }
}

/// A join from a username followed by a join from the same username with a
/// different handle leaves exactly one entry for that username, carrying
/// the newer handle and timestamp.
pub proof fn lemma_rejoin_replaces(
    s: Seq<PView>,
    u: Seq<char>,
    h1: u64,
    t1: u64,
    h2: u64,
    t2: u64,
)
    ensures
        entries_for(upserted(upserted(s, u, h1, t1), u, h2, t2), u) == seq![
            PView { username: u, handle: h2, last_active: t2 },
        ],
{
    reveal(Seq::filter);
    let mid = upserted(s, u, h1, t1);
    let w = without_user(mid, u);
    lemma_without_user_has(mid, u, u);
    assert forall|i: int| 0 <= i < w.len() implies w[i].username != u by {
        mid.lemma_filter_pred(|p: PView| p.username != u, i);
    }
    lemma_entries_for_none(w, u);
    let fin = upserted(mid, u, h2, t2);
    let entry = PView { username: u, handle: h2, last_active: t2 };
    assert(fin == w.push(entry));
    assert(fin.drop_last() =~= w);
    assert(fin.last() == entry);
    assert(entries_for(fin, u) =~= seq![entry]);
}

/// If no participant other than `u` shares the handle `h`, then `h` is not
/// among the handles a broadcast excluding `u` fans out to.
pub proof fn lemma_excluded_handle_absent(s: Seq<PView>, u: Seq<char>, h: u64)
    requires
        forall|i: int| 0 <= i < s.len() && s[i].username != u ==> s[i].handle != h,
    ensures
        forall|k: int| 0 <= k < handles_excl(s, u).len() ==> handles_excl(s, u)[k] != h,
{
    lemma_filter_keeps(s, |p: PView| p.username != u);
    let w = without_user(s, u);
    assert forall|k: int| 0 <= k < handles_excl(s, u).len() implies handles_excl(s, u)[k]
        != h by {
        assert(handles_excl(s, u)[k] == w[k].handle);
        s.lemma_filter_pred(|p: PView| p.username != u, k);
        assert(w[k].username != u);
        assert(s.contains(w[k]));
        let j = choose|j: int| 0 <= j < s.len() && s[j] == w[k];
        assert(s[j].handle != h);
    }
}

} // verus!
