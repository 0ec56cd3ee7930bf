use vstd::prelude::*;

use crate::paths::str_eq;

verus! {

/// A queued persistence request: target path, serialized payload, and the
/// debounce policy.  `None` means the write is flushed at once; `Some(d)`
/// delays it by `d` time units, coalescing with later writes to the path.
pub struct WriteConfigRequest {
    pub path: String,
    pub config: String,
    pub debounce: Option<u64>,
}

/// Ghost image of a [`WriteConfigRequest`].
#[verifier::ext_equal]
pub struct RequestView {
    pub path: Seq<char>,
    pub config: Seq<char>,
    pub debounce: Option<u64>,
}

impl View for WriteConfigRequest {
    type V = RequestView;

    open spec fn view(&self) -> RequestView {
        RequestView { path: self.path@, config: self.config@, debounce: self.debounce }
    }
}

/// The queued entries as ghost pairs of expiry time and request.
pub open spec fn entries_view(s: Seq<(u64, WriteConfigRequest)>) -> Seq<(u64, RequestView)> {
    s.map_values(|e: (u64, WriteConfigRequest)| (e.0, e.1@))
}

/// Index of the first entry for `path`, or `-1` if there is none.
pub open spec fn queue_index(q: Seq<(u64, RequestView)>, path: Seq<char>) -> int
    decreases q.len(),
{
    if q.len() == 0 {
        -1
    } else if q[0].1.path == path {
        0
    } else {
        let r = queue_index(q.subrange(1, q.len() as int), path);
        if r < 0 {
            -1
        } else {
            r + 1
        }
    }
}

pub proof fn lemma_queue_index(q: Seq<(u64, RequestView)>, path: Seq<char>)
    ensures
        -1 <= queue_index(q, path) < q.len(),
        queue_index(q, path) >= 0 ==> q[queue_index(q, path)].1.path == path,
        queue_index(q, path) < 0 ==> forall|i: int| 0 <= i < q.len() ==> q[i].1.path != path,
        forall|i: int| 0 <= i < queue_index(q, path) ==> q[i].1.path != path,
    decreases q.len(),
{
    if q.len() > 0 && q[0].1.path != path {
        let sub = q.subrange(1, q.len() as int);
        lemma_queue_index(sub, path);
        assert forall|i: int| 1 <= i < q.len() implies q[i] == sub[i - 1] by {}
    }
}

/// The first match is the one `queue_index` names.
pub proof fn lemma_queue_index_of_first(q: Seq<(u64, RequestView)>, path: Seq<char>, j: int)
    requires
        0 <= j < q.len(),
        q[j].1.path == path,
        forall|i: int| 0 <= i < j ==> q[i].1.path != path,
    ensures
        queue_index(q, path) == j,
    decreases q.len(),
{
    if j > 0 {
        let sub = q.subrange(1, q.len() as int);
        assert forall|i: int| 1 <= i < q.len() implies q[i] == sub[i - 1] by {}
        lemma_queue_index_of_first(sub, path, j - 1);
    }
}

/// One enqueue step: an undebounced request passes straight through; a
/// debounced one is stored under its path, replacing any undelivered entry
/// for the same path together with that entry's expiry.
pub open spec fn spec_enqueue(q: Seq<(u64, RequestView)>, now: u64, r: RequestView) -> (Seq<
    (u64, RequestView),
>, Option<RequestView>) {
    match r.debounce {
        None => (q, Some(r)),
        Some(d) => {
            let entry = ((now + d) as u64, r);
            let j = queue_index(q, r.path);
            if j < 0 {
                (q.push(entry), None)
            } else {
                (q.update(j, entry), None)
            }
        },
    }
}

/// Whether an entry is due at `now`.
pub open spec fn is_due(e: (u64, RequestView), now: u64) -> bool {
    e.0 <= now
}

/// The paths of the queued entries are pairwise distinct.
pub open spec fn unique_paths(q: Seq<(u64, RequestView)>) -> bool {
    forall|i: int, j: int|
        0 <= i < j < q.len() ==> (#[trigger] q[i]).1.path != (#[trigger] q[j]).1.path
}

/// Law: two debounced writes to the same path coalesce.  Starting from a
/// queue with no entry for the path, after both writes the queue holds
/// exactly one entry for it — the later request with the later expiry —
/// neither write reached storage on its own, and entries for other paths
/// are untouched.  A later sweep therefore flushes the latest value once.
pub proof fn lemma_debounced_writes_coalesce(
    q: Seq<(u64, RequestView)>,
    t1: u64,
    r1: RequestView,
    t2: u64,
    r2: RequestView,
)
    requires
        queue_index(q, r1.path) < 0,
        r1.debounce is Some,
        r2.debounce is Some,
        r1.path == r2.path,
    ensures
        ({
            let (q1, f1) = spec_enqueue(q, t1, r1);
            let (q2, f2) = spec_enqueue(q1, t2, r2);
            &&& f1 is None
            &&& f2 is None
            &&& q2.len() == q.len() + 1
            &&& queue_index(q2, r2.path) == q.len()
            &&& q2[q.len() as int] == (((t2 + r2.debounce->0) as u64, r2))
            &&& forall|i: int| 0 <= i < q.len() ==> q2[i] == q[i]
        }),
{
    let (q1, f1) = spec_enqueue(q, t1, r1);
    let (q2, f2) = spec_enqueue(q1, t2, r2);
    lemma_queue_index(q, r1.path);
    assert(q1 == q.push((((t1 + r1.debounce->0) as u64, r1))));
    lemma_queue_index_of_first(q1, r1.path, q.len() as int);
    assert(q2 == q1.update(q.len() as int, (((t2 + r2.debounce->0) as u64, r2))));
    lemma_queue_index_of_first(q2, r2.path, q.len() as int);
}

/// No element of `s` carries path `p`: a sweep of `s` flushes nothing for
/// that path.
proof fn lemma_no_entry_no_flush(s: Seq<(u64, RequestView)>, p: Seq<char>, now: u64)
    requires
        forall|i: int| 0 <= i < s.len() ==> (#[trigger] s[i]).1.path != p,
    ensures
        s.filter(|e: (u64, RequestView)| is_due(e, now)).map_values(
            |e: (u64, RequestView)| e.1,
        ).filter(|r: RequestView| r.path == p) =~= Seq::<RequestView>::empty(),
    decreases s.len(),
{
    reveal_with_fuel(Seq::filter, 2);
    if s.len() > 0 {
        let rest = s.drop_last();
        let l = s.last();
        assert forall|i: int| 0 <= i < rest.len() implies (#[trigger] rest[i]).1.path != p by {
            assert(rest[i] == s[i]);
        }
        lemma_no_entry_no_flush(rest, p, now);
        let due = |e: (u64, RequestView)| is_due(e, now);
        let proj = |e: (u64, RequestView)| e.1;
        let carries = |r: RequestView| r.path == p;
        if is_due(l, now) {
            assert(s.filter(due) =~= rest.filter(due).push(l));
            assert(s.filter(due).map_values(proj) =~= rest.filter(due).map_values(proj).push(
                l.1,
            ));
            let m = rest.filter(due).map_values(proj);
            assert(m.push(l.1).drop_last() =~= m);
            assert(l.1.path != p);
            assert(m.push(l.1).filter(carries) =~= m.filter(carries));
            assert(s.filter(due).map_values(proj).filter(carries) =~= Seq::<
                RequestView,
            >::empty());
        } else {
            assert(s.filter(due) =~= rest.filter(due));
        }
    }
}

/// Law (coalescing, end to end): two debounced writes to one path, the
/// second arriving within the first's debounce window, reach storage as
/// exactly one write for that path once a sweep runs past the second
/// expiry — and that write carries the later payload; the earlier payload
/// is never written.
pub proof fn lemma_coalesced_writes_flush_once(
    q: Seq<(u64, RequestView)>,
    t1: u64,
    r1: RequestView,
    t2: u64,
    r2: RequestView,
    now: u64,
)
    requires
        queue_index(q, r1.path) < 0,
        r1.debounce is Some,
        r2.debounce is Some,
        t1 + r1.debounce->0 <= u64::MAX,
        t2 + r2.debounce->0 <= u64::MAX,
        t1 <= t2 <= t1 + r1.debounce->0,
        now >= t2 + r2.debounce->0,
        r1.path == r2.path,
    ensures
        ({
            let first = spec_enqueue(q, t1, r1);
            let second = spec_enqueue(first.0, t2, r2);
            let flushed = second.0.filter(|e: (u64, RequestView)| is_due(e, now)).map_values(
                |e: (u64, RequestView)| e.1,
            );
            &&& first.1 is None
            &&& second.1 is None
            &&& flushed.filter(|r: RequestView| r.path == r2.path) =~= seq![r2]
        }),
{
    reveal_with_fuel(Seq::filter, 2);
    lemma_debounced_writes_coalesce(q, t1, r1, t2, r2);
    lemma_queue_index(q, r1.path);
    let q2 = spec_enqueue(spec_enqueue(q, t1, r1).0, t2, r2).0;
    let e2 = (((t2 + r2.debounce->0) as u64, r2));
    assert(q2 =~= q.push(e2));
    let due = |e: (u64, RequestView)| is_due(e, now);
    let proj = |e: (u64, RequestView)| e.1;
    let carries = |r: RequestView| r.path == r2.path;
    assert(is_due(e2, now));
    assert(q2.drop_last() =~= q);
    assert(q2.filter(due) =~= q.filter(due).push(e2));
    assert(q2.filter(due).map_values(proj) =~= q.filter(due).map_values(proj).push(r2));
    lemma_no_entry_no_flush(q, r2.path, now);
    let m = q.filter(due).map_values(proj);
    assert(m.push(r2).drop_last() =~= m);
    assert(m.filter(carries) =~= Seq::<RequestView>::empty());
    assert(m.push(r2).filter(carries) =~= seq![r2]);
    assert(q2.filter(due).map_values(proj).filter(carries) =~= seq![r2]);
}

/// The debounced, coalescing persistence queue: at most one pending write
/// per path; a periodic sweep flushes the entries whose expiry has passed.
pub struct PersistenceQueue {
    pub entries: Vec<(u64, WriteConfigRequest)>,
}

impl View for PersistenceQueue {
    type V = Seq<(u64, RequestView)>;

    open spec fn view(&self) -> Seq<(u64, RequestView)> {
        entries_view(self.entries@)
    }
}

impl PersistenceQueue {
    pub open spec fn inv(self) -> bool {
        unique_paths(self@)
    }

    /// An empty queue.
    pub fn new() -> (r: Self)
        ensures
            r.inv(),
            r@ =~= Seq::<(u64, RequestView)>::empty(),
    {
        let r = Self { entries: Vec::new() };
        proof {
            assert(r@ =~= Seq::<(u64, RequestView)>::empty());
        }
        r
    }

    /// Index of the pending entry for `path`, if any.
    fn find_path(&self, path: &str) -> (r: Option<usize>)
        ensures
            match r {
                Some(j) => j < self.entries@.len() && queue_index(self@, path@) == j as int,
                None => queue_index(self@, path@) == -1,
            },
    {
        let n = self.entries.len();
        let mut j: usize = 0;
        while j < n
            invariant
                0 <= j <= n,
                n == self.entries@.len(),
                forall|i: int| 0 <= i < j ==> self@[i].1.path != path@,
            decreases n - j,
        {
            if str_eq(self.entries[j].1.path.as_str(), path) {
                proof {
                    lemma_queue_index_of_first(self@, path@, j as int);
                }
                return Some(j);
            }
            j = j + 1;
        }
        proof {
            lemma_queue_index(self@, path@);
            if queue_index(self@, path@) >= 0 {
                assert(self@[queue_index(self@, path@)].1.path == path@);
            }
        }
        None
    }

    /// Accepts one request, exactly as [`spec_enqueue`] describes: the
    /// returned request, if any, must be written to durable storage by the
    /// caller right away; a debounced request replaces any pending entry
    /// for the same path.
    pub fn enqueue(&mut self, now: u64, req: WriteConfigRequest) -> (flush: Option<
        WriteConfigRequest,
    >)
        requires
            old(self).inv(),
            req@.debounce matches Some(d) ==> now + d <= u64::MAX,
        ensures
            final(self).inv(),
            ({
                let (q2, f) = spec_enqueue(old(self)@, now, req@);
                &&& final(self)@ == q2
                &&& match flush {
                    Some(r) => f == Some(r@),
                    None => f is None,
                }
            }),
    {
        let ghost q = self@;
        match req.debounce {
            None => Some(req),
            Some(d) => {
                let exp = now + d;
                match self.find_path(req.path.as_str()) {
                    None => {
                        let ghost pre = self.entries@;
                        self.entries.push((exp, req));
                        proof {
                            assert(self@ =~= entries_view(pre).push((exp, req@)));
                            lemma_queue_index(q, req@.path);
                            assert forall|i: int, k: int|
                                0 <= i < k < self@.len() implies (#[trigger] self@[i]).1.path != (
                                #[trigger] self@[k]).1.path by {
                                if k < q.len() {
                                } else {
                                    assert(self@[k] == (exp, req@));
                                }
                            }
                        }
                        None
                    },
                    Some(j) => {
                        let ghost pre = self.entries@;
                        self.entries.set(j, (exp, req));
                        proof {
                            assert(self@ =~= entries_view(pre).update(j as int, (exp, req@)));
                            lemma_queue_index(q, req@.path);
                            assert forall|i: int, k: int|
                                0 <= i < k < self@.len() implies (#[trigger] self@[i]).1.path != (
                                #[trigger] self@[k]).1.path by {
                                assert(q[i].1.path != q[k].1.path);
                            }
                        }
                        None
                    },
                }
            },
        }
    }

    /// Flushes every entry whose expiry has passed; the caller writes the
    /// returned requests to durable storage.  Entries that are not due yet
    /// stay queued, in order.
    pub fn sweep(&mut self, now: u64) -> (flushed: Vec<WriteConfigRequest>)
        requires
            old(self).inv(),
        ensures
            final(self).inv(),
            final(self)@ == old(self)@.filter(|e: (u64, RequestView)| !is_due(e, now)),
            flushed@.map_values(|r: WriteConfigRequest| r@) == old(self)@.filter(
                |e: (u64, RequestView)| is_due(e, now),
            ).map_values(|e: (u64, RequestView)| e.1),
    {
        let ghost q = self@;
        let mut kept: Vec<(u64, WriteConfigRequest)> = Vec::new();
        let mut flushed: Vec<WriteConfigRequest> = Vec::new();
        let ghost processed: int = 0;
        proof {
            assert(q.subrange(0, 0) =~= Seq::<(u64, RequestView)>::empty());
            assert(Seq::<(u64, RequestView)>::empty().filter(
                |e: (u64, RequestView)| !is_due(e, now),
            ) =~= Seq::<(u64, RequestView)>::empty());
            assert(Seq::<(u64, RequestView)>::empty().filter(
                |e: (u64, RequestView)| is_due(e, now),
            ) =~= Seq::<(u64, RequestView)>::empty());
        }
        let n = self.entries.len();
        let mut i: usize = 0;
        while i < n
            invariant
                0 <= i <= n,
                n == self.entries@.len(),
                q == entries_view(self.entries@),
                unique_paths(q),
                entries_view(kept@) =~= q.subrange(0, i as int).filter(
                    |e: (u64, RequestView)| !is_due(e, now),
                ),
                flushed@.map_values(|r: WriteConfigRequest| r@) =~= q.subrange(0, i as int).filter(
                    |e: (u64, RequestView)| is_due(e, now),
                ).map_values(|e: (u64, RequestView)| e.1),
            decreases n - i,
        {
            let ghost prefix = q.subrange(0, i as int);
            let ghost prefix2 = q.subrange(0, i + 1);
            proof {
                assert(prefix2.drop_last() =~= prefix);
                assert(prefix2.last() == q[i as int]);
                reveal_with_fuel(Seq::filter, 2);
            }
            let e = self.entries[i].0;
            let due = e <= now;
            if due {
                let ghost pre = flushed@;
                let (_, r) = self.read_entry(i);
                flushed.push(r);
                proof {
                    assert(flushed@ =~= pre.push(self.entries@[i as int].1));
                    assert(flushed@.map_values(|r: WriteConfigRequest| r@) =~= pre.map_values(
                        |r: WriteConfigRequest| r@,
                    ).push(q[i as int].1));
                    assert(prefix2.filter(|e: (u64, RequestView)| is_due(e, now)) =~= prefix.filter(
                        |e: (u64, RequestView)| is_due(e, now),
                    ).push(q[i as int]));
                    assert(prefix2.filter(|e: (u64, RequestView)| !is_due(e, now)) =~= prefix.filter(
                        |e: (u64, RequestView)| !is_due(e, now),
                    ));
                }
            } else {
                let ghost pre = kept@;
                let (exp, r) = self.read_entry(i);
                kept.push((exp, r));
                proof {
                    assert(kept@ =~= pre.push(self.entries@[i as int]));
                    assert(entries_view(kept@) =~= entries_view(pre).push(q[i as int]));
                    assert(prefix2.filter(|e: (u64, RequestView)| !is_due(e, now)) =~= prefix.filter(
                        |e: (u64, RequestView)| !is_due(e, now),
                    ).push(q[i as int]));
                    assert(prefix2.filter(|e: (u64, RequestView)| is_due(e, now)) =~= prefix.filter(
                        |e: (u64, RequestView)| is_due(e, now),
                    ));
                }
            }
            i = i + 1;
        }
        proof {
            assert(q.subrange(0, n as int) =~= q);
        }
        self.entries = kept;
        proof {
            let keep_filter = |e: (u64, RequestView)| !is_due(e, now);
            assert(self@ == q.filter(keep_filter));
            q.lemma_filter_len(keep_filter);
            assert forall|a: int, b: int|
                0 <= a < b < self@.len() implies (#[trigger] self@[a]).1.path != (
                #[trigger] self@[b]).1.path by {
                lemma_filter_is_subsequence(q, keep_filter, a, b);
            }
        }
        flushed
    }

    /// Moves the entry at `i` out of the list (helper for the sweep).
    fn read_entry(&mut self, i: usize) -> (r: (u64, WriteConfigRequest))
        requires
            i < old(self).entries@.len(),
        ensures
            r == old(self).entries@[i as int],
            final(self).entries@ == old(self).entries@,
    {
        // Removing and re-inserting keeps the borrow checker satisfied while
        // handing the entry out by value.
        let e = self.entries.remove(i);
        let copied = (e.0, WriteConfigRequest {
            path: e.1.path.clone(),
            config: e.1.config.clone(),
            debounce: e.1.debounce,
        });
        self.entries.insert(i, e);
        proof {
            assert(self.entries@ =~= old(self).entries@);
        }
        copied
    }

    /// Flushes everything still pending, due or not: called once on clean
    /// shutdown so that no configuration change is lost.
    pub fn flush_all(&mut self) -> (flushed: Vec<WriteConfigRequest>)
        requires
            old(self).inv(),
        ensures
            final(self).inv(),
            final(self)@ =~= Seq::<(u64, RequestView)>::empty(),
            flushed@.map_values(|r: WriteConfigRequest| r@) == old(self)@.map_values(
                |e: (u64, RequestView)| e.1,
            ),
    {
        let ghost q = self@;
        let mut flushed: Vec<WriteConfigRequest> = Vec::new();
        let n = self.entries.len();
        let mut i: usize = 0;
        while i < n
            invariant
                0 <= i <= n,
                n == self.entries@.len(),
                q == entries_view(self.entries@),
                flushed@.map_values(|r: WriteConfigRequest| r@) =~= q.subrange(
                    0,
                    i as int,
                ).map_values(|e: (u64, RequestView)| e.1),
            decreases n - i,
        {
            let (_, r) = self.read_entry(i);
            let ghost pre = flushed@;
            flushed.push(r);
            proof {
                assert(flushed@.map_values(|r: WriteConfigRequest| r@) =~= pre.map_values(
                    |r: WriteConfigRequest| r@,
                ).push(q[i as int].1));
                assert(q.subrange(0, i + 1) =~= q.subrange(0, i as int).push(q[i as int]));
            }
            i = i + 1;
        }
        self.entries = Vec::new();
        proof {
            assert(q.subrange(0, n as int) =~= q);
            assert(self@ =~= Seq::<(u64, RequestView)>::empty());
            assert(flushed@.map_values(|r: WriteConfigRequest| r@) =~= q.map_values(
                |e: (u64, RequestView)| e.1,
            ));
        }
        flushed
    }
}

/// Every pair of positions in a filtered sequence comes from an
/// order-preserving pair of positions in the original.
proof fn lemma_filter_is_subsequence(
    q: Seq<(u64, RequestView)>,
    pred: spec_fn((u64, RequestView)) -> bool,
    a: int,
    b: int,
)
    requires
        0 <= a < b < q.filter(pred).len(),
        unique_paths(q),
    ensures
        q.filter(pred)[a].1.path != q.filter(pred)[b].1.path,
    decreases q.len(),
{
    reveal_with_fuel(Seq::filter, 2);
    if q.len() > 0 {
        let rest = q.drop_last();
        assert(unique_paths(rest)) by {
            assert forall|i: int, j: int|
                0 <= i < j < rest.len() implies (#[trigger] rest[i]).1.path != (
                #[trigger] rest[j]).1.path by {
                assert(rest[i] == q[i]);
                assert(rest[j] == q[j]);
            }
        }
        if pred(q.last()) {
            if b < q.filter(pred).len() - 1 {
                lemma_filter_is_subsequence(rest, pred, a, b);
            } else {
                // b names the last element, which is q.last(); a names an
                // element of the filtered prefix, which sits inside rest.
                rest.lemma_filter_len(pred);
                lemma_filter_element_of(rest, pred, a);
                let k = choose|k: int|
                    0 <= k < rest.len() && rest[k] == rest.filter(pred)[a];
                assert(q[k] == rest[k]);
                assert(q[k].1.path != q[q.len() - 1].1.path);
            }
        } else {
            lemma_filter_is_subsequence(rest, pred, a, b);
        }
    }
}

/// Every element of a filtered sequence occurs in the original.
proof fn lemma_filter_element_of(
    q: Seq<(u64, RequestView)>,
    pred: spec_fn((u64, RequestView)) -> bool,
    a: int,
)
    requires
        0 <= a < q.filter(pred).len(),
    ensures
        exists|k: int| 0 <= k < q.len() && q[k] == q.filter(pred)[a],
    decreases q.len(),
{
    reveal_with_fuel(Seq::filter, 2);
    if q.len() > 0 {
        let rest = q.drop_last();
        if pred(q.last()) && a == q.filter(pred).len() - 1 {
            assert(q[q.len() - 1] == q.filter(pred)[a]);
        } else {
            lemma_filter_element_of(rest, pred, a);
            let k = choose|k: int| 0 <= k < rest.len() && rest[k] == rest.filter(pred)[a];
            assert(q[k] == rest.filter(pred)[a]);
        }
    }
}

} // verus!
