//! Tracking of in-flight and recent proxied requests while monitoring is on.
use vstd::prelude::*;

use crate::text::{owned, same_text};

verus! {

/// A proxied request as monitoring records it.
#[derive(Debug)]
pub struct Transfer {
    pub id: String,
    pub method: String,
    pub path: String,
    pub route_label: String,
    pub status: Option<u16>,
    pub duration_ms: Option<u128>,
    pub size: Option<usize>,
    pub start_ms: u64,
}

/// The most recent transfers, newest first, at most `max` of them.
pub struct TransferTracker {
    transfers: Vec<Transfer>,
    max: usize,
}

/// A copy of a transfer record.
pub fn copy_transfer(t: &Transfer) -> (c: Transfer)
    ensures
        c == *t,
{
    Transfer {
        id: t.id.clone(),
        method: t.method.clone(),
        path: t.path.clone(),
        route_label: t.route_label.clone(),
        status: t.status,
        duration_ms: t.duration_ms,
        size: t.size,
        start_ms: t.start_ms,
    }
}

/// The transfers after recording a new one: it goes first, and the list
/// is cut to `max` entries.
pub open spec fn after_start(old: Seq<Transfer>, t: Transfer, max: usize) -> Seq<Transfer> {
    let all = seq![t] + old;
    if all.len() > max {
        all.subrange(0, max as int)
    } else {
        all
    }
}

/// Index of the first transfer with this id, or -1.
pub open spec fn first_with_id(s: Seq<Transfer>, id: Seq<char>, from: int) -> int
    decreases s.len() - from,
{
    if from < 0 || from >= s.len() {
        -1
    } else if s[from].id@ == id {
        from
    } else {
        first_with_id(s, id, from + 1)
    }
}

/// The transfers after the one with `id` completed: its first record gets
/// the status, duration and size; nothing changes when there is none.
pub open spec fn after_end(
    old: Seq<Transfer>,
    id: Seq<char>,
    status: u16,
    duration_ms: u128,
    size: Option<usize>,
) -> Seq<Transfer> {
    let i = first_with_id(old, id, 0);
    if i < 0 {
        old
    } else {
        old.update(
            i,
            Transfer { status: Some(status), duration_ms: Some(duration_ms), size: size, ..old[i] },
        )
    }
}

proof fn lemma_first_with_id_bounds(s: Seq<Transfer>, id: Seq<char>, from: int)
    requires
        0 <= from,
    ensures
        first_with_id(s, id, from) == -1 || (from <= first_with_id(s, id, from) < s.len()
            && s[first_with_id(s, id, from)].id@ == id),
    decreases s.len() - from,
{
    if from < s.len() && s[from].id@ != id {
        lemma_first_with_id_bounds(s, id, from + 1);
    }
}

impl TransferTracker {
    /// The records, newest first.
    pub closed spec fn records(&self) -> Seq<Transfer> {
        self.transfers@
    }

    /// The most transfers kept.
    pub closed spec fn limit(&self) -> usize {
        self.max
    }

    /// An empty tracker keeping at most `max` transfers.
    pub fn new(max: usize) -> (t: TransferTracker)
        ensures
            t.records() == Seq::<Transfer>::empty(),
            t.limit() == max,
    {
        TransferTracker { transfers: Vec::new(), max }
    }

    /// Records a new request, newest first; the oldest records beyond the
    /// limit are dropped.
    pub fn start_transfer(
        &mut self,
        id: &str,
        method: &str,
        path: &str,
        route_label: &str,
        start_ms: u64,
    )
        ensures
            final(self).limit() == old(self).limit(),
            final(self).records() == after_start(
                old(self).records(),
                Transfer {
                    id: final(self).records()[0].id,
                    method: final(self).records()[0].method,
                    path: final(self).records()[0].path,
                    route_label: final(self).records()[0].route_label,
                    status: None,
                    duration_ms: None,
                    size: None,
                    start_ms,
                },
                old(self).limit(),
            ),
            old(self).limit() > 0 ==> final(self).records()[0].id@ == id@
                && final(self).records()[0].method@ == method@ && final(self).records()[0].path@
                == path@ && final(self).records()[0].route_label@ == route_label@,
    {
        let t = Transfer {
            id: owned(id),
            method: owned(method),
            path: owned(path),
            route_label: owned(route_label),
            status: None,
            duration_ms: None,
            size: None,
            start_ms,
        };
        let ghost tv = t;
        self.transfers.insert(0, t);
        assert(self.transfers@ =~= seq![tv] + old(self).transfers@);
        if self.transfers.len() > self.max {
            self.transfers.truncate(self.max);
        }
        assert(self.transfers@ =~= after_start(old(self).transfers@, tv, self.max));
    }

    /// Completes the first record of the request `id` with its status,
    /// duration and response size.
    pub fn end_transfer(&mut self, id: &str, status: u16, duration_ms: u128, size: Option<usize>)
        ensures
            final(self).limit() == old(self).limit(),
            final(self).records() == after_end(old(self).records(), id@, status, duration_ms, size),
    {
        let ghost s = self.transfers@;
        let mut i: usize = 0;
        while i < self.transfers.len()
            invariant
                i <= self.transfers@.len(),
                self.transfers@ == s,
                self.max == old(self).max,
                s == old(self).transfers@,
                first_with_id(s, id@, 0) == first_with_id(s, id@, i as int),
            decreases self.transfers@.len() - i,
        {
            let same = same_text(self.transfers[i].id.as_str(), id);
            assert(same == (s[i as int].id@ == id@));
            if same {
                let old_t = copy_transfer(&self.transfers[i]);
                let t = Transfer {
                    status: Some(status),
                    duration_ms: Some(duration_ms),
                    size,
                    ..old_t
                };
                self.transfers.set(i, t);
                assert(self.transfers@ =~= after_end(s, id@, status, duration_ms, size));
                return ;
            }
            assert(first_with_id(s, id@, i as int) == first_with_id(s, id@, i + 1));
            i = i + 1;
        }
    }

    /// Forgets every record (monitoring was turned off).
    pub fn clear(&mut self)
        ensures
            final(self).records() == Seq::<Transfer>::empty(),
            final(self).limit() == old(self).limit(),
    {
        self.transfers = Vec::new();
    }

    /// A copy of the records, newest first.
    pub fn snapshot(&self) -> (r: Vec<Transfer>)
        ensures
            r@ == self.records(),
    {
        let mut r: Vec<Transfer> = Vec::new();
        let mut i: usize = 0;
        while i < self.transfers.len()
            invariant
                i <= self.transfers@.len(),
                r@ == self.transfers@.subrange(0, i as int),
            decreases self.transfers@.len() - i,
        {
            r.push(copy_transfer(&self.transfers[i]));
            i = i + 1;
            assert(r@ =~= self.transfers@.subrange(0, i as int));
        }
        assert(self.transfers@.subrange(0, self.transfers@.len() as int) =~= self.transfers@);
        r
    }
}

/// A new record never makes the tracker exceed its limit, and the newest
/// record is listed first.
pub proof fn law_tracker_bounded(old: Seq<Transfer>, t: Transfer, max: usize)
    ensures
        after_start(old, t, max).len() <= max || after_start(old, t, max).len() == old.len() + 1,
        old.len() < max ==> after_start(old, t, max).len() == old.len() + 1,
        old.len() <= max ==> after_start(old, t, max).len() <= max,
        max > 0 ==> after_start(old, t, max)[0] == t,
{
}

/// Completing a request changes no record but its own, and only its
/// status, duration and size.
pub proof fn law_end_touches_one_record(
    old: Seq<Transfer>,
    id: Seq<char>,
    status: u16,
    duration_ms: u128,
    size: Option<usize>,
    j: int,
)
    requires
        0 <= j < old.len(),
    ensures
        after_end(old, id, status, duration_ms, size).len() == old.len(),
        j != first_with_id(old, id, 0) ==> after_end(old, id, status, duration_ms, size)[j]
            == old[j],
        ({
            let n = after_end(old, id, status, duration_ms, size)[j];
            n.id == old[j].id && n.method == old[j].method && n.path == old[j].path
                && n.route_label == old[j].route_label && n.start_ms == old[j].start_ms
        }),
{
    lemma_first_with_id_bounds(old, id, 0);
}

} // verus!
