//! The per-client rate limit of the AI endpoints: at most `limit`
//! requests per client within a sliding window.
use vstd::prelude::*;

use crate::text::{owned, same_text};

verus! {

/// Requests a client may make to the AI endpoints per window.
pub const AI_REQUESTS_PER_WINDOW: usize = 10;

/// Length of the window, in milliseconds (one minute).
pub const AI_WINDOW_MS: u64 = 60000;

/// A granted request: the client and when, in milliseconds.
pub type Hit = (String, u64);

/// Granted requests as (client, time) values.
pub open spec fn hits_view(h: Seq<Hit>) -> Seq<(Seq<char>, u64)> {
    h.map_values(|x: Hit| (x.0@, x.1))
}

/// A request made at `t` still counts at `now`: less than a window ago
/// (or stamped later than `now`).
pub open spec fn still_counts(t: u64, now: u64, window: u64) -> bool {
    t > now || now - t < window
}

/// The requests that still count at `now`, in order.
pub open spec fn recent(h: Seq<(Seq<char>, u64)>, now: u64, window: u64) -> Seq<(Seq<char>, u64)>
    decreases h.len(),
{
    if h.len() == 0 {
        seq![]
    } else {
        let r = recent(h.drop_last(), now, window);
        if still_counts(h.last().1, now, window) {
            r.push(h.last())
        } else {
            r
        }
    }
}

/// How many of the requests are from `key`.
pub open spec fn count_key(h: Seq<(Seq<char>, u64)>, key: Seq<char>) -> nat
    decreases h.len(),
{
    if h.len() == 0 {
        0
    } else {
        count_key(h.drop_last(), key) + if h.last().0 == key {
            1nat
        } else {
            0nat
        }
    }
}

/// Counts the requests of each client within a sliding window.
pub struct RateLimiter {
    limit: usize,
    window_ms: u64,
    hits: Vec<Hit>,
}

impl RateLimiter {
    /// Requests allowed per client and window.
    pub closed spec fn max_hits(&self) -> usize {
        self.limit
    }

    /// Length of the window.
    pub closed spec fn window(&self) -> u64 {
        self.window_ms
    }

    /// The requests granted that are remembered.
    pub closed spec fn granted(&self) -> Seq<(Seq<char>, u64)> {
        hits_view(self.hits@)
    }

    /// A limiter that has granted nothing yet.
    pub fn new(limit: usize, window_ms: u64) -> (r: RateLimiter)
        ensures
            r.max_hits() == limit,
            r.window() == window_ms,
            r.granted() == Seq::<(Seq<char>, u64)>::empty(),
    {
        let r = RateLimiter { limit, window_ms, hits: Vec::new() };
        assert(hits_view(r.hits@) =~= Seq::<(Seq<char>, u64)>::empty());
        r
    }

    /// Whether `key` may make a request at `now`: it may when fewer than
    /// the limit of its requests still count. A granted request is
    /// remembered; requests that no longer count are forgotten.
    pub fn check(&mut self, key: &str, now: u64) -> (allowed: bool)
        ensures
            final(self).max_hits() == old(self).max_hits(),
            final(self).window() == old(self).window(),
            allowed == (count_key(recent(old(self).granted(), now, old(self).window()), key@) < old(
                self,
            ).max_hits()),
            final(self).granted() == if allowed {
                recent(old(self).granted(), now, old(self).window()).push((key@, now))
            } else {
                recent(old(self).granted(), now, old(self).window())
            },
    {
        let ghost old_hits = hits_view(self.hits@);
        let mut kept: Vec<Hit> = Vec::new();
        let mut n: usize = 0;
        let mut i: usize = 0;
        while i < self.hits.len()
            invariant
                i <= self.hits@.len(),
                old_hits == hits_view(self.hits@),
                hits_view(kept@) == recent(old_hits.subrange(0, i as int), now, self.window_ms),
                n == count_key(hits_view(kept@), key@),
                n <= kept@.len(),
                kept@.len() <= i,
            decreases self.hits@.len() - i,
        {
            let ghost pre = old_hits.subrange(0, i + 1);
            assert(pre.drop_last() =~= old_hits.subrange(0, i as int));
            let t = self.hits[i].1;
            if t > now || now - t < self.window_ms {
                let ghost before = hits_view(kept@);
                let k = self.hits[i].0.clone();
                let matches = same_text(k.as_str(), key);
                kept.push((k, t));
                assert(hits_view(kept@) =~= before.push((self.hits@[i as int].0@, t)));
                assert(hits_view(kept@).drop_last() =~= before);
                if matches {
                    n = n + 1;
                }
            }
            i = i + 1;
        }
        assert(old_hits.subrange(0, self.hits@.len() as int) =~= old_hits);
        let allowed = n < self.limit;
        if allowed {
            let ghost before = hits_view(kept@);
            kept.push((owned(key), now));
            assert(hits_view(kept@) =~= before.push((key@, now)));
        }
        self.hits = kept;
        allowed
    }
}

/// The limit holds after every check: when no client had more than the
/// limit of requests counting, none has after a check either.
pub proof fn law_limit_never_exceeded(
    granted: Seq<(Seq<char>, u64)>,
    key: Seq<char>,
    now: u64,
    window: u64,
    limit: nat,
    other: Seq<char>,
)
    requires
        count_key(recent(granted, now, window), other) <= limit,
        count_key(recent(granted, now, window), key) <= limit,
    ensures
        ({
            let r = recent(granted, now, window);
            let allowed = count_key(r, key) < limit;
            let after = if allowed {
                r.push((key, now))
            } else {
                r
            };
            count_key(after, other) <= limit
        }),
{
    let r = recent(granted, now, window);
    let p = r.push((key, now));
    assert(p.drop_last() =~= r);
}

} // verus!
