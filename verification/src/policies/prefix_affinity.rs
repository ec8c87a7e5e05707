//! Prefix-affinity policy with a queue-depth circuit breaker.

use super::load::{
    end_request, ended, is_least_loaded, jsq_fallback, start_request, started, zero_counters,
};
use super::{stable_hash, stable_hash_spec, LoadBalancer, RequestContext};
use vstd::prelude::*;

verus! {

/// Routes by first-message prefix hash, falling back to join-shortest-queue
/// when the preferred worker is overloaded.
///
/// 1. Hash `prefix_key` to a preferred worker index.
/// 2. If that worker has fewer than `threshold` in-flight requests, use it.
/// 3. Otherwise pick a worker with the fewest in-flight requests
///    (random tie-breaking).
pub struct PrefixAffinity {
    active: Vec<usize>,
    threshold: usize,
}

impl View for PrefixAffinity {
    /// In-flight counters and the overload threshold.
    type V = (Seq<usize>, usize);

    closed spec fn view(&self) -> (Seq<usize>, usize) {
        (self.active@, self.threshold)
    }
}

/// The preferred worker of a prompt prefix among `n` workers.
pub open spec fn prefix_worker(prefix_key: Seq<char>, n: nat) -> int {
    (stable_hash_spec(prefix_key) as usize) as int % n as int
}

/// What a context-aware selection may return: the only worker when there is
/// one; the preferred worker while it is below the threshold; otherwise a
/// least-loaded worker.
pub open spec fn prefix_affinity_choice(
    active: Seq<usize>,
    threshold: usize,
    prefix_key: Seq<char>,
    n: nat,
    idx: int,
) -> bool {
    let p = prefix_worker(prefix_key, n);
    if n == 1 {
        idx == 0
    } else if active[p] < threshold {
        idx == p
    } else {
        is_least_loaded(active, n, idx)
    }
}

impl PrefixAffinity {
    /// Create a new policy with the default threshold of 10.
    pub fn new(worker_count: usize) -> (lb: Self)
        requires
            worker_count > 0,
        ensures
            lb@.0 == Seq::new(worker_count as nat, |i: int| 0usize),
            lb@.1 == 10,
    {
        Self::with_threshold(worker_count, 10)
    }

    /// Create a new policy with a custom threshold.
    pub fn with_threshold(worker_count: usize, threshold: usize) -> (lb: Self)
        requires
            worker_count > 0,
        ensures
            lb@.0 == Seq::new(worker_count as nat, |i: int| 0usize),
            lb@.1 == threshold,
    {
        PrefixAffinity { active: zero_counters(worker_count), threshold }
    }
}

impl LoadBalancer for PrefixAffinity {
    open spec fn capacity(&self) -> usize {
        self@.0.len() as usize
    }

    open spec fn in_flight(&self, worker: usize) -> Option<usize> {
        if (worker as int) < self@.0.len() {
            Some(self@.0[worker as int])
        } else {
            None
        }
    }

    open spec fn remembers(&self) -> bool {
        false
    }

    open spec fn owners(&self, prefix_key: &String, session_id: &String) -> (Option<usize>, Option<usize>) {
        (None, None)
    }

    open spec fn chooses(&self, n: usize, ctx: Option<RequestContext>, idx: usize) -> bool {
        match ctx {
            Some(c) => prefix_affinity_choice(self@.0, self@.1, c.prefix_key@, n as nat, idx as int),
            None => if n == 1 {
                idx == 0
            } else {
                is_least_loaded(self@.0, n as nat, idx as int)
            },
        }
    }

    fn capacity_limit(&self) -> (c: usize) {
        self.active.len()
    }

    fn select(&mut self, workers: &[String]) -> (idx: usize)
        ensures
            workers@.len() == 1 ==> idx == 0,
            workers@.len() > 1 ==> is_least_loaded(old(self)@.0, workers@.len(), idx as int),
            final(self)@ == old(self)@,
    {
        if workers.len() <= 1 {
            return 0;
        }
        // Without context, behave like join-shortest-queue.
        jsq_fallback(self.active.as_slice(), workers.len())
    }

    fn select_with_context(&mut self, workers: &[String], ctx: &RequestContext) -> (idx: usize)
        ensures
            workers@.len() > 0 ==> prefix_affinity_choice(
                old(self)@.0,
                old(self)@.1,
                ctx.prefix_key@,
                workers@.len(),
                idx as int,
            ),
            final(self)@ == old(self)@,
    {
        let n = workers.len();
        if n <= 1 {
            return 0;
        }
        let preferred = (stable_hash(ctx.prefix_key.as_str()) as usize) % n;
        if self.active[preferred] < self.threshold {
            return preferred;
        }
        jsq_fallback(self.active.as_slice(), n)
    }

    fn on_request_start(&mut self, worker_idx: usize)
        ensures
            final(self)@.0 == started(old(self)@.0, worker_idx as int),
            final(self)@.1 == old(self)@.1,
    {
        start_request(&mut self.active, worker_idx);
    }

    fn on_request_end(&mut self, worker_idx: usize)
        ensures
            final(self)@.0 == ended(old(self)@.0, worker_idx as int),
            final(self)@.1 == old(self)@.1,
    {
        end_request(&mut self.active, worker_idx);
    }

    fn record(&mut self, ctx: &RequestContext, worker_idx: usize) {
    }
}

/// While the preferred worker of a prefix is under the threshold, every
/// request with that prefix goes to it.
pub proof fn law_prefix_sticks_under_threshold(
    active: Seq<usize>,
    threshold: usize,
    prefix_key: Seq<char>,
    n: nat,
    idx: int,
)
    requires
        n > 1,
        active.len() >= n,
        active[prefix_worker(prefix_key, n)] < threshold,
        prefix_affinity_choice(active, threshold, prefix_key, n, idx),
    ensures
        idx == prefix_worker(prefix_key, n),
{
}

/// Once the preferred worker is at or above the threshold, a request avoids
/// it whenever some other worker carries fewer in-flight requests.
pub proof fn law_prefix_falls_back_when_overloaded(
    active: Seq<usize>,
    threshold: usize,
    prefix_key: Seq<char>,
    n: nat,
    idx: int,
    lighter: int,
)
    requires
        n > 1,
        active.len() >= n,
        active[prefix_worker(prefix_key, n)] >= threshold,
        0 <= lighter < n,
        active[lighter] < active[prefix_worker(prefix_key, n)],
        prefix_affinity_choice(active, threshold, prefix_key, n, idx),
    ensures
        idx != prefix_worker(prefix_key, n),
{
    assert(active[idx] <= active[lighter]);
}

} // verus!
