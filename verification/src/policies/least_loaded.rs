//! Least-loaded worker selection policy with active-request tracking.

use super::load::{
    end_request, ended, is_least_loaded, start_request, started, zero_counters,
};
use super::rng::random_below;
use super::{LoadBalancer, RequestContext};
use vstd::prelude::*;

verus! {

/// A least-loaded load balancer: keeps one in-flight counter per worker and
/// selects a worker with the fewest in-flight requests.
pub struct LeastLoaded {
    active: Vec<usize>,
}

impl View for LeastLoaded {
    type V = Seq<usize>;

    /// The in-flight counters, one per worker.
    closed spec fn view(&self) -> Seq<usize> {
        self.active@
    }
}

impl LeastLoaded {
    /// Create a new balancer for `worker_count` workers, all idle.
    pub fn new(worker_count: usize) -> (lb: Self)
        ensures
            lb@ == Seq::new(worker_count as nat, |i: int| 0usize),
    {
        LeastLoaded { active: zero_counters(worker_count) }
    }
}

/// Scan the first `n` counters starting from candidate `start`, keeping
/// the candidate unless a strictly smaller counter is found.
///
/// The result is always a least-loaded worker; it is `start` when `start`
/// is itself least loaded, and otherwise the first least-loaded worker.
pub fn pick_least_loaded(active: &[usize], n: usize, start: usize) -> (idx: usize)
    requires
        start < n <= active@.len(),
    ensures
        is_least_loaded(active@, n as nat, idx as int),
        is_least_loaded(active@, n as nat, start as int) ==> idx == start,
        idx != start ==> forall|j: int| 0 <= j < idx ==> active@[j] > active@[idx as int],
{
    let mut best = start;
    let mut least = active[start];
    let mut i: usize = 0;
    while i < n
        invariant
            start < n <= active@.len(),
            i <= n,
            best < n,
            least == active@[best as int],
            least <= active@[start as int],
            forall|j: int| 0 <= j < i ==> least <= #[trigger] active@[j],
            best != start ==> least < active@[start as int],
            best != start ==> best < i,
            best != start ==> forall|j: int| 0 <= j < best ==> active@[j] > least,
        decreases n - i,
    {
        if active[i] < least {
            best = i;
            least = active[i];
        }
        i = i + 1;
    }
    best
}

impl LoadBalancer for LeastLoaded {
    open spec fn capacity(&self) -> usize {
        self@.len() as usize
    }

    open spec fn in_flight(&self, worker: usize) -> Option<usize> {
        if (worker as int) < self@.len() {
            Some(self@[worker as int])
        } else {
            None
        }
    }

    open spec fn remembers(&self) -> bool {
        false
    }

    open spec fn owners(&self, prefix_key: &String, session_id: &String) -> (Option<usize>, Option<usize>) {
        (None, None)
    }

    open spec fn chooses(&self, n: usize, ctx: Option<RequestContext>, idx: usize) -> bool {
        is_least_loaded(self@, n as nat, idx as int)
    }

    fn capacity_limit(&self) -> (c: usize) {
        self.active.len()
    }

    fn select(&mut self, workers: &[String]) -> (idx: usize)
        ensures
            workers@.len() > 0 ==> is_least_loaded(old(self)@, workers@.len(), idx as int),
            final(self)@ == old(self)@,
    {
        let n = workers.len();
        if n == 0 {
            return 0;
        }
        let start = random_below(n);
        pick_least_loaded(self.active.as_slice(), n, start)
    }

    fn select_with_context(&mut self, workers: &[String], ctx: &RequestContext) -> (idx: usize) {
        self.select(workers)
    }

    fn on_request_start(&mut self, worker_idx: usize)
        ensures
            final(self)@ == started(old(self)@, worker_idx as int),
    {
        start_request(&mut self.active, worker_idx);
    }

    fn on_request_end(&mut self, worker_idx: usize)
        ensures
            final(self)@ == ended(old(self)@, worker_idx as int),
    {
        end_request(&mut self.active, worker_idx);
    }

    fn record(&mut self, ctx: &RequestContext, worker_idx: usize) {
    }
}

} // verus!
