//! Power-of-two-choices worker selection policy with active-request tracking.

use super::load::{end_request, ended, start_request, started, zero_counters};
use super::rng::random_below;
use super::{LoadBalancer, RequestContext};
use vstd::prelude::*;

verus! {

/// A power-of-two-choices load balancer: draws two workers uniformly at
/// random and selects the one with fewer in-flight requests.
pub struct PowerOfTwo {
    active: Vec<usize>,
}

impl View for PowerOfTwo {
    type V = Seq<usize>;

    /// The in-flight counters, one per worker.
    closed spec fn view(&self) -> Seq<usize> {
        self.active@
    }
}

impl PowerOfTwo {
    /// Create a new balancer for `worker_count` workers, all idle.
    pub fn new(worker_count: usize) -> (lb: Self)
        ensures
            lb@ == Seq::new(worker_count as nat, |i: int| 0usize),
    {
        PowerOfTwo { active: zero_counters(worker_count) }
    }
}

/// Of two candidate workers, the one with fewer in-flight requests
/// (the first on a tie).
pub fn pick_of_two(active: &[usize], a: usize, b: usize) -> (idx: usize)
    requires
        a < active@.len(),
        b < active@.len(),
    ensures
        idx == (if active@[a as int] <= active@[b as int] { a } else { b }),
{
    if active[a] <= active[b] {
        a
    } else {
        b
    }
}

impl LoadBalancer for PowerOfTwo {
    open spec fn capacity(&self) -> usize {
        self@.len() as usize
    }

    open spec fn in_flight(&self, worker: usize) -> Option<usize> {
        if (worker as int) < self@.len() {
            Some(self@[worker as int])
        } else {
            None
        }
    }

    open spec fn remembers(&self) -> bool {
        false
    }

    open spec fn owners(&self, prefix_key: &String, session_id: &String) -> (Option<usize>, Option<usize>) {
        (None, None)
    }

    open spec fn chooses(&self, n: usize, ctx: Option<RequestContext>, idx: usize) -> bool {
        exists|a: int, b: int|
            #![auto]
            0 <= a < n && 0 <= b < n && idx as int == (if self@[a] <= self@[b] {
                a
            } else {
                b
            })
    }

    fn capacity_limit(&self) -> (c: usize) {
        self.active.len()
    }

    fn select(&mut self, workers: &[String]) -> (idx: usize)
        ensures
            final(self)@ == old(self)@,
    {
        let n = workers.len();
        if n == 0 {
            return 0;
        }
        let a = random_below(n);
        let b = random_below(n);
        pick_of_two(self.active.as_slice(), a, b)
    }

    fn select_with_context(&mut self, workers: &[String], ctx: &RequestContext) -> (idx: usize) {
        self.select(workers)
    }

    fn on_request_start(&mut self, worker_idx: usize)
        ensures
            final(self)@ == started(old(self)@, worker_idx as int),
    {
        start_request(&mut self.active, worker_idx);
    }

    fn on_request_end(&mut self, worker_idx: usize)
        ensures
            final(self)@ == ended(old(self)@, worker_idx as int),
    {
        end_request(&mut self.active, worker_idx);
    }

    fn record(&mut self, ctx: &RequestContext, worker_idx: usize) {
    }
}

} // verus!
