//! Round-robin backend selection policy.

use super::{LoadBalancer, RequestContext};
use vstd::prelude::*;

verus! {

/// A round-robin load balancer: cycles through the backends sequentially,
/// driven by a counter that wraps around at `usize::MAX` like an atomic
/// `fetch_add`.
pub struct RoundRobin {
    counter: usize,
}

impl View for RoundRobin {
    type V = usize;

    /// The value of the cycle counter.
    closed spec fn view(&self) -> usize {
        self.counter
    }
}

impl RoundRobin {
    /// Create a new `RoundRobin` balancer starting from the first backend.
    pub fn new() -> (rr: Self)
        ensures
            rr@ == 0,
    {
        RoundRobin { counter: 0 }
    }
}

impl Default for RoundRobin {
    fn default() -> (rr: Self)
        ensures
            rr@ == 0,
    {
        Self::new()
    }
}

/// The backend chosen for counter value `counter` among `n` backends.
pub open spec fn round_robin_index(counter: usize, n: nat) -> int {
    counter as int % n as int
}

impl LoadBalancer for RoundRobin {
    open spec fn capacity(&self) -> usize {
        usize::MAX
    }

    open spec fn in_flight(&self, worker: usize) -> Option<usize> {
        None
    }

    open spec fn remembers(&self) -> bool {
        false
    }

    open spec fn owners(&self, prefix_key: &String, session_id: &String) -> (Option<usize>, Option<usize>) {
        (None, None)
    }

    open spec fn chooses(&self, n: usize, ctx: Option<RequestContext>, idx: usize) -> bool {
        idx as int == round_robin_index(self@, n as nat)
    }

    fn capacity_limit(&self) -> (c: usize) {
        usize::MAX
    }

    fn select(&mut self, backends: &[String]) -> (idx: usize)
        ensures
            backends@.len() > 0 ==> idx == round_robin_index(old(self)@, backends@.len()),
            backends@.len() > 0 ==> final(self)@ == old(self)@.wrapping_add(1),
            backends@.len() == 0 ==> final(self)@ == old(self)@,
    {
        if backends.len() == 0 {
            return 0;
        }
        let c = self.counter;
        self.counter = c.wrapping_add(1);
        c % backends.len()
    }

    fn select_with_context(&mut self, workers: &[String], ctx: &RequestContext) -> (idx: usize) {
        self.select(workers)
    }

    fn on_request_start(&mut self, worker_idx: usize) {
    }

    fn on_request_end(&mut self, worker_idx: usize) {
    }

    fn record(&mut self, ctx: &RequestContext, worker_idx: usize) {
    }
}

/// Consecutive selections over the same backends visit them in cyclic
/// order: unless the counter wraps, the next index is the previous one plus
/// one, modulo the number of backends.
pub proof fn law_round_robin_cycles(counter: usize, n: nat)
    requires
        n > 0,
        counter < usize::MAX,
    ensures
        round_robin_index(counter.wrapping_add(1), n) == (round_robin_index(counter, n) + 1)
            % n as int,
{
    assert(counter.wrapping_add(1) == counter + 1);
    vstd::arithmetic::div_mod::lemma_add_mod_noop(counter as int, 1, n as int);
    if n > 1 {
        vstd::arithmetic::div_mod::lemma_small_mod(1, n);
    }
}

/// A fresh balancer picks the first backend.
pub proof fn law_round_robin_starts_at_first(n: nat)
    requires
        n > 0,
    ensures
        round_robin_index(0, n) == 0,
{
    vstd::arithmetic::div_mod::lemma_small_mod(0, n);
}

} // verus!
