//! Random worker selection policy.

use super::rng::random_below;
use super::{LoadBalancer, RequestContext};
use vstd::prelude::*;

verus! {

/// A random-selection load balancer: picks a worker uniformly at random.
/// Stateless.
pub struct Random;

impl LoadBalancer for Random {
    open spec fn capacity(&self) -> usize {
        usize::MAX
    }

    open spec fn in_flight(&self, worker: usize) -> Option<usize> {
        None
    }

    open spec fn remembers(&self) -> bool {
        false
    }

    open spec fn owners(&self, prefix_key: &String, session_id: &String) -> (Option<usize>, Option<usize>) {
        (None, None)
    }

    open spec fn chooses(&self, n: usize, ctx: Option<RequestContext>, idx: usize) -> bool {
        idx < n
    }

    fn capacity_limit(&self) -> (c: usize) {
        usize::MAX
    }

    fn select(&mut self, workers: &[String]) -> (idx: usize) {
        if workers.len() == 0 {
            return 0;
        }
        random_below(workers.len())
    }

    fn select_with_context(&mut self, workers: &[String], ctx: &RequestContext) -> (idx: usize) {
        self.select(workers)
    }

    fn on_request_start(&mut self, worker_idx: usize) {
    }

    fn on_request_end(&mut self, worker_idx: usize) {
    }

    fn record(&mut self, ctx: &RequestContext, worker_idx: usize) {
    }
}

} // verus!
