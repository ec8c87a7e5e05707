//! Session-affinity policy: the same session always lands on the same worker.

use super::rng::random_usize;
use super::{stable_hash, stable_hash_spec, LoadBalancer, RequestContext};
use vstd::prelude::*;

verus! {

/// Routes requests from the same user/session deterministically to the same
/// worker, maximising KV-cache reuse for multi-turn conversations.
///
/// Stateless: the worker is the stable hash of the `session_id` modulo the
/// number of workers, so the mapping survives router restarts.
pub struct SessionAffinity;

/// The worker a session is routed to among `n` workers.
pub open spec fn session_worker(session_id: Seq<char>, n: nat) -> int {
    (stable_hash_spec(session_id) as usize) as int % n as int
}

impl LoadBalancer for SessionAffinity {
    open spec fn capacity(&self) -> usize {
        usize::MAX
    }

    open spec fn in_flight(&self, worker: usize) -> Option<usize> {
        None
    }

    open spec fn remembers(&self) -> bool {
        false
    }

    open spec fn owners(&self, prefix_key: &String, session_id: &String) -> (Option<usize>, Option<usize>) {
        (None, None)
    }

    open spec fn chooses(&self, n: usize, ctx: Option<RequestContext>, idx: usize) -> bool {
        match ctx {
            Some(c) => idx as int == session_worker(c.session_id@, n as nat),
            None => idx < n,
        }
    }

    fn capacity_limit(&self) -> (c: usize) {
        usize::MAX
    }

    fn select(&mut self, workers: &[String]) -> (idx: usize)
        ensures
            workers@.len() == 1 ==> idx == 0,
    {
        if workers.len() <= 1 {
            return 0;
        }
        // Without context, degenerate to a random distribution.
        random_usize() % workers.len()
    }

    fn select_with_context(&mut self, workers: &[String], ctx: &RequestContext) -> (idx: usize)
        ensures
            workers@.len() > 0 ==> idx == session_worker(ctx.session_id@, workers@.len()),
    {
        if workers.len() == 0 {
            return 0;
        }
        let hash = stable_hash(ctx.session_id.as_str());
        (hash as usize) % workers.len()
    }

    fn on_request_start(&mut self, worker_idx: usize) {
    }

    fn on_request_end(&mut self, worker_idx: usize) {
    }

    fn record(&mut self, ctx: &RequestContext, worker_idx: usize) {
    }
}

/// Two requests of the same session, routed over the same number of
/// workers, go to the same worker.
pub proof fn law_same_session_same_worker(s1: Seq<char>, s2: Seq<char>, n: nat)
    requires
        s1 == s2,
        n > 0,
    ensures
        session_worker(s1, n) == session_worker(s2, n),
        0 <= session_worker(s1, n) < n,
{
}

} // verus!
