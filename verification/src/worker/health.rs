//! Worker health probing decisions and the `/health` report.

use vstd::prelude::*;
use crate::net::{trim_end_char, trim_end_matches};
use crate::text::concat;
use crate::worker::Worker;

verus! {

/// The probe URL of a worker: its URL without trailing slashes, then
/// `/health`.
pub open spec fn health_url_spec(url: Seq<char>) -> Seq<char> {
    trim_end_char(url, '/') + "/health"@
}

/// The URL probed by a health check of the worker at `url`.
pub fn health_url(url: &str) -> (r: String)
    ensures
        r@ == health_url_spec(url@),
{
    let base = trim_end_matches(url, '/');
    concat(base.as_str(), "/health")
}

/// A probe succeeds exactly when the worker answers `200 OK`.
pub fn probe_passed(status: Option<u16>) -> (r: bool)
    ensures
        r == (status == Some(200u16)),
{
    match status {
        Some(s) => s == 200,
        None => false,
    }
}

/// Apply the probe outcome to a worker; returns whether its health flag
/// changed.
pub fn apply_probe(worker: &mut Worker, healthy: bool) -> (changed: bool)
    ensures
        final(worker).healthy_flag() == healthy,
        final(worker).url_view() == old(worker).url_view(),
        changed == (old(worker).healthy_flag() != healthy),
{
    let was = worker.is_healthy();
    worker.set_healthy(healthy);
    was != healthy
}

/// Per-worker health status in the `/health` report.
#[derive(Debug, Clone, PartialEq, Eq)]
pub struct WorkerStatus {
    pub url: String,
    pub healthy: bool,
}

/// The `/health` report: gateway status and per-worker health.
#[derive(Debug, Clone, PartialEq, Eq)]
pub struct HealthResponse {
    pub status: String,
    pub workers: Vec<WorkerStatus>,
}

/// The `/health` report for a pool: status `ok`, and each worker's URL
/// and health flag in pool order.
pub fn health_report(workers: &[Worker]) -> (r: HealthResponse)
    ensures
        r.status@ == "ok"@,
        r.workers@.len() == workers@.len(),
        forall|i: int|
            0 <= i < workers@.len() ==> (#[trigger] r.workers@[i]).url@ == workers@[i].url_view()
                && r.workers@[i].healthy == workers@[i].healthy_flag(),
{
    let mut out: Vec<WorkerStatus> = Vec::new();
    let mut i: usize = 0;
    while i < workers.len()
        invariant
            i <= workers@.len(),
            out@.len() == i,
            forall|k: int|
                0 <= k < i ==> (#[trigger] out@[k]).url@ == workers@[k].url_view() && out@[k].healthy
                    == workers@[k].healthy_flag(),
        decreases workers@.len() - i,
    {
        let url = workers[i].url_str().to_owned();
        out.push(WorkerStatus { url, healthy: workers[i].is_healthy() });
        i = i + 1;
    }
    HealthResponse { status: "ok".to_owned(), workers: out }
}

} // verus!
