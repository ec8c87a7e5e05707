//! The gateway's URL-only `/health` report.

use vstd::prelude::*;
use crate::worker::Worker;

verus! {

/// Gateway status and the configured worker URLs.
#[derive(Debug, Clone, PartialEq, Eq)]
pub struct HealthResponse {
    pub status: String,
    pub worker_urls: Vec<String>,
}

/// The report for a pool: status `ok` and the workers' URLs in pool order.
pub fn url_report(workers: &[Worker]) -> (r: HealthResponse)
    ensures
        r.status@ == "ok"@,
        r.worker_urls@.len() == workers@.len(),
        forall|i: int| 0 <= i < workers@.len() ==> (#[trigger] r.worker_urls@[i])@ == workers@[i].url_view(),
{
    let mut urls: Vec<String> = Vec::new();
    let mut i: usize = 0;
    while i < workers.len()
        invariant
            i <= workers@.len(),
            urls@.len() == i,
            forall|k: int| 0 <= k < i ==> (#[trigger] urls@[k])@ == workers@[k].url_view(),
        decreases workers@.len() - i,
    {
        urls.push(workers[i].url_str().to_owned());
        i = i + 1;
    }
    HealthResponse { status: "ok".to_owned(), worker_urls: urls }
}

} // verus!
