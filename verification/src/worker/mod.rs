//! Worker node abstraction with health status tracking.

pub mod health;

use vstd::prelude::*;

verus! {

/// A worker node identified by URL with a health flag.
///
/// Workers start optimistic (healthy) so they can serve requests before the
/// first health check completes.
pub struct Worker {
    pub url: String,
    healthy: bool,
}

impl Worker {
    /// The worker's URL: the view of the `url` field. (With the health
    /// flag private, contracts outside this module cannot read the field
    /// itself; `url_str` hands out the same text.)
    pub closed spec fn url_view(&self) -> Seq<char> {
        self.url@
    }

    /// The current health flag.
    pub closed spec fn healthy_flag(&self) -> bool {
        self.healthy
    }

    /// Create a new worker, initially marked healthy.
    pub fn new(url: String) -> (w: Self)
        ensures
            w.url_view() == url@,
            w.healthy_flag(),
    {
        Worker { url, healthy: true }
    }

    /// Create workers from a list of URL strings, all initially healthy.
    pub fn from_urls(urls: &[String]) -> (ws: Vec<Worker>)
        ensures
            ws@.len() == urls@.len(),
            forall|i: int|
                0 <= i < urls@.len() ==> #[trigger] ws@[i].url_view() == urls@[i]@ && ws@[i].healthy_flag(),
    {
        let mut ws: Vec<Worker> = Vec::new();
        let mut i: usize = 0;
        while i < urls.len()
            invariant
                i <= urls@.len(),
                ws@.len() == i,
                forall|j: int|
                    0 <= j < i ==> #[trigger] ws@[j].url_view() == urls@[j]@ && ws@[j].healthy_flag(),
            decreases urls@.len() - i,
        {
            ws.push(Worker::new(urls[i].clone()));
            i = i + 1;
        }
        ws
    }

    /// The worker's URL as a string slice.
    pub fn url_str(&self) -> (s: &str)
        ensures
            s@ == self.url_view(),
    {
        self.url.as_str()
    }

    /// A worker with the same URL and health flag.
    pub fn duplicate(&self) -> (w: Worker)
        ensures
            w == *self,
    {
        Worker { url: self.url.clone(), healthy: self.healthy }
    }

    /// Returns `true` if this worker is currently healthy.
    pub fn is_healthy(&self) -> (b: bool)
        ensures
            b == self.healthy_flag(),
    {
        self.healthy
    }

    /// Update the health status of this worker.
    pub fn set_healthy(&mut self, healthy: bool)
        ensures
            final(self).healthy_flag() == healthy,
            final(self).url_view() == old(self).url_view(),
    {
        self.healthy = healthy;
    }
}

/// `(index, url)` of every healthy worker, in pool order.
pub open spec fn healthy_entries(ws: Seq<Worker>) -> Seq<(usize, Seq<char>)>
    decreases ws.len(),
{
    if ws.len() == 0 {
        Seq::empty()
    } else {
        let rest = healthy_entries(ws.drop_last());
        let w = ws.last();
        if w.healthy_flag() {
            rest.push(((ws.len() - 1) as usize, w.url_view()))
        } else {
            rest
        }
    }
}

/// The plain view of a list of `(index, url)` pairs.
pub open spec fn entries_view(v: Seq<(usize, String)>) -> Seq<(usize, Seq<char>)> {
    v.map_values(|p: (usize, String)| (p.0, p.1@))
}

/// Every entry names a healthy worker by its index and URL.
pub proof fn lemma_healthy_entries(ws: Seq<Worker>)
    requires
        ws.len() <= usize::MAX,
    ensures
        forall|k: int|
            0 <= k < healthy_entries(ws).len() ==> {
                let (i, u) = #[trigger] healthy_entries(ws)[k];
                &&& i < ws.len()
                &&& ws[i as int].healthy_flag()
                &&& ws[i as int].url_view() == u
            },
        healthy_entries(ws).len() == 0 <==> forall|i: int| 0 <= i < ws.len() ==> !(
        #[trigger] ws[i]).healthy_flag(),
    decreases ws.len(),
{
    if ws.len() > 0 {
        let rest = ws.drop_last();
        lemma_healthy_entries(rest);
        let h = healthy_entries(ws);
        let hr = healthy_entries(rest);
        assert forall|k: int| 0 <= k < h.len() implies {
            let (i, u) = #[trigger] h[k];
            &&& i < ws.len()
            &&& ws[i as int].healthy_flag()
            &&& ws[i as int].url_view() == u
        } by {
            if k < hr.len() {
                assert(h[k] == hr[k]);
                let (i, u) = hr[k];
                assert(rest[i as int] == ws[i as int]);
            }
        }
        if h.len() == 0 {
            assert forall|i: int| 0 <= i < ws.len() implies !(#[trigger] ws[i]).healthy_flag() by {
                if i < ws.len() - 1 {
                    assert(rest[i] == ws[i]);
                }
            }
        } else {
            if hr.len() > 0 {
                let (i, u) = hr[0];
                assert(rest[i as int] == ws[i as int]);
            }
        }
    }
}

/// `(original_index, url)` of every healthy worker, in pool order. The
/// original index maps back into the full pool so that policy callbacks
/// receive the right index.
pub fn healthy_worker_urls(workers: &[Worker]) -> (out: Vec<(usize, String)>)
    ensures
        entries_view(out@) == healthy_entries(workers@),
{
    let mut out: Vec<(usize, String)> = Vec::new();
    let mut i: usize = 0;
    while i < workers.len()
        invariant
            i <= workers@.len(),
            entries_view(out@) == healthy_entries(workers@.take(i as int)),
        decreases workers@.len() - i,
    {
        assert(workers@.take(i + 1).drop_last() =~= workers@.take(i as int));
        if workers[i].is_healthy() {
            let u = workers[i].url.clone();
            out.push((i, u));
            assert(entries_view(out@) =~= healthy_entries(workers@.take(i as int)).push(
                (i, workers@[i as int].url_view()),
            ));
        }
        i = i + 1;
    }
    assert(workers@.take(i as int) =~= workers@);
    out
}

} // verus!
