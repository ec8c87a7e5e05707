//! Worker pools fed by service discovery.

use crate::worker::Worker;
use vstd::prelude::*;

verus! {

/// A pool of workers; service discovery keeps its URLs unique.
pub type WorkerPool = Vec<Worker>;

/// `(url, healthy)` of every worker, in pool order.
pub open spec fn pool_view(ws: Seq<Worker>) -> Seq<(Seq<char>, bool)> {
    ws.map_values(|w: Worker| (w.url_view(), w.healthy_flag()))
}

/// Some entry carries `url`.
pub open spec fn view_has_url(v: Seq<(Seq<char>, bool)>, url: Seq<char>) -> bool {
    exists|i: int| 0 <= i < v.len() && (#[trigger] v[i]).0 == url
}

/// The entries whose URL differs from `url`, in order.
pub open spec fn view_without_url(v: Seq<(Seq<char>, bool)>, url: Seq<char>) -> Seq<(Seq<char>, bool)>
    decreases v.len(),
{
    if v.len() == 0 {
        v
    } else {
        let rest = view_without_url(v.drop_last(), url);
        if v.last().0 == url {
            rest
        } else {
            rest.push(v.last())
        }
    }
}

/// The pool after adding `url`: unchanged if present, else a healthy
/// worker appended.
pub open spec fn view_with_url(v: Seq<(Seq<char>, bool)>, url: Seq<char>) -> Seq<(Seq<char>, bool)> {
    if view_has_url(v, url) {
        v
    } else {
        v.push((url, true))
    }
}

/// No two entries share a URL.
pub open spec fn urls_unique(v: Seq<(Seq<char>, bool)>) -> bool {
    forall|i: int, j: int| 0 <= i < j < v.len() ==> (#[trigger] v[i]).0 != (#[trigger] v[j]).0
}

/// Add a healthy worker for `url` unless one is already present. Returns
/// whether a worker was added.
pub fn add_worker_to_pool(pool: &mut WorkerPool, url: &str) -> (added: bool)
    ensures
        added == !view_has_url(pool_view(old(pool)@), url@),
        pool_view(final(pool)@) == view_with_url(pool_view(old(pool)@), url@),
{
    let mut i: usize = 0;
    while i < pool.len()
        invariant
            i <= pool@.len(),
            forall|j: int| 0 <= j < i ==> (#[trigger] pool@[j]).url_view() != url@,
        decreases pool@.len() - i,
    {
        if crate::text::str_eq(pool[i].url_str(), url) {
            proof {
                assert(pool_view(pool@)[i as int].0 == url@);
            }
            return false;
        }
        i = i + 1;
    }
    proof {
        assert forall|j: int| 0 <= j < pool_view(pool@).len() implies (#[trigger] pool_view(
            pool@,
        )[j]).0 != url@ by {
            assert(pool_view(pool@)[j].0 == pool@[j].url_view());
        }
    }
    let ghost before = pool@;
    pool.push(Worker::new(url.to_owned()));
    assert(pool_view(pool@) =~= pool_view(before).push((url@, true)));
    true
}

/// Remove every worker carrying `url`. Returns whether one was removed.
pub fn remove_worker_from_pool(pool: &mut WorkerPool, url: &str) -> (removed: bool)
    ensures
        removed == view_has_url(pool_view(old(pool)@), url@),
        pool_view(final(pool)@) == view_without_url(pool_view(old(pool)@), url@),
{
    let ghost old_view = pool_view(pool@);
    let mut kept: Vec<Worker> = Vec::new();
    let mut removed = false;
    let mut i: usize = 0;
    while i < pool.len()
        invariant
            i <= pool@.len(),
            old_view == pool_view(pool@),
            pool_view(kept@) == view_without_url(old_view.take(i as int), url@),
            removed == view_has_url(old_view.take(i as int), url@),
        decreases pool@.len() - i,
    {
        assert(old_view.take(i + 1).drop_last() =~= old_view.take(i as int));
        assert(old_view.take(i + 1).last() == old_view[i as int]);
        if crate::text::str_eq(pool[i].url_str(), url) {
            removed = true;
            assert(old_view.take(i + 1)[i as int].0 == url@);
        } else {
            let ghost k0 = kept@;
            kept.push(pool[i].duplicate());
            assert(pool_view(kept@) =~= pool_view(k0).push(old_view[i as int]));
            assert(!view_has_url(old_view.take(i + 1), url@) <== !removed) by {
                if !removed {
                    assert forall|j: int| 0 <= j < i + 1 implies (#[trigger] old_view.take(i + 1)[j]).0 != url@ by {
                        if j < i {
                            assert(old_view.take(i + 1)[j] == old_view.take(i as int)[j]);
                        }
                    }
                }
            }
        }
        proof {
            if removed {
                if view_has_url(old_view.take(i as int), url@) {
                    let j = choose|j: int| 0 <= j < i && (#[trigger] old_view.take(i as int)[j]).0 == url@;
                    assert(old_view.take(i + 1)[j] == old_view.take(i as int)[j]);
                }
            } else {
                assert forall|j: int| 0 <= j < i + 1 implies (#[trigger] old_view.take(i + 1)[j]).0 != url@ by {
                    if j < i {
                        assert(old_view.take(i + 1)[j] == old_view.take(i as int)[j]);
                    }
                }
            }
        }
        i = i + 1;
    }
    assert(old_view.take(i as int) =~= old_view);
    *pool = kept;
    removed
}

/// Adding a URL that was absent and removing it again gives the pool back.
pub proof fn law_remove_undoes_add(v: Seq<(Seq<char>, bool)>, url: Seq<char>)
    requires
        !view_has_url(v, url),
    ensures
        view_without_url(view_with_url(v, url), url) == v,
{
    lemma_without_absent(v, url);
    assert(view_with_url(v, url).drop_last() =~= v);
}

/// Removing a URL that no entry carries changes nothing.
pub proof fn lemma_without_absent(v: Seq<(Seq<char>, bool)>, url: Seq<char>)
    requires
        !view_has_url(v, url),
    ensures
        view_without_url(v, url) == v,
    decreases v.len(),
{
    if v.len() > 0 {
        assert(!view_has_url(v.drop_last(), url)) by {
            if view_has_url(v.drop_last(), url) {
                let j = choose|j: int| 0 <= j < v.drop_last().len() && (#[trigger] v.drop_last()[j]).0 == url;
                assert(v[j] == v.drop_last()[j]);
            }
        }
        lemma_without_absent(v.drop_last(), url);
        assert(v.last() == v[v.len() - 1]);
        assert(v.drop_last().push(v.last()) =~= v);
    }
}

/// After removal no entry carries the URL.
pub proof fn lemma_without_removes(v: Seq<(Seq<char>, bool)>, url: Seq<char>)
    ensures
        !view_has_url(view_without_url(v, url), url),
        view_without_url(v, url).len() <= v.len(),
        forall|u: Seq<char>| u != url ==> (view_has_url(view_without_url(v, url), u) <==> view_has_url(v, u)),
    decreases v.len(),
{
    if v.len() > 0 {
        lemma_without_removes(v.drop_last(), url);
        let r = view_without_url(v.drop_last(), url);
        let w = view_without_url(v, url);
        assert forall|u: Seq<char>| u != url implies (view_has_url(w, u) <==> view_has_url(v, u)) by {
            let d = v.drop_last();
            assert(view_has_url(r, u) <==> view_has_url(d, u));
            if view_has_url(w, u) {
                let j = choose|j: int| 0 <= j < w.len() && (#[trigger] w[j]).0 == u;
                if j < r.len() {
                    assert(w[j] == r[j]);
                    assert(view_has_url(r, u));
                    let k = choose|k: int| 0 <= k < d.len() && (#[trigger] d[k]).0 == u;
                    assert(v[k] == d[k]);
                } else {
                    assert(w[j] == v.last());
                    assert(v[v.len() - 1] == v.last());
                }
            }
            if view_has_url(v, u) {
                let k = choose|k: int| 0 <= k < v.len() && (#[trigger] v[k]).0 == u;
                if k < v.len() - 1 {
                    assert(d[k] == v[k]);
                    assert(view_has_url(d, u));
                    let j = choose|j: int| 0 <= j < r.len() && (#[trigger] r[j]).0 == u;
                    if v.last().0 == url {
                        assert(w == r);
                    } else {
                        assert(w == r.push(v.last()));
                        assert(w[j] == r[j]);
                    }
                    assert(w[j].0 == u);
                } else {
                    assert(v.last() == v[k]);
                    assert(w == r.push(v.last()));
                    assert(w[w.len() - 1] == v.last());
                }
            }
        }
        if view_has_url(w, url) {
            let j = choose|j: int| 0 <= j < w.len() && (#[trigger] w[j]).0 == url;
            if v.last().0 == url {
                assert(w == r);
            } else {
                assert(w == r.push(v.last()));
                if j < r.len() {
                    assert(w[j] == r[j]);
                }
            }
        }
    }
}

/// Adding and removing keep URLs unique.
pub proof fn law_pool_urls_stay_unique(v: Seq<(Seq<char>, bool)>, url: Seq<char>, other: Seq<char>)
    requires
        urls_unique(v),
    ensures
        urls_unique(view_with_url(v, url)),
        urls_unique(view_without_url(v, other)),
{
    if !view_has_url(v, url) {
        let w = v.push((url, true));
        assert forall|i: int, j: int| 0 <= i < j < w.len() implies (#[trigger] w[i]).0 != (#[trigger] w[j]).0 by {
            if j < v.len() {
                assert(w[i] == v[i] && w[j] == v[j]);
            } else {
                assert(w[i] == v[i]);
            }
        }
    }
    lemma_without_unique(v, other);
}

proof fn lemma_without_unique(v: Seq<(Seq<char>, bool)>, url: Seq<char>)
    requires
        urls_unique(v),
    ensures
        urls_unique(view_without_url(v, url)),
    decreases v.len(),
{
    if v.len() > 0 {
        let d = v.drop_last();
        assert(urls_unique(d)) by {
            assert forall|i: int, j: int| 0 <= i < j < d.len() implies (#[trigger] d[i]).0 != (#[trigger] d[j]).0 by {
                assert(d[i] == v[i] && d[j] == v[j]);
            }
        }
        lemma_without_unique(d, url);
        lemma_without_removes(d, url);
        let r = view_without_url(d, url);
        if v.last().0 != url {
            let w = r.push(v.last());
            assert(!view_has_url(d, v.last().0)) by {
                if view_has_url(d, v.last().0) {
                    let k = choose|k: int| 0 <= k < d.len() && (#[trigger] d[k]).0 == v.last().0;
                    assert(d[k] == v[k]);
                    assert(v[v.len() - 1] == v.last());
                }
            }
            assert forall|i: int, j: int| 0 <= i < j < w.len() implies (#[trigger] w[i]).0 != (#[trigger] w[j]).0 by {
                if j < r.len() {
                    assert(w[i] == r[i] && w[j] == r[j]);
                } else {
                    assert(w[i] == r[i]);
                    assert(w[j] == v.last());
                }
            }
        }
    }
}

} // verus!
