//! Tracking of discovered pods and reconciliation with the cluster.

use super::pod::{
    pod_complete, pod_healthy, pod_info_of, pool_kind, pool_kind_spec, should_include_spec,
    worker_url_spec, PodInfo, PodObject, PoolKind, ServiceDiscoveryConfig,
};
use super::pool::{
    add_worker_to_pool, pool_view, remove_worker_from_pool, view_with_url, view_without_url,
    WorkerPool,
};
use crate::text::str_eq;
use vstd::prelude::*;

verus! {

/// Two pod infos describe the same pod: same name and uid.
pub open spec fn same_pod(a: PodInfo, b: PodInfo) -> bool {
    a.name@ == b.name@ && a.uid@ == b.uid@
}

/// Some pod of `set` is the same pod as `p`.
pub open spec fn tracks(set: Seq<PodInfo>, p: PodInfo) -> bool {
    exists|i: int| 0 <= i < set.len() && same_pod(#[trigger] set[i], p)
}

/// No two pods of `set` are the same pod.
pub open spec fn distinct_pods(set: Seq<PodInfo>) -> bool {
    forall|i: int, j: int| 0 <= i < j < set.len() ==> !same_pod(#[trigger] set[i], #[trigger] set[j])
}

/// The pods of `known` that `live` does not hold, in order.
pub open spec fn stale_of(known: Seq<PodInfo>, live: Seq<PodInfo>) -> Seq<PodInfo>
    decreases known.len(),
{
    if known.len() == 0 {
        known
    } else {
        let rest = stale_of(known.drop_last(), live);
        if tracks(live, known.last()) {
            rest
        } else {
            rest.push(known.last())
        }
    }
}

/// The healthy pods of `live` that `known` does not hold, in order.
pub open spec fn missing_of(live: Seq<PodInfo>, known: Seq<PodInfo>) -> Seq<PodInfo>
    decreases live.len(),
{
    if live.len() == 0 {
        live
    } else {
        let rest = missing_of(live.drop_last(), known);
        if !tracks(known, live.last()) && pod_healthy(live.last()) {
            rest.push(live.last())
        } else {
            rest
        }
    }
}

/// Whether two pod infos are the same pod.
pub fn same_pod_exec(a: &PodInfo, b: &PodInfo) -> (r: bool)
    ensures
        r == same_pod(*a, *b),
{
    str_eq(a.name.as_str(), b.name.as_str()) && str_eq(a.uid.as_str(), b.uid.as_str())
}

/// Whether `set` holds the same pod as `p`.
pub fn tracks_exec(set: &[PodInfo], p: &PodInfo) -> (r: bool)
    ensures
        r == tracks(set@, *p),
{
    let mut i: usize = 0;
    while i < set.len()
        invariant
            i <= set@.len(),
            forall|j: int| 0 <= j < i ==> !same_pod(#[trigger] set@[j], *p),
        decreases set@.len() - i,
    {
        if same_pod_exec(&set[i], p) {
            return true;
        }
        i = i + 1;
    }
    false
}

/// Compute the reconciliation diff between known and live pods:
/// `stale` are known pods no longer live (to remove), `missing` are
/// healthy live pods not known (to add).
pub fn compute_reconciliation_diff(known: &[PodInfo], live: &[PodInfo]) -> (r: (
    Vec<PodInfo>,
    Vec<PodInfo>,
))
    ensures
        r.0@ == stale_of(known@, live@),
        r.1@ == missing_of(live@, known@),
        distinct_pods(known@) ==> distinct_pods(r.0@),
        distinct_pods(live@) ==> distinct_pods(r.1@),
{
    proof {
        if distinct_pods(known@) {
            lemma_stale_distinct(known@, live@);
        }
        if distinct_pods(live@) {
            lemma_missing_distinct(live@, known@);
        }
    }
    let mut stale: Vec<PodInfo> = Vec::new();
    let mut i: usize = 0;
    while i < known.len()
        invariant
            i <= known@.len(),
            stale@ == stale_of(known@.take(i as int), live@),
        decreases known@.len() - i,
    {
        assert(known@.take(i + 1).drop_last() =~= known@.take(i as int));
        if !tracks_exec(live, &known[i]) {
            stale.push(known[i].duplicate());
        }
        i = i + 1;
    }
    assert(known@.take(i as int) =~= known@);
    let mut missing: Vec<PodInfo> = Vec::new();
    let mut k: usize = 0;
    while k < live.len()
        invariant
            k <= live@.len(),
            missing@ == missing_of(live@.take(k as int), known@),
        decreases live@.len() - k,
    {
        assert(live@.take(k + 1).drop_last() =~= live@.take(k as int));
        if !tracks_exec(known, &live[k]) && live[k].is_healthy() {
            missing.push(live[k].duplicate());
        }
        k = k + 1;
    }
    assert(live@.take(k as int) =~= live@);
    (stale, missing)
}

/// Membership of a sequence extended by one element.
proof fn lemma_push_contains(s: Seq<PodInfo>, x: PodInfo, p: PodInfo)
    ensures
        s.push(x).contains(p) <==> (s.contains(p) || p == x),
{
    let t = s.push(x);
    if s.contains(p) {
        let j = choose|j: int| 0 <= j < s.len() && s[j] == p;
        assert(t[j] == p);
    }
    if p == x {
        assert(t[s.len() as int] == p);
    }
    if t.contains(p) {
        let j = choose|j: int| 0 <= j < t.len() && t[j] == p;
        if j < s.len() {
            assert(s[j] == p);
        }
    }
}

/// Membership in `stale_of`.
pub proof fn lemma_stale_members(known: Seq<PodInfo>, live: Seq<PodInfo>, p: PodInfo)
    ensures
        stale_of(known, live).contains(p) <==> (known.contains(p) && !tracks(live, p)),
    decreases known.len(),
{
    if known.len() > 0 {
        let d = known.drop_last();
        let x = known.last();
        lemma_stale_members(d, live, p);
        assert(known =~= d.push(x));
        lemma_push_contains(d, x, p);
        lemma_push_contains(stale_of(d, live), x, p);
    }
}

/// Membership in `missing_of`.
pub proof fn lemma_missing_members(live: Seq<PodInfo>, known: Seq<PodInfo>, p: PodInfo)
    ensures
        missing_of(live, known).contains(p) <==> (live.contains(p) && !tracks(known, p) && pod_healthy(p)),
    decreases live.len(),
{
    if live.len() > 0 {
        let d = live.drop_last();
        let x = live.last();
        lemma_missing_members(d, known, p);
        assert(live =~= d.push(x));
        lemma_push_contains(d, x, p);
        lemma_push_contains(missing_of(d, known), x, p);
    }
}

/// Pushing a pod that is no pod of a distinct set keeps it distinct.
proof fn lemma_push_distinct(s: Seq<PodInfo>, x: PodInfo)
    requires
        distinct_pods(s),
        forall|q: PodInfo| s.contains(q) ==> !same_pod(q, x),
    ensures
        distinct_pods(s.push(x)),
{
    let t = s.push(x);
    assert forall|i: int, j: int| 0 <= i < j < t.len() implies !same_pod(#[trigger] t[i], #[trigger] t[j]) by {
        if j == s.len() {
            assert(t[i] == s[i]);
            assert(s.contains(s[i]));
        } else {
            assert(t[i] == s[i] && t[j] == s[j]);
        }
    }
}

/// A distinct prefix set has a distinct last element apart from the rest.
proof fn lemma_distinct_drop_last(s: Seq<PodInfo>)
    requires
        distinct_pods(s),
        s.len() > 0,
    ensures
        distinct_pods(s.drop_last()),
        forall|q: PodInfo| s.drop_last().contains(q) ==> !same_pod(q, s.last()),
{
    let d = s.drop_last();
    assert forall|i: int, j: int| 0 <= i < j < d.len() implies !same_pod(#[trigger] d[i], #[trigger] d[j]) by {
        assert(d[i] == s[i] && d[j] == s[j]);
    }
    assert forall|q: PodInfo| d.contains(q) implies !same_pod(q, s.last()) by {
        let i = choose|i: int| 0 <= i < d.len() && d[i] == q;
        assert(s[i] == q);
        assert(!same_pod(s[i], s[s.len() - 1]));
    }
}

/// The stale pods of a distinct known set are distinct.
proof fn lemma_stale_distinct(known: Seq<PodInfo>, live: Seq<PodInfo>)
    requires
        distinct_pods(known),
    ensures
        distinct_pods(stale_of(known, live)),
    decreases known.len(),
{
    if known.len() > 0 {
        let d = known.drop_last();
        lemma_distinct_drop_last(known);
        lemma_stale_distinct(d, live);
        if !tracks(live, known.last()) {
            assert forall|q: PodInfo| stale_of(d, live).contains(q) implies !same_pod(q, known.last()) by {
                lemma_stale_members(d, live, q);
            }
            lemma_push_distinct(stale_of(d, live), known.last());
        }
    }
}

/// The missing pods of a distinct live set are distinct.
proof fn lemma_missing_distinct(live: Seq<PodInfo>, known: Seq<PodInfo>)
    requires
        distinct_pods(live),
    ensures
        distinct_pods(missing_of(live, known)),
    decreases live.len(),
{
    if live.len() > 0 {
        let d = live.drop_last();
        lemma_distinct_drop_last(live);
        lemma_missing_distinct(d, known);
        if !tracks(known, live.last()) && pod_healthy(live.last()) {
            assert forall|q: PodInfo| missing_of(d, known).contains(q) implies !same_pod(q, live.last()) by {
                lemma_missing_members(d, known, q);
            }
            lemma_push_distinct(missing_of(d, known), live.last());
        }
    }
}

/// The diff splits cleanly: a stale pod is known and not live; a missing
/// pod is live, healthy and untracked; a known pod that is not stale is
/// live; a healthy live pod that is not missing is known.
pub proof fn law_reconciliation_diff(known: Seq<PodInfo>, live: Seq<PodInfo>, p: PodInfo)
    ensures
        stale_of(known, live).contains(p) ==> known.contains(p) && !tracks(live, p),
        missing_of(live, known).contains(p) ==> live.contains(p) && !tracks(known, p)
            && pod_healthy(p),
        known.contains(p) && !stale_of(known, live).contains(p) ==> tracks(live, p),
        live.contains(p) && pod_healthy(p) && !missing_of(live, known).contains(p) ==> tracks(
            known,
            p,
        ),
{
    lemma_stale_members(known, live, p);
    lemma_missing_members(live, known, p);
}

/// The pools that discovered workers are added to.
pub struct WorkerPools {
    pub regular: WorkerPool,
    pub prefill: Option<WorkerPool>,
    pub decode: Option<WorkerPool>,
}

/// The pool of a kind, viewed (an absent pool views as empty).
pub open spec fn kind_view(p: WorkerPools, kind: PoolKind) -> Seq<(Seq<char>, bool)> {
    match kind {
        PoolKind::Regular => pool_view(p.regular@),
        PoolKind::Prefill => match p.prefill {
            Some(w) => pool_view(w@),
            None => Seq::empty(),
        },
        PoolKind::Decode => match p.decode {
            Some(w) => pool_view(w@),
            None => Seq::empty(),
        },
    }
}

/// Both states hold the same pools, except possibly the pool of `kind`.
pub open spec fn pools_agree_except(a: WorkerPools, b: WorkerPools, kind: PoolKind) -> bool {
    &&& (kind != PoolKind::Regular ==> a.regular == b.regular)
    &&& (kind != PoolKind::Prefill ==> a.prefill == b.prefill)
    &&& (kind != PoolKind::Decode ==> a.decode == b.decode)
    &&& (a.prefill is Some <==> b.prefill is Some)
    &&& (a.decode is Some <==> b.decode is Some)
}

/// The kind names a pool that is present.
pub open spec fn kind_present(p: WorkerPools, kind: PoolKind) -> bool {
    match kind {
        PoolKind::Regular => true,
        PoolKind::Prefill => p.prefill is Some,
        PoolKind::Decode => p.decode is Some,
    }
}

impl WorkerPools {
    /// Add `url` to the pool of `kind`.
    pub fn add_url(&mut self, kind: PoolKind, url: &str)
        requires
            kind_present(*old(self), kind),
        ensures
            kind_view(*final(self), kind) == view_with_url(kind_view(*old(self), kind), url@),
            pools_agree_except(*final(self), *old(self), kind),
    {
        match kind {
            PoolKind::Regular => {
                add_worker_to_pool(&mut self.regular, url);
            },
            PoolKind::Prefill => {
                if let Some(p) = &mut self.prefill {
                    add_worker_to_pool(p, url);
                }
            },
            PoolKind::Decode => {
                if let Some(p) = &mut self.decode {
                    add_worker_to_pool(p, url);
                }
            },
        }
    }

    /// Remove `url` from the pool of `kind`.
    pub fn remove_url(&mut self, kind: PoolKind, url: &str)
        requires
            kind_present(*old(self), kind),
        ensures
            kind_view(*final(self), kind) == view_without_url(kind_view(*old(self), kind), url@),
            pools_agree_except(*final(self), *old(self), kind),
    {
        match kind {
            PoolKind::Regular => {
                remove_worker_from_pool(&mut self.regular, url);
            },
            PoolKind::Prefill => {
                if let Some(p) = &mut self.prefill {
                    remove_worker_from_pool(p, url);
                }
            },
            PoolKind::Decode => {
                if let Some(p) = &mut self.decode {
                    remove_worker_from_pool(p, url);
                }
            },
        }
    }
}

/// Index of the first known pod with the same name and another uid (a
/// restarted pod), if any.
pub open spec fn restarted_index(known: Seq<PodInfo>, p: PodInfo) -> Option<int>
    decreases known.len(),
{
    if known.len() == 0 {
        None
    } else {
        match restarted_index(known.drop_last(), p) {
            Some(i) => Some(i),
            None => if known.last().name@ == p.name@ && known.last().uid@ != p.uid@ {
                Some(known.len() - 1)
            } else {
                None
            },
        }
    }
}

proof fn lemma_restarted_index(known: Seq<PodInfo>, p: PodInfo)
    ensures
        restarted_index(known, p) matches Some(i) ==> 0 <= i < known.len() && known[i].name@
            == p.name@ && known[i].uid@ != p.uid@,
    decreases known.len(),
{
    if known.len() > 0 {
        lemma_restarted_index(known.drop_last(), p);
    }
}

/// The known set minus the pod at `i`.
pub open spec fn remove_at(s: Seq<PodInfo>, i: int) -> Seq<PodInfo> {
    s.subrange(0, i) + s.subrange(i + 1, s.len() as int)
}

/// The known set minus the pods that are the same pod as `p`.
pub open spec fn forget(s: Seq<PodInfo>, p: PodInfo) -> Seq<PodInfo>
    decreases s.len(),
{
    if s.len() == 0 {
        s
    } else {
        let rest = forget(s.drop_last(), p);
        if same_pod(s.last(), p) {
            rest
        } else {
            rest.push(s.last())
        }
    }
}

/// Find the first restarted pod.
fn find_restarted(known: &Vec<PodInfo>, p: &PodInfo) -> (r: Option<usize>)
    ensures
        match r {
            Some(i) => restarted_index(known@, *p) == Some(i as int),
            None => restarted_index(known@, *p) is None,
        },
{
    let mut i: usize = 0;
    while i < known.len()
        invariant
            i <= known@.len(),
            restarted_index(known@.take(i as int), *p) is None,
        decreases known@.len() - i,
    {
        assert(known@.take(i + 1).drop_last() =~= known@.take(i as int));
        if str_eq(known[i].name.as_str(), p.name.as_str()) && !str_eq(
            known[i].uid.as_str(),
            p.uid.as_str(),
        ) {
            proof {
                lemma_restarted_prefix(known@, *p, i + 1);
            }
            return Some(i);
        }
        i = i + 1;
    }
    assert(known@.take(i as int) =~= known@);
    None
}

proof fn lemma_restarted_prefix(known: Seq<PodInfo>, p: PodInfo, n: int)
    requires
        0 <= n <= known.len(),
        restarted_index(known.take(n), p) is Some,
    ensures
        restarted_index(known, p) == restarted_index(known.take(n), p),
    decreases known.len() - n,
{
    if n < known.len() {
        assert(known.take(n + 1).drop_last() =~= known.take(n));
        lemma_restarted_prefix(known, p, n + 1);
    } else {
        assert(known.take(n) =~= known);
    }
}

/// Remove from `known` every pod that is the same pod as `p`; returns
/// whether one was there.
pub fn forget_pod(known: &mut Vec<PodInfo>, p: &PodInfo) -> (was: bool)
    ensures
        was == tracks(old(known)@, *p),
        final(known)@ == forget(old(known)@, *p),
{
    let ghost orig = known@;
    let mut kept: Vec<PodInfo> = Vec::new();
    let mut was = false;
    let mut i: usize = 0;
    while i < known.len()
        invariant
            known@ == orig,
            i <= orig.len(),
            kept@ == forget(orig.take(i as int), *p),
            was == tracks(orig.take(i as int), *p),
        decreases orig.len() - i,
    {
        assert(orig.take(i + 1).drop_last() =~= orig.take(i as int));
        proof {
            if tracks(orig.take(i as int), *p) {
                let j = choose|j: int| 0 <= j < i && same_pod(#[trigger] orig.take(i as int)[j], *p);
                assert(orig.take(i + 1)[j] == orig.take(i as int)[j]);
            }
            if tracks(orig.take(i + 1), *p) && !same_pod(orig[i as int], *p) {
                let j = choose|j: int| 0 <= j < i + 1 && same_pod(#[trigger] orig.take(i + 1)[j], *p);
                assert(orig.take(i as int)[j] == orig.take(i + 1)[j]);
            }
            if same_pod(orig[i as int], *p) {
                assert(orig.take(i + 1)[i as int] == orig[i as int]);
            }
        }
        if same_pod_exec(&known[i], p) {
            was = true;
        } else {
            kept.push(known[i].duplicate());
        }
        i = i + 1;
    }
    assert(orig.take(i as int) =~= orig);
    *known = kept;
    was
}

/// Handle a pod deletion: forget the pod, and remove its worker from its
/// pool if it was known.
pub fn handle_pod_deletion(
    known: &mut Vec<PodInfo>,
    pod_info: &PodInfo,
    pools: &mut WorkerPools,
    port: u16,
    pd_mode: bool,
)
    ensures
        final(known)@ == forget(old(known)@, *pod_info),
        distinct_pods(old(known)@) ==> distinct_pods(final(known)@),
        ({
            let kind = pool_kind_spec(pod_info.pod_type, pd_mode, old(pools).prefill is Some, old(pools).decode is Some);
            &&& pools_agree_except(*final(pools), *old(pools), kind)
            &&& kind_view(*final(pools), kind) == if tracks(old(known)@, *pod_info) {
                view_without_url(kind_view(*old(pools), kind), worker_url_spec(pod_info.ip@, port))
            } else {
                kind_view(*old(pools), kind)
            }
        }),
{
    let worker_url = pod_info.worker_url(port);
    let kind = pool_kind(pod_info, pd_mode, pools.prefill.is_some(), pools.decode.is_some());
    proof {
        if distinct_pods(known@) {
            lemma_forget_distinct(known@, *pod_info);
        }
    }
    let was_tracked = forget_pod(known, pod_info);
    if was_tracked {
        pools.remove_url(kind, worker_url.as_str());
    }
}

/// The known set after admitting `p`: any restarted pod of the same name
/// is evicted, and `p` is appended.
pub open spec fn admitted(known: Seq<PodInfo>, p: PodInfo) -> Seq<PodInfo> {
    match restarted_index(known, p) {
        Some(i) => remove_at(known, i).push(p),
        None => known.push(p),
    }
}

/// Handle a pod create/update event: a healthy pod that is not yet known
/// is known and its worker added to its pool; a restarted pod of the same
/// name (other uid) is evicted first, known set and pool alike. Unhealthy
/// or already known pods change nothing.
pub fn handle_pod_event(
    known: &mut Vec<PodInfo>,
    pod_info: &PodInfo,
    pools: &mut WorkerPools,
    port: u16,
    pd_mode: bool,
)
    ensures
        distinct_pods(old(known)@) ==> distinct_pods(final(known)@),
        ({
            let kind = pool_kind_spec(pod_info.pod_type, pd_mode, old(pools).prefill is Some, old(pools).decode is Some);
            if !pod_healthy(*pod_info) || tracks(old(known)@, *pod_info) {
                &&& final(known)@ == old(known)@
                &&& *final(pools) == *old(pools)
            } else {
                &&& final(known)@ == admitted(old(known)@, *pod_info)
                &&& pools_agree_except(*final(pools), *old(pools), kind)
                &&& kind_view(*final(pools), kind) == view_with_url(
                    match restarted_index(old(known)@, *pod_info) {
                        Some(i) => view_without_url(
                            kind_view(*old(pools), kind),
                            worker_url_spec(old(known)@[i].ip@, port),
                        ),
                        None => kind_view(*old(pools), kind),
                    },
                    worker_url_spec(pod_info.ip@, port),
                )
            }
        }),
{
    if !pod_info.is_healthy() {
        return;
    }
    if tracks_exec(known.as_slice(), pod_info) {
        return;
    }
    let worker_url = pod_info.worker_url(port);
    let kind = pool_kind(pod_info, pd_mode, pools.prefill.is_some(), pools.decode.is_some());
    proof {
        lemma_restarted_index(known@, *pod_info);
        if distinct_pods(known@) {
            lemma_admitted_distinct(known@, *pod_info);
        }
    }
    match find_restarted(known, pod_info) {
        Some(i) => {
            let old_url = known[i].worker_url(port);
            let ghost before = known@;
            known.remove(i);
            known.push(pod_info.duplicate());
            assert(known@ =~= remove_at(before, i as int).push(*pod_info));
            pools.remove_url(kind, old_url.as_str());
            pools.add_url(kind, worker_url.as_str());
        },
        None => {
            known.push(pod_info.duplicate());
            pools.add_url(kind, worker_url.as_str());
        },
    }
}

/// What the pod watcher does with one applied pod object: a pod that the
/// configuration selects and that yields a `PodInfo` is handled as a
/// deletion when it carries a deletion timestamp, else as a create/update
/// event; other pods change nothing. Returns the `PodInfo` handled.
pub fn apply_watched_pod(
    known: &mut Vec<PodInfo>,
    pod: &PodObject,
    config: &ServiceDiscoveryConfig,
    pools: &mut WorkerPools,
) -> (r: Option<PodInfo>)
    ensures
        r is Some <==> should_include_spec(*pod, *config) && pod_complete(*pod),
        r is None ==> final(known)@ == old(known)@ && *final(pools) == *old(pools),
        distinct_pods(old(known)@) ==> distinct_pods(final(known)@),
        r matches Some(info) ==> {
            let kind = pool_kind_spec(info.pod_type, config.pd_mode, old(pools).prefill is Some, old(pools).decode is Some);
            &&& pod_info_of(info, *pod, Some(*config))
            &&& pools_agree_except(*final(pools), *old(pools), kind)
            &&& pod.deleting ==> final(known)@ == forget(old(known)@, info)
            &&& pod.deleting ==> kind_view(*final(pools), kind) == if tracks(old(known)@, info) {
                view_without_url(kind_view(*old(pools), kind), worker_url_spec(info.ip@, config.port))
            } else {
                kind_view(*old(pools), kind)
            }
            &&& !pod.deleting ==> if !pod_healthy(info) || tracks(old(known)@, info) {
                &&& final(known)@ == old(known)@
                &&& *final(pools) == *old(pools)
            } else {
                &&& final(known)@ == admitted(old(known)@, info)
                &&& kind_view(*final(pools), kind) == view_with_url(
                    match restarted_index(old(known)@, info) {
                        Some(i) => view_without_url(
                            kind_view(*old(pools), kind),
                            worker_url_spec(old(known)@[i].ip@, config.port),
                        ),
                        None => kind_view(*old(pools), kind),
                    },
                    worker_url_spec(info.ip@, config.port),
                )
            }
        },
{
    if !PodInfo::should_include(pod, config) {
        return None;
    }
    match PodInfo::from_pod(pod, Some(config)) {
        Some(info) => {
            if pod.deleting {
                handle_pod_deletion(known, &info, pools, config.port, config.pd_mode);
            } else {
                handle_pod_event(known, &info, pools, config.port, config.pd_mode);
            }
            Some(info)
        },
        None => None,
    }
}

/// A pod of the list that discovery keeps: selected by the configuration
/// and not being deleted.
pub open spec fn kept_pod(pod: PodObject, c: ServiceDiscoveryConfig) -> bool {
    should_include_spec(pod, c) && !pod.deleting
}

/// `info` was built from some kept, complete pod of the list.
pub open spec fn from_list(info: PodInfo, pods: Seq<PodObject>, c: ServiceDiscoveryConfig) -> bool {
    exists|j: int|
        0 <= j < pods.len() && kept_pod(#[trigger] pods[j], c) && pod_complete(pods[j])
            && pod_info_of(info, pods[j], Some(c))
}

/// The views of the regular, prefill and decode pools (an absent pool
/// views as empty).
pub open spec fn pools_view(p: WorkerPools) -> (Seq<(Seq<char>, bool)>, Seq<(Seq<char>, bool)>, Seq<(Seq<char>, bool)>) {
    (kind_view(p, PoolKind::Regular), kind_view(p, PoolKind::Prefill), kind_view(p, PoolKind::Decode))
}

/// The view of the pool of `kind` in a pools view.
pub open spec fn view_of_kind(
    m: (Seq<(Seq<char>, bool)>, Seq<(Seq<char>, bool)>, Seq<(Seq<char>, bool)>),
    kind: PoolKind,
) -> Seq<(Seq<char>, bool)> {
    match kind {
        PoolKind::Regular => m.0,
        PoolKind::Prefill => m.1,
        PoolKind::Decode => m.2,
    }
}

/// A pools view with the pool of `kind` replaced by `v`.
pub open spec fn with_kind_view(
    m: (Seq<(Seq<char>, bool)>, Seq<(Seq<char>, bool)>, Seq<(Seq<char>, bool)>),
    kind: PoolKind,
    v: Seq<(Seq<char>, bool)>,
) -> (Seq<(Seq<char>, bool)>, Seq<(Seq<char>, bool)>, Seq<(Seq<char>, bool)>) {
    match kind {
        PoolKind::Regular => (v, m.1, m.2),
        PoolKind::Prefill => (m.0, v, m.2),
        PoolKind::Decode => (m.0, m.1, v),
    }
}

/// The known set and pools after forgetting each pod of `stale` and
/// removing its worker from its pool, in order.
pub open spec fn removals(
    known: Seq<PodInfo>,
    m: (Seq<(Seq<char>, bool)>, Seq<(Seq<char>, bool)>, Seq<(Seq<char>, bool)>),
    stale: Seq<PodInfo>,
    port: u16,
    pd_mode: bool,
    has_prefill: bool,
    has_decode: bool,
) -> (Seq<PodInfo>, (Seq<(Seq<char>, bool)>, Seq<(Seq<char>, bool)>, Seq<(Seq<char>, bool)>))
    decreases stale.len(),
{
    if stale.len() == 0 {
        (known, m)
    } else {
        let (k1, m1) = removals(known, m, stale.drop_last(), port, pd_mode, has_prefill, has_decode);
        let p = stale.last();
        let kind = pool_kind_spec(p.pod_type, pd_mode, has_prefill, has_decode);
        (
            forget(k1, p),
            with_kind_view(m1, kind, view_without_url(view_of_kind(m1, kind), worker_url_spec(p.ip@, port))),
        )
    }
}

/// The known set and pools after one pod event (see `handle_pod_event`).
pub open spec fn event_step(
    known: Seq<PodInfo>,
    m: (Seq<(Seq<char>, bool)>, Seq<(Seq<char>, bool)>, Seq<(Seq<char>, bool)>),
    p: PodInfo,
    port: u16,
    pd_mode: bool,
    has_prefill: bool,
    has_decode: bool,
) -> (Seq<PodInfo>, (Seq<(Seq<char>, bool)>, Seq<(Seq<char>, bool)>, Seq<(Seq<char>, bool)>)) {
    if !pod_healthy(p) || tracks(known, p) {
        (known, m)
    } else {
        let kind = pool_kind_spec(p.pod_type, pd_mode, has_prefill, has_decode);
        let base = match restarted_index(known, p) {
            Some(i) => view_without_url(view_of_kind(m, kind), worker_url_spec(known[i].ip@, port)),
            None => view_of_kind(m, kind),
        };
        (admitted(known, p), with_kind_view(m, kind, view_with_url(base, worker_url_spec(p.ip@, port))))
    }
}

/// The known set and pools after the pod events of `missing`, in order.
pub open spec fn admissions(
    known: Seq<PodInfo>,
    m: (Seq<(Seq<char>, bool)>, Seq<(Seq<char>, bool)>, Seq<(Seq<char>, bool)>),
    missing: Seq<PodInfo>,
    port: u16,
    pd_mode: bool,
    has_prefill: bool,
    has_decode: bool,
) -> (Seq<PodInfo>, (Seq<(Seq<char>, bool)>, Seq<(Seq<char>, bool)>, Seq<(Seq<char>, bool)>))
    decreases missing.len(),
{
    if missing.len() == 0 {
        (known, m)
    } else {
        let (k1, m1) = admissions(known, m, missing.drop_last(), port, pd_mode, has_prefill, has_decode);
        event_step(k1, m1, missing.last(), port, pd_mode, has_prefill, has_decode)
    }
}

/// The known set and pools that reconciling against the live set `live`
/// yields: the stale pods are forgotten and their workers removed, then
/// the missing pods are admitted.
pub open spec fn reconciled(
    known: Seq<PodInfo>,
    m: (Seq<(Seq<char>, bool)>, Seq<(Seq<char>, bool)>, Seq<(Seq<char>, bool)>),
    live: Seq<PodInfo>,
    port: u16,
    pd_mode: bool,
    has_prefill: bool,
    has_decode: bool,
) -> (Seq<PodInfo>, (Seq<(Seq<char>, bool)>, Seq<(Seq<char>, bool)>, Seq<(Seq<char>, bool)>)) {
    let (k1, m1) = removals(known, m, stale_of(known, live), port, pd_mode, has_prefill, has_decode);
    admissions(k1, m1, missing_of(live, known), port, pd_mode, has_prefill, has_decode)
}

/// The live set of a pod list: distinct pods, each built from a kept,
/// complete pod of the list, and every kept, complete pod of the list
/// represented by name and uid.
pub open spec fn live_set_of(live: Seq<PodInfo>, pods: Seq<PodObject>, c: ServiceDiscoveryConfig) -> bool {
    &&& distinct_pods(live)
    &&& forall|k: int| 0 <= k < live.len() ==> from_list(#[trigger] live[k], pods, c)
    &&& forall|j: int|
        0 <= j < pods.len() && kept_pod(#[trigger] pods[j], c) && pod_complete(pods[j]) ==> exists|k: int|
            0 <= k < live.len() && (#[trigger] live[k]).name@ == pods[j].name.unwrap()@ && live[k].uid@
                == pods[j].uid.unwrap()@
}

/// Build the set of live pods from a pod list: kept pods that yield a
/// `PodInfo`, one per identity (the first one listed).
pub fn build_live_pod_set(pod_list: &[PodObject], config: &ServiceDiscoveryConfig) -> (live: Vec<
    PodInfo,
>)
    ensures
        live_set_of(live@, pod_list@, *config),
{
    let mut live: Vec<PodInfo> = Vec::new();
    let mut i: usize = 0;
    while i < pod_list.len()
        invariant
            i <= pod_list@.len(),
            distinct_pods(live@),
            forall|k: int| 0 <= k < live@.len() ==> from_list(#[trigger] live@[k], pod_list@, *config),
            forall|j: int|
                0 <= j < i && kept_pod(#[trigger] pod_list@[j], *config) && pod_complete(pod_list@[j])
                    ==> exists|k: int|
                    0 <= k < live@.len() && (#[trigger] live@[k]).name@ == pod_list@[j].name.unwrap()@
                        && live@[k].uid@ == pod_list@[j].uid.unwrap()@,
        decreases pod_list@.len() - i,
    {
        let pod = &pod_list[i];
        if PodInfo::should_include(pod, config) && !pod.deleting {
            match PodInfo::from_pod(pod, Some(config)) {
                Some(info) => {
                    if !tracks_exec(live.as_slice(), &info) {
                        let ghost before = live@;
                        live.push(info);
                        proof {
                            assert forall|a: int, b: int| 0 <= a < b < live@.len() implies !same_pod(
                                #[trigger] live@[a],
                                #[trigger] live@[b],
                            ) by {
                                if b < before.len() {
                                    assert(live@[a] == before[a] && live@[b] == before[b]);
                                } else {
                                    assert(live@[a] == before[a]);
                                    if same_pod(before[a], info) {
                                        assert(tracks(before, info));
                                    }
                                }
                            }
                            assert forall|k: int| 0 <= k < live@.len() implies from_list(#[trigger] live@[k], pod_list@, *config) by {
                                if k < before.len() {
                                    assert(live@[k] == before[k]);
                                } else {
                                    assert(live@[k] == info);
                                    assert(pod_list@[i as int] == *pod);
                                }
                            }
                            assert forall|j: int|
                                0 <= j < i + 1 && kept_pod(#[trigger] pod_list@[j], *config) && pod_complete(pod_list@[j])
                                implies exists|k: int|
                                    0 <= k < live@.len() && (#[trigger] live@[k]).name@ == pod_list@[j].name.unwrap()@
                                        && live@[k].uid@ == pod_list@[j].uid.unwrap()@ by {
                                if j < i {
                                    let k = choose|k: int|
                                        0 <= k < before.len() && (#[trigger] before[k]).name@ == pod_list@[j].name.unwrap()@
                                            && before[k].uid@ == pod_list@[j].uid.unwrap()@;
                                    assert(live@[k] == before[k]);
                                } else {
                                    assert(live@[before.len() as int] == info);
                                }
                            }
                        }
                    } else {
                        proof {
                            let k = choose|k: int| 0 <= k < live@.len() && same_pod(#[trigger] live@[k], info);
                            assert(live@[k].name@ == pod_list@[i as int].name.unwrap()@);
                        }
                    }
                },
                None => {},
            }
        }
        i = i + 1;
    }
    live
}

/// Members of `forget(s, p)` are members of `s` that are not `p`'s pod.
proof fn lemma_forget_members(s: Seq<PodInfo>, p: PodInfo, q: PodInfo)
    ensures
        forget(s, p).contains(q) <==> (s.contains(q) && !same_pod(q, p)),
    decreases s.len(),
{
    if s.len() > 0 {
        let d = s.drop_last();
        let x = s.last();
        lemma_forget_members(d, p, q);
        assert(s =~= d.push(x));
        lemma_push_contains(d, x, q);
        lemma_push_contains(forget(d, p), x, q);
    }
}

/// Forgetting a pod keeps a known set distinct.
proof fn lemma_forget_distinct(s: Seq<PodInfo>, p: PodInfo)
    requires
        distinct_pods(s),
    ensures
        distinct_pods(forget(s, p)),
    decreases s.len(),
{
    if s.len() > 0 {
        let d = s.drop_last();
        lemma_distinct_drop_last(s);
        lemma_forget_distinct(d, p);
        if !same_pod(s.last(), p) {
            assert forall|q: PodInfo| forget(d, p).contains(q) implies !same_pod(q, s.last()) by {
                lemma_forget_members(d, p, q);
            }
            lemma_push_distinct(forget(d, p), s.last());
        }
    }
}

/// Admitting a pod that is not known keeps a known set distinct.
proof fn lemma_admitted_distinct(s: Seq<PodInfo>, p: PodInfo)
    requires
        distinct_pods(s),
        !tracks(s, p),
    ensures
        distinct_pods(admitted(s, p)),
{
    lemma_restarted_index(s, p);
    let base = match restarted_index(s, p) {
        Some(r) => remove_at(s, r),
        None => s,
    };
    match restarted_index(s, p) {
        Some(r) => {
            assert forall|a: int, b: int| 0 <= a < b < base.len() implies !same_pod(#[trigger] base[a], #[trigger] base[b]) by {
                let a2 = if a < r { a } else { a + 1 };
                let b2 = if b < r { b } else { b + 1 };
                assert(base[a] == s[a2] && base[b] == s[b2]);
            }
            assert forall|q: PodInfo| base.contains(q) implies !same_pod(q, p) by {
                let j = choose|j: int| 0 <= j < base.len() && base[j] == q;
                let j2 = if j < r { j } else { j + 1 };
                assert(base[j] == s[j2]);
                if same_pod(q, p) {
                    assert(same_pod(s[j2], p));
                }
            }
        },
        None => {
            assert forall|q: PodInfo| base.contains(q) implies !same_pod(q, p) by {
                let j = choose|j: int| 0 <= j < base.len() && base[j] == q;
                if same_pod(q, p) {
                    assert(same_pod(s[j], p));
                }
            }
        },
    }
    lemma_push_distinct(base, p);
    assert(admitted(s, p) == base.push(p));
}

/// Members of `admitted(s, p)` are `p` or members of `s`.
proof fn lemma_admitted_members(s: Seq<PodInfo>, p: PodInfo, q: PodInfo)
    requires
        admitted(s, p).contains(q),
    ensures
        q == p || s.contains(q),
{
    lemma_restarted_index(s, p);
    let a = admitted(s, p);
    let j = choose|j: int| 0 <= j < a.len() && a[j] == q;
    match restarted_index(s, p) {
        Some(r) => {
            if j < a.len() - 1 {
                if j < r {
                    assert(s[j] == q);
                } else {
                    assert(s[j + 1] == q);
                }
            }
        },
        None => {
            if j < s.len() {
                assert(s[j] == q);
            }
        },
    }
}

/// Reconcile the known pods with the cluster's pod list: forget pods that
/// are no longer live (removing their workers), then admit healthy live pods
/// that are not known. Afterwards every known pod is live.
pub fn reconcile_pods(
    known: &mut Vec<PodInfo>,
    pod_list: &[PodObject],
    config: &ServiceDiscoveryConfig,
    pools: &mut WorkerPools,
    port: u16,
)
    ensures
        forall|i: int| 0 <= i < final(known)@.len() ==> from_list(#[trigger] final(known)@[i], pod_list@, *config)
            || exists|j: int| 0 <= j < pod_list@.len() && kept_pod(#[trigger] pod_list@[j], *config) && pod_complete(pod_list@[j])
                && pod_list@[j].name.unwrap()@ == final(known)@[i].name@ && pod_list@[j].uid.unwrap()@ == final(known)@[i].uid@,
        final(pools).prefill is Some <==> old(pools).prefill is Some,
        final(pools).decode is Some <==> old(pools).decode is Some,
        distinct_pods(old(known)@) ==> distinct_pods(final(known)@),
        exists|live: Seq<PodInfo>|
            #[trigger] live_set_of(live, pod_list@, *config) && (final(known)@, pools_view(*final(pools))) == reconciled(
                old(known)@,
                pools_view(*old(pools)),
                live,
                port,
                config.pd_mode,
                old(pools).prefill is Some,
                old(pools).decode is Some,
            ),
{
    let ghost m0 = pools_view(*pools);
    let ghost hp = pools.prefill is Some;
    let ghost hd = pools.decode is Some;
    let live = build_live_pod_set(pod_list, config);
    let (stale, missing) = compute_reconciliation_diff(known.as_slice(), live.as_slice());
    let ghost known0 = known@;
    proof {
        assert forall|q: PodInfo| known@.contains(q) && !tracks(live@, q) implies stale@.contains(q) by {
            lemma_stale_members(known@, live@, q);
        }
    }
    let mut i: usize = 0;
    while i < stale.len()
        invariant
            i <= stale@.len(),
            forall|q: PodInfo| #[trigger] known@.contains(q) ==> tracks(live@, q) || exists|k: int|
                i <= k < stale@.len() && same_pod(q, #[trigger] stale@[k]),
            pools.prefill is Some <==> old(pools).prefill is Some,
            pools.decode is Some <==> old(pools).decode is Some,
            hp == (old(pools).prefill is Some),
            hd == (old(pools).decode is Some),
            stale@ == stale_of(known0, live@),
            distinct_pods(known0) ==> distinct_pods(known@),
            (known@, pools_view(*pools)) == removals(known0, m0, stale@.take(i as int), port, config.pd_mode, hp, hd),
        decreases stale@.len() - i,
    {
        assert(stale@.take(i + 1).drop_last() =~= stale@.take(i as int));
        let ghost pv = pools_view(*pools);
        let p = &stale[i];
        let url = p.worker_url(port);
        let kind = pool_kind(p, config.pd_mode, pools.prefill.is_some(), pools.decode.is_some());
        let ghost pre = *pools;
        pools.remove_url(kind, url.as_str());
        assert(pools_view(*pools) == with_kind_view(pv, kind, view_without_url(view_of_kind(pv, kind), url@)));
        let ghost before = known@;
        proof {
            if distinct_pods(before) {
                lemma_forget_distinct(before, *p);
            }
        }
        forget_pod(known, p);
        proof {
            assert forall|q: PodInfo| #[trigger] known@.contains(q) implies tracks(live@, q) || exists|k: int|
                i + 1 <= k < stale@.len() && same_pod(q, #[trigger] stale@[k]) by {
                lemma_forget_members(before, *p, q);
                if !tracks(live@, q) {
                    let k = choose|k: int| i <= k < stale@.len() && same_pod(q, #[trigger] stale@[k]);
                    if k == i {
                        assert(same_pod(q, *p));
                    }
                }
            }
        }
        i = i + 1;
    }
    assert(stale@.take(i as int) =~= stale@);
    let ghost k1 = known@;
    let ghost m1 = pools_view(*pools);
    proof {
        assert forall|q: PodInfo| missing@.contains(q) implies live@.contains(q) by {
            lemma_missing_members(live@, known0, q);
        }
        lemma_missing_in_live(live@, missing@);
    }
    let mut m: usize = 0;
    while m < missing.len()
        invariant
            m <= missing@.len(),
            forall|q: PodInfo| #[trigger] known@.contains(q) ==> tracks(live@, q),
            forall|q: PodInfo| #[trigger] missing@.contains(q) ==> tracks(live@, q),
            pools.prefill is Some <==> old(pools).prefill is Some,
            pools.decode is Some <==> old(pools).decode is Some,
            hp == (old(pools).prefill is Some),
            hd == (old(pools).decode is Some),
            missing@ == missing_of(live@, known0),
            distinct_pods(known0) ==> distinct_pods(known@),
            (known@, pools_view(*pools)) == admissions(k1, m1, missing@.take(m as int), port, config.pd_mode, hp, hd),
        decreases missing@.len() - m,
    {
        assert(missing@.take(m + 1).drop_last() =~= missing@.take(m as int));
        let ghost pv = pools_view(*pools);
        let ghost pre = *pools;
        let ghost before = known@;
        handle_pod_event(known, &missing[m], pools, port, config.pd_mode);
        assert((known@, pools_view(*pools)) == event_step(before, pv, missing@[m as int], port, config.pd_mode, hp, hd));
        proof {
            assert(missing@.contains(missing@[m as int]));
            assert forall|q: PodInfo| #[trigger] known@.contains(q) implies tracks(live@, q) by {
                if known@ != before {
                    lemma_admitted_members(before, missing@[m as int], q);
                }
            }
        }
        m = m + 1;
    }
    assert(missing@.take(m as int) =~= missing@);
    assert(live_set_of(live@, pod_list@, *config));
    assert((known@, pools_view(*pools)) == reconciled(known0, m0, live@, port, config.pd_mode, hp, hd));
    proof {
        assert forall|i: int| 0 <= i < known@.len() implies from_list(#[trigger] known@[i], pod_list@, *config)
            || exists|j: int| 0 <= j < pod_list@.len() && kept_pod(#[trigger] pod_list@[j], *config) && pod_complete(pod_list@[j])
                && pod_list@[j].name.unwrap()@ == known@[i].name@ && pod_list@[j].uid.unwrap()@ == known@[i].uid@ by {
            assert(known@.contains(known@[i]));
            let k = choose|k: int| 0 <= k < live@.len() && same_pod(#[trigger] live@[k], known@[i]);
            assert(from_list(live@[k], pod_list@, *config));
            let j = choose|j: int|
                0 <= j < pod_list@.len() && kept_pod(#[trigger] pod_list@[j], *config) && pod_complete(pod_list@[j])
                    && pod_info_of(live@[k], pod_list@[j], Some(*config));
            assert(pod_list@[j].name.unwrap()@ == known@[i].name@);
        }
    }
}

/// Every missing pod is live.
proof fn lemma_missing_in_live(live: Seq<PodInfo>, missing: Seq<PodInfo>)
    requires
        forall|q: PodInfo| missing.contains(q) ==> live.contains(q),
    ensures
        forall|q: PodInfo| #[trigger] missing.contains(q) ==> tracks(live, q),
{
    assert forall|q: PodInfo| #[trigger] missing.contains(q) implies tracks(live, q) by {
        let j = choose|j: int| 0 <= j < live.len() && live[j] == q;
        assert(same_pod(live[j], q));
    }
}

/// Seconds to wait before restarting a failed watcher: the previous delay
/// doubled, capped at 300 seconds.
pub fn next_retry_delay(delay_secs: u64) -> (d: u64)
    ensures
        d == if delay_secs * 2 > 300 { 300 } else { delay_secs * 2 },
{
    if delay_secs > 150 {
        300
    } else {
        delay_secs * 2
    }
}

} // verus!
