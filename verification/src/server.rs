//! Application state: worker pools and their load-balancing policies.
//!
//! The HTTP client, the axum router and the shutdown signal live with the
//! binary; this state holds what the routing decisions read and update.

use crate::config::{PdMode, Policy};
use crate::policies::round_robin::RoundRobin;
use crate::service_discovery::reconcile::WorkerPools;
use crate::policies::{count_down, count_up, LoadBalancer, RequestContext};
use crate::worker::{entries_view, healthy_entries, healthy_worker_urls, lemma_healthy_entries, Worker};
use vstd::prelude::*;

verus! {

/// Shared application state: worker pools and the policies that pick among
/// them.
pub struct AppState<B> {
    /// Worker pool (regular mode; the decode pool in PD mode).
    pub workers: Vec<Worker>,
    /// Worker request timeout in seconds, for the HTTP client.
    pub timeout_secs: u64,
    /// The given policy of the regular pool; without one (PD mode) the
    /// regular pool is served round-robin by `fallback`.
    balancer: Option<B>,
    fallback: RoundRobin,
    pd_mode: Option<PdMode>,
    prefill_workers: Vec<Worker>,
    decode_workers: Vec<Worker>,
    prefill_policy: Option<B>,
    decode_policy: Option<B>,
    k8s_mode: bool,
    policy_type: Option<Policy>,
}

/// Every healthy worker of `ws` lies within the first `cap` workers.
pub open spec fn healthy_within(ws: Seq<Worker>, cap: nat) -> bool {
    forall|k: int| 0 <= k < healthy_entries(ws).len() ==> (#[trigger] healthy_entries(ws)[k]).0 < cap
}

/// What a selection over a pool served by a policy keeping state for `cap`
/// workers returns: `None` exactly when no worker is healthy or a healthy
/// worker lies beyond the policy's state, and otherwise one of the healthy
/// workers by index and URL.
pub open spec fn picked_from(ws: Seq<Worker>, cap: nat, r: Option<(usize, String)>) -> bool {
    match r {
        None => healthy_entries(ws).len() == 0 || !healthy_within(ws, cap),
        Some((i, u)) => {
            &&& healthy_within(ws, cap)
            &&& exists|k: int|
                0 <= k < healthy_entries(ws).len() && #[trigger] healthy_entries(ws)[k] == (i, u@)
            &&& i < ws.len()
            &&& ws[i as int].healthy_flag()
            &&& ws[i as int].url_view() == u@
        },
    }
}

/// The context as the policy sees it.
pub open spec fn ctx_view(ctx: Option<&RequestContext>) -> Option<RequestContext> {
    match ctx {
        Some(c) => Some(*c),
        None => None,
    }
}

/// A selection `r` over the healthy workers of `ws` is the healthy worker
/// at a position that `policy` chooses among them.
pub open spec fn chosen_by<P: LoadBalancer>(
    policy: P,
    ws: Seq<Worker>,
    ctx: Option<RequestContext>,
    r: Option<(usize, String)>,
) -> bool {
    r matches Some((i, u)) ==> exists|k: int|
        0 <= k < healthy_entries(ws).len() && #[trigger] healthy_entries(ws)[k] == (i, u@) && policy.chooses(
            healthy_entries(ws).len() as usize,
            ctx,
            k as usize,
        )
}

/// Pick a healthy worker with `policy` and tell the policy a request
/// started on it. The policy chooses among the healthy workers only; the
/// returned index is the worker's index in the full pool.
fn pick_worker<P: LoadBalancer>(
    workers: &Vec<Worker>,
    policy: &mut P,
    ctx: Option<&RequestContext>,
) -> (r: Option<(usize, String)>)
    ensures
        picked_from(workers@, old(policy).capacity() as nat, r),
        chosen_by(*old(policy), workers@, ctx_view(ctx), r),
        final(policy).capacity() == old(policy).capacity(),
        final(policy).remembers() == old(policy).remembers(),
        forall|p: String, s: String| #[trigger] final(policy).owners(&p, &s) == old(policy).owners(&p, &s),
        r is None ==> *final(policy) == *old(policy),
        r matches Some((i, u)) ==> i < workers@.len(),
        r matches Some((i, u)) ==> forall|w: usize|
            #[trigger] final(policy).in_flight(w) == if w == i {
                count_up(old(policy).in_flight(w))
            } else {
                old(policy).in_flight(w)
            },
{
    if workers.len() == 0 {
        return None;
    }
    let healthy = healthy_worker_urls(workers.as_slice());
    proof {
        lemma_healthy_entries(workers@);
        lemma_entries_increasing(workers@);
    }
    if healthy.len() == 0 {
        return None;
    }
    let cap = policy.capacity_limit();
    if healthy[healthy.len() - 1].0 >= cap {
        proof {
            assert(entries_view(healthy@)[healthy@.len() - 1] == healthy_entries(workers@)[healthy@.len() - 1]);
        }
        return None;
    }
    proof {
        let h = healthy_entries(workers@);
        assert(entries_view(healthy@)[healthy@.len() - 1] == h[h.len() - 1]);
        assert forall|k: int| 0 <= k < h.len() implies (#[trigger] h[k]).0 < cap by {
            if k < h.len() - 1 {
                assert(h[k].0 < h[h.len() - 1].0);
            }
        }
        assert(h[h.len() - 1].0 >= h.len() - 1);
    }
    let mut urls: Vec<String> = Vec::new();
    let mut j: usize = 0;
    while j < healthy.len()
        invariant
            j <= healthy@.len(),
            urls@.len() == j,
        decreases healthy@.len() - j,
    {
        urls.push(healthy[j].1.clone());
        j = j + 1;
    }
    let k = match ctx {
        Some(c) => policy.select_with_context(urls.as_slice(), c),
        None => policy.select(urls.as_slice()),
    };
    let i = healthy[k].0;
    let u = healthy[k].1.clone();
    proof {
        assert(entries_view(healthy@)[k as int] == healthy_entries(workers@)[k as int]);
    }
    policy.on_request_start(i);
    Some((i, u))
}

/// The indices of the healthy entries increase, so the `k`-th is at least
/// `k`.
proof fn lemma_entries_increasing(ws: Seq<Worker>)
    requires
        ws.len() <= usize::MAX,
    ensures
        forall|a: int, b: int|
            0 <= a < b < healthy_entries(ws).len() ==> (#[trigger] healthy_entries(ws)[a]).0 < (
            #[trigger] healthy_entries(ws)[b]).0,
        forall|k: int| 0 <= k < healthy_entries(ws).len() ==> (#[trigger] healthy_entries(ws)[k]).0 >= k,
        forall|k: int| 0 <= k < healthy_entries(ws).len() ==> (#[trigger] healthy_entries(ws)[k]).0 < ws.len(),
    decreases ws.len(),
{
    if ws.len() > 0 {
        let d = ws.drop_last();
        lemma_entries_increasing(d);
        lemma_entries_bounded(d);
        let rest = healthy_entries(d);
        let h = healthy_entries(ws);
        assert forall|k: int| 0 <= k < rest.len() implies #[trigger] h[k] == rest[k] by {}
        if ws.last().healthy_flag() {
            assert(h.len() == rest.len() + 1);
            assert(h[rest.len() as int].0 == ws.len() - 1);
            assert forall|a: int, b: int| 0 <= a < b < h.len() implies (#[trigger] h[a]).0 < (#[trigger] h[b]).0 by {
                assert(h[a] == rest[a]);
                if b < rest.len() {
                    assert(h[b] == rest[b]);
                } else {
                    assert(rest[a].0 < d.len());
                }
            }
            assert forall|k: int| 0 <= k < h.len() implies (#[trigger] h[k]).0 >= k && h[k].0 < ws.len() by {
                if k < rest.len() {
                    assert(h[k] == rest[k]);
                }
            }
        } else {
            assert(h == rest);
        }
    }
}

/// A pool never has more healthy entries than workers.
proof fn lemma_entries_bounded(ws: Seq<Worker>)
    ensures
        healthy_entries(ws).len() <= ws.len(),
    decreases ws.len(),
{
    if ws.len() > 0 {
        lemma_entries_bounded(ws.drop_last());
    }
}

/// Capacity of the policies built for a discovered pool, which starts
/// empty and grows as pods appear.
pub const K8S_POLICY_CAPACITY: usize = 256;

/// The URLs of a pool, in order.
pub open spec fn urls_of(ws: Seq<Worker>) -> Seq<Seq<char>> {
    Seq::new(ws.len(), |i: int| ws[i].url_view())
}

/// The URLs of a pool, in order.
fn pool_urls(ws: &Vec<Worker>) -> (r: Vec<String>)
    ensures
        r@.len() == ws@.len(),
        forall|i: int| 0 <= i < ws@.len() ==> (#[trigger] r@[i])@ == ws@[i].url_view(),
{
    let mut out: Vec<String> = Vec::new();
    let mut i: usize = 0;
    while i < ws.len()
        invariant
            i <= ws@.len(),
            out@.len() == i,
            forall|k: int| 0 <= k < i ==> (#[trigger] out@[k])@ == ws@[k].url_view(),
        decreases ws@.len() - i,
    {
        out.push(ws[i].url_str().to_owned());
        i = i + 1;
    }
    out
}

/// The views of a list of URLs.
pub open spec fn strings_view(v: Seq<String>) -> Seq<Seq<char>> {
    Seq::new(v.len(), |i: int| v[i]@)
}

/// The size a discovered pool's policy is built for: the pool's size, but
/// at least 1.
pub open spec fn policy_size(pool_len: nat) -> usize {
    if pool_len == 0 {
        1
    } else {
        pool_len as usize
    }
}

/// The three policies of the state.
#[derive(Debug, Clone, Copy, PartialEq, Eq)]
pub enum PolicySlot {
    /// The policy of the regular pool.
    Regular,
    /// The prefill policy.
    Prefill,
    /// The decode policy.
    Decode,
}

/// The policy in `slot` of `s` acts as `p`: the same capacity, counts,
/// memory and choices.
pub open spec fn acts_as<B: LoadBalancer, P: LoadBalancer>(s: AppState<B>, slot: PolicySlot, p: P) -> bool {
    &&& s.has_policy(slot)
    &&& s.policy_capacity(slot) == p.capacity() as nat
    &&& s.policy_capacity(slot) == match slot {
        PolicySlot::Regular => s.balancer_capacity(),
        PolicySlot::Prefill => s.prefill_capacity(),
        PolicySlot::Decode => s.decode_capacity(),
    }
    &&& s.policy_remembers(slot) == p.remembers()
    &&& forall|w: usize| #[trigger] s.policy_in_flight(slot, w) == p.in_flight(w)
    &&& forall|a: String, b: String| #[trigger] s.policy_owners(slot, &a, &b) == p.owners(&a, &b)
    &&& forall|n: usize, c: Option<RequestContext>, i: usize|
        #[trigger] s.policy_chooses(slot, n, c, i) == p.chooses(n, c, i)
}

/// A selection `r` over the healthy workers of `ws` is the healthy worker
/// at a position that the policy in `slot` of `s` chooses among them.
pub open spec fn chosen_in<B: LoadBalancer>(
    s: AppState<B>,
    slot: PolicySlot,
    ws: Seq<Worker>,
    ctx: Option<RequestContext>,
    r: Option<(usize, String)>,
) -> bool {
    r matches Some((i, u)) ==> exists|k: int|
        0 <= k < healthy_entries(ws).len() && #[trigger] healthy_entries(ws)[k] == (i, u@) && s.policy_chooses(
            slot,
            healthy_entries(ws).len() as usize,
            ctx,
            k as usize,
        )
}

/// The regular pool of `s` is served by a round-robin policy that starts
/// at the first worker.
pub open spec fn fresh_round_robin<B: LoadBalancer>(s: AppState<B>) -> bool {
    exists|rr: RoundRobin| rr@ == 0 && #[trigger] acts_as(s, PolicySlot::Regular, rr)
}

/// `after` is `before` with the policy in `slot` told that a request to
/// `idx` completed: one request fewer counted at `idx`, its memory kept.
pub open spec fn request_ended<B: LoadBalancer>(before: AppState<B>, after: AppState<B>, slot: PolicySlot, idx: usize) -> bool {
    &&& after.policy_remembers(slot) == before.policy_remembers(slot)
    &&& forall|w: usize|
        #[trigger] after.policy_in_flight(slot, w) == if w == idx {
            count_down(before.policy_in_flight(slot, w))
        } else {
            before.policy_in_flight(slot, w)
        }
    &&& forall|p: String, s: String| #[trigger] after.policy_owners(slot, &p, &s) == before.policy_owners(slot, &p, &s)
}

/// `after` is `before` with the policy in `slot` told that a request to
/// `idx` started: `idx` lies within the policy's capacity, one request more
/// is counted there, and the policy keeps its memory.
pub open spec fn request_started<B: LoadBalancer>(before: AppState<B>, after: AppState<B>, slot: PolicySlot, idx: usize) -> bool {
    &&& before.has_policy(slot)
    &&& (idx as nat) < before.policy_capacity(slot)
    &&& after.has_policy(slot) == before.has_policy(slot)
    &&& after.policy_capacity(slot) == before.policy_capacity(slot)
    &&& after.policy_remembers(slot) == before.policy_remembers(slot)
    &&& forall|w: usize|
        #[trigger] after.policy_in_flight(slot, w) == if w == idx {
            count_up(before.policy_in_flight(slot, w))
        } else {
            before.policy_in_flight(slot, w)
        }
    &&& forall|p: String, s: String| #[trigger] after.policy_owners(slot, &p, &s) == before.policy_owners(slot, &p, &s)
}

/// A selection in `slot`: a picked worker lies within the policy's
/// capacity and has one request more counted; without a pick the policy is
/// unchanged.
pub open spec fn selection_counted<B: LoadBalancer>(before: AppState<B>, after: AppState<B>, slot: PolicySlot, r: Option<(usize, String)>) -> bool {
    match r {
        Some((i, _)) => request_started(before, after, slot, i),
        None => after.same_policy(&before, slot),
    }
}

/// The policy in `slot` counts exactly as before and keeps its memory.
pub open spec fn policy_balanced<B: LoadBalancer>(before: AppState<B>, after: AppState<B>, slot: PolicySlot) -> bool {
    &&& after.policy_remembers(slot) == before.policy_remembers(slot)
    &&& forall|w: usize| #[trigger] after.policy_in_flight(slot, w) == before.policy_in_flight(slot, w)
    &&& forall|p: String, s: String| #[trigger] after.policy_owners(slot, &p, &s) == before.policy_owners(slot, &p, &s)
}

/// Finishing a request at `idx`: the policy in `slot` is told when there
/// is one and `idx` is within its capacity; otherwise it stays as it was.
pub open spec fn request_finished<B: LoadBalancer>(before: AppState<B>, after: AppState<B>, slot: PolicySlot, idx: usize) -> bool {
    if before.has_policy(slot) && idx < before.policy_capacity(slot) {
        request_ended(before, after, slot, idx)
    } else {
        after.same_policy(&before, slot)
    }
}

/// `after` is `before` with the policy in `slot` told of the decision to
/// route `ctx` to `idx`: a policy that remembers now names `idx` for the
/// context's prefix key and session id, one that does not keeps its
/// memory; the counts stay. Without a policy in `slot` nothing changes.
pub open spec fn request_recorded<B: LoadBalancer>(before: AppState<B>, after: AppState<B>, slot: PolicySlot, ctx: RequestContext, idx: usize) -> bool {
    if before.has_policy(slot) {
        &&& after.has_policy(slot)
        &&& after.policy_capacity(slot) == before.policy_capacity(slot)
        &&& after.policy_remembers(slot) == before.policy_remembers(slot)
        &&& forall|w: usize| #[trigger] after.policy_in_flight(slot, w) == before.policy_in_flight(slot, w)
        &&& before.policy_remembers(slot) ==> after.policy_owners(slot, &ctx.prefix_key, &ctx.session_id) == (
            Some(idx),
            Some(idx),
        )
        &&& !before.policy_remembers(slot) ==> forall|p: String, s: String|
            #[trigger] after.policy_owners(slot, &p, &s) == before.policy_owners(slot, &p, &s)
    } else {
        after.same_policy(&before, slot)
    }
}

/// A request at `idx` was finished, then its routing decision recorded,
/// with the policy in `slot`.
pub open spec fn request_completed<B: LoadBalancer>(before: AppState<B>, after: AppState<B>, slot: PolicySlot, ctx: RequestContext, idx: usize) -> bool {
    exists|mid: AppState<B>|
        request_finished(before, mid, slot, idx) && #[trigger] request_recorded(mid, after, slot, ctx, idx)
}

/// The routing decision of a request at `idx` was recorded, then the
/// request finished, with the policy in `slot`.
pub open spec fn request_answered<B: LoadBalancer>(before: AppState<B>, after: AppState<B>, slot: PolicySlot, ctx: RequestContext, idx: usize) -> bool {
    exists|mid: AppState<B>|
        #[trigger] request_recorded(before, mid, slot, ctx, idx) && request_finished(mid, after, slot, idx)
}

/// A kept policy counts as before.
pub proof fn lemma_same_policy_balanced<B: LoadBalancer>(a: AppState<B>, b: AppState<B>, slot: PolicySlot)
    requires
        b.same_policy(&a, slot),
    ensures
        policy_balanced(a, b, slot),
{
}

/// Counting as before twice counts as before.
pub proof fn lemma_balanced_trans<B: LoadBalancer>(a: AppState<B>, b: AppState<B>, c: AppState<B>, slot: PolicySlot)
    requires
        policy_balanced(a, b, slot),
        policy_balanced(b, c, slot),
    ensures
        policy_balanced(a, c, slot),
{
}

/// Every request that is started and then finished once leaves the
/// policy counting exactly as before.
pub proof fn law_start_then_end_balanced<B: LoadBalancer>(a: AppState<B>, m: AppState<B>, b: AppState<B>, slot: PolicySlot, i: usize)
    requires
        request_started(a, m, slot, i),
        request_finished(m, b, slot, i),
    ensures
        policy_balanced(a, b, slot),
{
    assert forall|w: usize| #[trigger] b.policy_in_flight(slot, w) == a.policy_in_flight(slot, w) by {
        if w == i {
            match a.policy_in_flight(slot, w) {
                Some(n) => {
                    assert(n.wrapping_add(1).wrapping_sub(1) == n);
                },
                None => {},
            }
        }
    }
}

/// Starting from a state whose policy in `slot` is that of `a` starts
/// from `a`.
pub proof fn lemma_started_from_same<B: LoadBalancer>(a: AppState<B>, b: AppState<B>, c: AppState<B>, slot: PolicySlot, i: usize)
    requires
        b.same_policy(&a, slot),
        request_started(b, c, slot, i),
    ensures
        request_started(a, c, slot, i),
        a.has_policy(slot) == b.has_policy(slot),
        a.policy_capacity(slot) == b.policy_capacity(slot),
{
}

/// A started request stays started while the policy in `slot` is kept.
pub proof fn lemma_started_kept<B: LoadBalancer>(a: AppState<B>, b: AppState<B>, c: AppState<B>, slot: PolicySlot, i: usize)
    requires
        request_started(a, b, slot, i),
        c.same_policy(&b, slot),
    ensures
        request_started(a, c, slot, i),
{
    assert forall|w: usize| #[trigger] c.policy_in_flight(slot, w) == b.policy_in_flight(slot, w) by {}
    assert forall|p: String, q: String| #[trigger]
        c.policy_owners(slot, &p, &q) == b.policy_owners(slot, &p, &q) by {}
}

/// A finished request stays finished while the policy in `slot` is kept.
pub proof fn lemma_finished_kept<B: LoadBalancer>(a: AppState<B>, b: AppState<B>, c: AppState<B>, slot: PolicySlot, i: usize)
    requires
        request_finished(a, b, slot, i),
        c.same_policy(&b, slot),
    ensures
        request_finished(a, c, slot, i),
{
    assert forall|w: usize| #[trigger] c.policy_in_flight(slot, w) == b.policy_in_flight(slot, w) by {}
    assert forall|p: String, q: String| #[trigger]
        c.policy_owners(slot, &p, &q) == b.policy_owners(slot, &p, &q) by {}
    if !(a.has_policy(slot) && (i as nat) < a.policy_capacity(slot)) {
        lemma_same_policy_trans(a, b, c, slot);
    }
}

/// A policy with the same setup has the same presence and capacity.
pub proof fn lemma_setup_capacity<B: LoadBalancer>(a: AppState<B>, b: AppState<B>, slot: PolicySlot)
    requires
        b.same_setup(&a),
    ensures
        a.has_policy(slot) == b.has_policy(slot),
        a.policy_capacity(slot) == b.policy_capacity(slot),
{
}

/// Every state keeps its own policies.
pub proof fn lemma_same_policy_refl<B: LoadBalancer>(a: AppState<B>)
    ensures
        a.same_policy(&a, PolicySlot::Regular),
        a.same_policy(&a, PolicySlot::Prefill),
        a.same_policy(&a, PolicySlot::Decode),
{
}

/// Every started request is released once: started, then finished
/// (whether its decision is recorded before, after or not at all), the
/// policy counts exactly as before the start.
pub proof fn law_started_request_released<B: LoadBalancer>(
    s0: AppState<B>,
    s1: AppState<B>,
    s2: AppState<B>,
    slot: PolicySlot,
    w: usize,
    ctx: RequestContext,
)
    requires
        request_started(s0, s1, slot, w),
        request_finished(s1, s2, slot, w) || request_completed(s1, s2, slot, ctx, w) || request_answered(
            s1,
            s2,
            slot,
            ctx,
            w,
        ),
    ensures
        forall|x: usize| #[trigger] s2.policy_in_flight(slot, x) == s0.policy_in_flight(slot, x),
{
    if request_finished(s1, s2, slot, w) {
        law_start_then_end_balanced(s0, s1, s2, slot, w);
    } else if request_completed(s1, s2, slot, ctx, w) {
        let mid = choose|mid: AppState<B>|
            request_finished(s1, mid, slot, w) && #[trigger] request_recorded(mid, s2, slot, ctx, w);
        law_start_then_end_balanced(s0, s1, mid, slot, w);
        assert forall|x: usize| #[trigger] s2.policy_in_flight(slot, x) == s0.policy_in_flight(slot, x) by {
            assert(s2.policy_in_flight(slot, x) == mid.policy_in_flight(slot, x));
            assert(mid.policy_in_flight(slot, x) == s0.policy_in_flight(slot, x));
        }
    } else {
        let mid = choose|mid: AppState<B>|
            #[trigger] request_recorded(s1, mid, slot, ctx, w) && request_finished(mid, s2, slot, w);
        assert(mid.has_policy(slot) && (w as nat) < mid.policy_capacity(slot));
        assert forall|x: usize| #[trigger] s2.policy_in_flight(slot, x) == s0.policy_in_flight(slot, x) by {
            assert(mid.policy_in_flight(slot, x) == s1.policy_in_flight(slot, x));
            if x == w {
                match s0.policy_in_flight(slot, x) {
                    Some(n) => {
                        assert(n.wrapping_add(1).wrapping_sub(1) == n);
                    },
                    None => {},
                }
            }
        }
    }
}

/// A state that keeps the policy in `slot` of a state where it acts as
/// `p` still acts as `p` there.
pub proof fn lemma_acts_as_kept<B: LoadBalancer, P: LoadBalancer>(a: AppState<B>, b: AppState<B>, slot: PolicySlot, p: P)
    requires
        acts_as(a, slot, p),
        b.same_policy(&a, slot),
    ensures
        acts_as(b, slot, p),
{
    assert forall|w: usize| #[trigger] b.policy_in_flight(slot, w) == a.policy_in_flight(slot, w) by {}
    assert forall|x: String, y: String| #[trigger] b.policy_owners(slot, &x, &y) == a.policy_owners(slot, &x, &y) by {}
    assert forall|n: usize, c: Option<RequestContext>, i: usize|
        #[trigger] b.policy_chooses(slot, n, c, i) == a.policy_chooses(slot, n, c, i) by {}
}

/// Keeping the policy in a slot twice keeps it.
pub proof fn lemma_same_policy_trans<B: LoadBalancer>(a: AppState<B>, b: AppState<B>, c: AppState<B>, slot: PolicySlot)
    requires
        b.same_policy(&a, slot),
        c.same_policy(&b, slot),
    ensures
        c.same_policy(&a, slot),
{
}

/// Finishing from a state whose policy in `slot` is that of `a` finishes
/// from `a`.
pub proof fn lemma_finished_from_same<B: LoadBalancer>(a: AppState<B>, b: AppState<B>, c: AppState<B>, slot: PolicySlot, idx: usize)
    requires
        b.same_policy(&a, slot),
        request_finished(b, c, slot, idx),
    ensures
        request_finished(a, c, slot, idx),
{
}

/// A completed request stays completed while the policy in `slot` is kept.
pub proof fn lemma_completed_kept<B: LoadBalancer>(
    a: AppState<B>,
    b: AppState<B>,
    c: AppState<B>,
    slot: PolicySlot,
    ctx: RequestContext,
    idx: usize,
)
    requires
        request_completed(a, b, slot, ctx, idx),
        c.same_policy(&b, slot),
    ensures
        request_completed(a, c, slot, ctx, idx),
{
    let mid = choose|mid: AppState<B>|
        request_finished(a, mid, slot, idx) && #[trigger] request_recorded(mid, b, slot, ctx, idx);
    if mid.has_policy(slot) {
        assert(c.policy_remembers(slot) == b.policy_remembers(slot));
        assert forall|w: usize| #[trigger] c.policy_in_flight(slot, w) == mid.policy_in_flight(slot, w) by {
            assert(c.policy_in_flight(slot, w) == b.policy_in_flight(slot, w));
        }
        assert(c.policy_owners(slot, &ctx.prefix_key, &ctx.session_id) == b.policy_owners(
            slot,
            &ctx.prefix_key,
            &ctx.session_id,
        ));
        if !mid.policy_remembers(slot) {
            assert forall|p: String, q: String| #[trigger]
                c.policy_owners(slot, &p, &q) == mid.policy_owners(slot, &p, &q) by {
                assert(c.policy_owners(slot, &p, &q) == b.policy_owners(slot, &p, &q));
            }
        }
    } else {
        lemma_same_policy_trans(mid, b, c, slot);
    }
    assert(request_recorded(mid, c, slot, ctx, idx));
}

impl<B: LoadBalancer> AppState<B> {
    /// Whether a policy is installed in `slot` (the regular one always is).
    pub closed spec fn has_policy(&self, slot: PolicySlot) -> bool {
        match slot {
            PolicySlot::Regular => true,
            PolicySlot::Prefill => self.prefill_policy is Some,
            PolicySlot::Decode => self.decode_policy is Some,
        }
    }

    /// The capacity of the policy in `slot` (0 without one).
    pub closed spec fn policy_capacity(&self, slot: PolicySlot) -> nat {
        match slot {
            PolicySlot::Regular => self.balancer_capacity(),
            PolicySlot::Prefill => self.prefill_capacity(),
            PolicySlot::Decode => self.decode_capacity(),
        }
    }

    /// The in-flight count that the policy in `slot` keeps for `worker`.
    pub closed spec fn policy_in_flight(&self, slot: PolicySlot, worker: usize) -> Option<usize> {
        match slot {
            PolicySlot::Regular => match self.balancer {
                Some(b) => b.in_flight(worker),
                None => self.fallback.in_flight(worker),
            },
            PolicySlot::Prefill => match self.prefill_policy {
                Some(p) => p.in_flight(worker),
                None => None,
            },
            PolicySlot::Decode => match self.decode_policy {
                Some(p) => p.in_flight(worker),
                None => None,
            },
        }
    }

    /// Whether the policy in `slot` remembers recorded decisions.
    pub closed spec fn policy_remembers(&self, slot: PolicySlot) -> bool {
        match slot {
            PolicySlot::Regular => match self.balancer {
                Some(b) => b.remembers(),
                None => self.fallback.remembers(),
            },
            PolicySlot::Prefill => match self.prefill_policy {
                Some(p) => p.remembers(),
                None => false,
            },
            PolicySlot::Decode => match self.decode_policy {
                Some(p) => p.remembers(),
                None => false,
            },
        }
    }

    /// The workers that the policy in `slot` last recorded for a prefix
    /// key and a session id.
    pub closed spec fn policy_owners(&self, slot: PolicySlot, prefix_key: &String, session_id: &String) -> (
        Option<usize>,
        Option<usize>,
    ) {
        match slot {
            PolicySlot::Regular => match self.balancer {
                Some(b) => b.owners(prefix_key, session_id),
                None => self.fallback.owners(prefix_key, session_id),
            },
            PolicySlot::Prefill => match self.prefill_policy {
                Some(p) => p.owners(prefix_key, session_id),
                None => (None, None),
            },
            PolicySlot::Decode => match self.decode_policy {
                Some(p) => p.owners(prefix_key, session_id),
                None => (None, None),
            },
        }
    }

    /// Whether the policy in `slot` may choose position `idx` among `n`
    /// workers, given `ctx` (never, without a policy).
    pub closed spec fn policy_chooses(&self, slot: PolicySlot, n: usize, ctx: Option<RequestContext>, idx: usize) -> bool {
        match slot {
            PolicySlot::Regular => match self.balancer {
                Some(b) => b.chooses(n, ctx, idx),
                None => self.fallback.chooses(n, ctx, idx),
            },
            PolicySlot::Prefill => match self.prefill_policy {
                Some(p) => p.chooses(n, ctx, idx),
                None => false,
            },
            PolicySlot::Decode => match self.decode_policy {
                Some(p) => p.chooses(n, ctx, idx),
                None => false,
            },
        }
    }

    /// The policy in `slot` is the same in both states.
    pub closed spec fn same_policy(&self, other: &AppState<B>, slot: PolicySlot) -> bool {
        match slot {
            PolicySlot::Regular => self.balancer == other.balancer && self.fallback == other.fallback,
            PolicySlot::Prefill => self.prefill_policy == other.prefill_policy,
            PolicySlot::Decode => self.decode_policy == other.decode_policy,
        }
    }

    /// The regular pool.
    pub closed spec fn pool(&self) -> Seq<Worker> {
        self.workers@
    }

    /// The worker request timeout in seconds.
    pub closed spec fn timeout(&self) -> u64 {
        self.timeout_secs
    }

    /// The active PD mode.
    pub closed spec fn pd_mode_spec(&self) -> Option<PdMode> {
        self.pd_mode
    }

    /// The prefill pool.
    pub closed spec fn prefill_pool(&self) -> Seq<Worker> {
        self.prefill_workers@
    }

    /// The decode pool.
    pub closed spec fn decode_pool(&self) -> Seq<Worker> {
        self.decode_workers@
    }

    /// Whether a prefill policy is installed.
    pub closed spec fn has_prefill_policy(&self) -> bool {
        self.prefill_policy is Some
    }

    /// Whether a decode policy is installed.
    pub closed spec fn has_decode_policy(&self) -> bool {
        self.decode_policy is Some
    }

    /// Number of workers the regular policy keeps state for.
    pub closed spec fn balancer_capacity(&self) -> nat {
        match self.balancer {
            Some(b) => b.capacity() as nat,
            None => self.fallback.capacity() as nat,
        }
    }

    /// Number of workers the prefill policy keeps state for (0 without one).
    pub closed spec fn prefill_capacity(&self) -> nat {
        match self.prefill_policy {
            Some(p) => p.capacity() as nat,
            None => 0,
        }
    }

    /// Number of workers the decode policy keeps state for (0 without one).
    pub closed spec fn decode_capacity(&self) -> nat {
        match self.decode_policy {
            Some(p) => p.capacity() as nat,
            None => 0,
        }
    }

    /// Whether the pools are maintained by Kubernetes service discovery.
    pub closed spec fn k8s(&self) -> bool {
        self.k8s_mode
    }

    /// The policy that discovered pools are served by.
    pub closed spec fn policy_type_spec(&self) -> Option<Policy> {
        self.policy_type
    }

    /// Whether the regular pool serves requests: always, except in
    /// Kubernetes PD mode, which has no regular pool.
    pub open spec fn serves_regular(&self) -> bool {
        !(self.k8s() && self.pd_mode_spec() is Some)
    }

    /// Whether the regular pool is the decode pool under another name, as
    /// in static PD mode: a health update of one applies to the other.
    pub open spec fn mirrors_decode(&self) -> bool {
        !self.k8s() && self.pd_mode_spec() is Some
    }

    /// Mode, timeout, policy kinds and capacities are unchanged.
    pub open spec fn same_setup(&self, other: &AppState<B>) -> bool {
        &&& self.timeout() == other.timeout()
        &&& self.pd_mode_spec() == other.pd_mode_spec()
        &&& self.has_prefill_policy() == other.has_prefill_policy()
        &&& self.has_decode_policy() == other.has_decode_policy()
        &&& self.balancer_capacity() == other.balancer_capacity()
        &&& self.prefill_capacity() == other.prefill_capacity()
        &&& self.decode_capacity() == other.decode_capacity()
        &&& self.k8s() == other.k8s()
        &&& self.policy_type_spec() == other.policy_type_spec()
    }

    /// Pools and setup are unchanged between two states.
    pub open spec fn same_pools(&self, other: &AppState<B>) -> bool {
        &&& self.pool() == other.pool()
        &&& self.prefill_pool() == other.prefill_pool()
        &&& self.decode_pool() == other.decode_pool()
        &&& self.same_setup(other)
    }

    /// Create state for regular mode with the given workers, worker request
    /// timeout, and policy.
    pub fn new(workers: Vec<Worker>, timeout_secs: u64, balancer: B) -> (s: Self)
        requires
            workers@.len() > 0,
        ensures
            s.pool() == workers@,
            s.timeout() == timeout_secs,
            s.pd_mode_spec() is None,
            s.prefill_pool().len() == 0,
            s.decode_pool().len() == 0,
            !s.has_prefill_policy(),
            !s.has_decode_policy(),
            !s.k8s(),
            s.policy_type_spec() is None,
            acts_as(s, PolicySlot::Regular, balancer),
    {
        AppState {
            workers,
            timeout_secs,
            balancer: Some(balancer),
            fallback: RoundRobin::new(),
            pd_mode: None,
            prefill_workers: Vec::new(),
            decode_workers: Vec::new(),
            prefill_policy: None,
            decode_policy: None,
            k8s_mode: false,
            policy_type: None,
        }
    }

    /// Create PD-mode state with separate prefill and decode pools.
    ///
    /// The regular pool is the decode pool, served round-robin, so that
    /// non-inference requests target decode workers without counting twice
    /// against the decode policy.
    pub fn new_pd(
        pd_mode: PdMode,
        prefill_workers: Vec<Worker>,
        decode_workers: Vec<Worker>,
        timeout_secs: u64,
        prefill_policy: B,
        decode_policy: B,
    ) -> (s: Self)
        requires
            prefill_workers@.len() > 0,
            decode_workers@.len() > 0,
        ensures
            s.pool() == decode_workers@,
            s.timeout() == timeout_secs,
            s.pd_mode_spec() == Some(pd_mode),
            s.prefill_pool() == prefill_workers@,
            s.decode_pool() == decode_workers@,
            s.has_prefill_policy(),
            s.has_decode_policy(),
            !s.k8s(),
            s.policy_type_spec() is None,
            acts_as(s, PolicySlot::Prefill, prefill_policy),
            acts_as(s, PolicySlot::Decode, decode_policy),
            fresh_round_robin(s),
    {
        let fallback = RoundRobin::new();
        let ghost rr = fallback;
        let regular = copy_pool(&decode_workers);
        let s = AppState {
            workers: regular,
            timeout_secs,
            balancer: None,
            fallback,
            pd_mode: Some(pd_mode),
            prefill_workers,
            decode_workers,
            prefill_policy: Some(prefill_policy),
            decode_policy: Some(decode_policy),
            k8s_mode: false,
            policy_type: None,
        };
        assert(acts_as(s, PolicySlot::Regular, rr));
        s
    }

    /// Create state whose regular pool is maintained by Kubernetes service
    /// discovery. The pool starts empty; its policy, built by
    /// `make_policy`, keeps state for `K8S_POLICY_CAPACITY` workers.
    pub fn new_k8s<F: Fn(Policy, usize) -> B>(
        timeout_secs: u64,
        policy_type: Policy,
        make_policy: F,
    ) -> (s: Self)
        requires
            forall|p: Policy, n: usize| #[trigger] make_policy.requires((p, n)),
        ensures
            s.pool().len() == 0,
            s.timeout() == timeout_secs,
            s.pd_mode_spec() is None,
            s.prefill_pool().len() == 0,
            s.decode_pool().len() == 0,
            !s.has_prefill_policy(),
            !s.has_decode_policy(),
            s.k8s(),
            s.policy_type_spec() == Some(policy_type),
            exists|p: B|
                make_policy.ensures((policy_type, K8S_POLICY_CAPACITY), p) && #[trigger] acts_as(
                    s,
                    PolicySlot::Regular,
                    p,
                ),
    {
        let balancer = make_policy(policy_type, K8S_POLICY_CAPACITY);
        let ghost made = balancer;
        let s = AppState {
            workers: Vec::new(),
            timeout_secs,
            balancer: Some(balancer),
            fallback: RoundRobin::new(),
            pd_mode: None,
            prefill_workers: Vec::new(),
            decode_workers: Vec::new(),
            prefill_policy: None,
            decode_policy: None,
            k8s_mode: true,
            policy_type: Some(policy_type),
        };
        assert(acts_as(s, PolicySlot::Regular, made));
        s
    }

    /// Create PD-mode state whose prefill and decode pools are maintained
    /// by Kubernetes service discovery. Both start empty; their policies,
    /// built by `make_policy`, keep state for `K8S_POLICY_CAPACITY`
    /// workers. There is no regular pool.
    pub fn new_k8s_pd<F: Fn(Policy, usize) -> B>(
        pd_mode: PdMode,
        timeout_secs: u64,
        policy_type: Policy,
        make_policy: F,
    ) -> (s: Self)
        requires
            forall|p: Policy, n: usize| #[trigger] make_policy.requires((p, n)),
        ensures
            s.pool().len() == 0,
            s.timeout() == timeout_secs,
            s.pd_mode_spec() == Some(pd_mode),
            s.prefill_pool().len() == 0,
            s.decode_pool().len() == 0,
            s.has_prefill_policy(),
            s.has_decode_policy(),
            s.k8s(),
            s.policy_type_spec() == Some(policy_type),
            exists|p: B|
                make_policy.ensures((policy_type, K8S_POLICY_CAPACITY), p) && #[trigger] acts_as(
                    s,
                    PolicySlot::Prefill,
                    p,
                ),
            exists|p: B|
                make_policy.ensures((policy_type, K8S_POLICY_CAPACITY), p) && #[trigger] acts_as(
                    s,
                    PolicySlot::Decode,
                    p,
                ),
            fresh_round_robin(s),
    {
        let fallback = RoundRobin::new();
        let ghost rr = fallback;
        let prefill_policy = make_policy(policy_type, K8S_POLICY_CAPACITY);
        let ghost pp = prefill_policy;
        let decode_policy = make_policy(policy_type, K8S_POLICY_CAPACITY);
        let ghost dp = decode_policy;
        let s = AppState {
            workers: Vec::new(),
            timeout_secs,
            balancer: None,
            fallback,
            pd_mode: Some(pd_mode),
            prefill_workers: Vec::new(),
            decode_workers: Vec::new(),
            prefill_policy: Some(prefill_policy),
            decode_policy: Some(decode_policy),
            k8s_mode: true,
            policy_type: Some(policy_type),
        };
        assert(acts_as(s, PolicySlot::Regular, rr));
        assert(acts_as(s, PolicySlot::Prefill, pp));
        assert(acts_as(s, PolicySlot::Decode, dp));
        s
    }

    /// Whether PD mode is active.
    pub fn is_pd_mode(&self) -> (b: bool)
        ensures
            b == self.pd_mode_spec() is Some,
    {
        self.pd_mode.is_some()
    }

    /// The active PD mode, if any.
    pub fn pd_mode(&self) -> (m: Option<PdMode>)
        ensures
            m == self.pd_mode_spec(),
    {
        self.pd_mode
    }

    /// Whether workers are managed by Kubernetes service discovery.
    pub fn is_k8s_mode(&self) -> (b: bool)
        ensures
            b == self.k8s(),
    {
        self.k8s_mode
    }

    /// Rebuild the policies of the discovered pools for their current
    /// sizes (at least 1), with `make_policy`. Nothing changes outside
    /// Kubernetes mode.
    pub fn rebuild_policy<F: Fn(Policy, usize) -> B>(&mut self, make_policy: F)
        requires
            forall|p: Policy, n: usize| #[trigger] make_policy.requires((p, n)),
        ensures
            final(self).pool() == old(self).pool(),
            final(self).prefill_pool() == old(self).prefill_pool(),
            final(self).decode_pool() == old(self).decode_pool(),
            final(self).timeout() == old(self).timeout(),
            final(self).pd_mode_spec() == old(self).pd_mode_spec(),
            final(self).has_prefill_policy() == old(self).has_prefill_policy(),
            final(self).has_decode_policy() == old(self).has_decode_policy(),
            final(self).k8s() == old(self).k8s(),
            final(self).policy_type_spec() == old(self).policy_type_spec(),
            !(old(self).k8s() && old(self).policy_type_spec() is Some) ==> *final(self) == *old(self),
            old(self).k8s() && old(self).policy_type_spec() is Some && old(self).pd_mode_spec() is None ==> exists|
                p: B,
            |
                make_policy.ensures(
                    (old(self).policy_type_spec()->0, policy_size(old(self).pool().len())),
                    p,
                ) && #[trigger] acts_as(*final(self), PolicySlot::Regular, p),
            old(self).k8s() && old(self).policy_type_spec() is Some && old(self).pd_mode_spec() is Some ==> {
                &&& final(self).same_policy(old(self), PolicySlot::Regular)
                &&& old(self).has_policy(PolicySlot::Prefill) ==> exists|p: B|
                    make_policy.ensures(
                        (old(self).policy_type_spec()->0, policy_size(old(self).prefill_pool().len())),
                        p,
                    ) && #[trigger] acts_as(*final(self), PolicySlot::Prefill, p)
                &&& !old(self).has_policy(PolicySlot::Prefill) ==> final(self).same_policy(old(self), PolicySlot::Prefill)
                &&& old(self).has_policy(PolicySlot::Decode) ==> exists|p: B|
                    make_policy.ensures(
                        (old(self).policy_type_spec()->0, policy_size(old(self).decode_pool().len())),
                        p,
                    ) && #[trigger] acts_as(*final(self), PolicySlot::Decode, p)
                &&& !old(self).has_policy(PolicySlot::Decode) ==> final(self).same_policy(old(self), PolicySlot::Decode)
            },
    {
        if !self.k8s_mode {
            return;
        }
        let pt = match self.policy_type {
            Some(pt) => pt,
            None => return,
        };
        if self.pd_mode.is_none() {
            let n = if self.workers.len() == 0 { 1 } else { self.workers.len() };
            let p = make_policy(pt, n);
            let ghost made = p;
            self.balancer = Some(p);
            assert(acts_as(*self, PolicySlot::Regular, made));
        } else {
            let ghost s0 = *self;
            if self.prefill_policy.is_some() {
                let n = if self.prefill_workers.len() == 0 { 1 } else { self.prefill_workers.len() };
                let p = make_policy(pt, n);
                let ghost made = p;
                self.prefill_policy = Some(p);
                assert(acts_as(*self, PolicySlot::Prefill, made));
            }
            let ghost s1 = *self;
            if self.decode_policy.is_some() {
                let n = if self.decode_workers.len() == 0 { 1 } else { self.decode_workers.len() };
                let p = make_policy(pt, n);
                let ghost made = p;
                self.decode_policy = Some(p);
                assert(acts_as(*self, PolicySlot::Decode, made));
            }
            proof {
                if s0.prefill_policy is Some {
                    let made = s1.prefill_policy->0;
                    assert(acts_as(*self, PolicySlot::Prefill, made));
                }
            }
        }
    }

    /// The URLs of the discovered regular pool (empty outside Kubernetes
    /// regular mode).
    pub fn k8s_worker_urls(&self) -> (r: Vec<String>)
        ensures
            strings_view(r@) == if self.k8s() && self.pd_mode_spec() is None {
                urls_of(self.pool())
            } else {
                Seq::empty()
            },
    {
        let r = if self.k8s_mode && self.pd_mode.is_none() {
            pool_urls(&self.workers)
        } else {
            Vec::new()
        };
        assert(strings_view(r@) =~= if self.k8s() && self.pd_mode_spec() is None {
            urls_of(self.pool())
        } else {
            Seq::empty()
        });
        r
    }

    /// The URLs of the discovered prefill pool (empty outside Kubernetes
    /// PD mode).
    pub fn k8s_prefill_urls(&self) -> (r: Vec<String>)
        ensures
            strings_view(r@) == if self.k8s() && self.pd_mode_spec() is Some {
                urls_of(self.prefill_pool())
            } else {
                Seq::empty()
            },
    {
        let r = if self.k8s_mode && self.pd_mode.is_some() {
            pool_urls(&self.prefill_workers)
        } else {
            Vec::new()
        };
        assert(strings_view(r@) =~= if self.k8s() && self.pd_mode_spec() is Some {
            urls_of(self.prefill_pool())
        } else {
            Seq::empty()
        });
        r
    }

    /// The URLs of the discovered decode pool (empty outside Kubernetes PD
    /// mode).
    pub fn k8s_decode_urls(&self) -> (r: Vec<String>)
        ensures
            strings_view(r@) == if self.k8s() && self.pd_mode_spec() is Some {
                urls_of(self.decode_pool())
            } else {
                Seq::empty()
            },
    {
        let r = if self.k8s_mode && self.pd_mode.is_some() {
            pool_urls(&self.decode_workers)
        } else {
            Vec::new()
        };
        assert(strings_view(r@) =~= if self.k8s() && self.pd_mode_spec() is Some {
            urls_of(self.decode_pool())
        } else {
            Seq::empty()
        });
        r
    }

    /// A copy of the discovered regular pool, for health checks (empty
    /// outside Kubernetes regular mode).
    pub fn k8s_workers_snapshot(&self) -> (r: Vec<Worker>)
        ensures
            r@ == if self.k8s() && self.pd_mode_spec() is None { self.pool() } else { Seq::empty() },
    {
        if self.k8s_mode && self.pd_mode.is_none() {
            copy_pool(&self.workers)
        } else {
            Vec::new()
        }
    }

    /// A copy of the discovered prefill pool (empty outside Kubernetes PD
    /// mode).
    pub fn k8s_prefill_snapshot(&self) -> (r: Vec<Worker>)
        ensures
            r@ == if self.k8s() && self.pd_mode_spec() is Some { self.prefill_pool() } else { Seq::empty() },
    {
        if self.k8s_mode && self.pd_mode.is_some() {
            copy_pool(&self.prefill_workers)
        } else {
            Vec::new()
        }
    }

    /// A copy of the discovered decode pool (empty outside Kubernetes PD
    /// mode).
    pub fn k8s_decode_snapshot(&self) -> (r: Vec<Worker>)
        ensures
            r@ == if self.k8s() && self.pd_mode_spec() is Some { self.decode_pool() } else { Seq::empty() },
    {
        if self.k8s_mode && self.pd_mode.is_some() {
            copy_pool(&self.decode_workers)
        } else {
            Vec::new()
        }
    }

    /// Hand the pools to service discovery: the regular pool, and the
    /// prefill and decode pools in PD mode. The state's pools are left
    /// empty until `put_pools` returns them.
    pub fn take_pools(&mut self) -> (r: WorkerPools)
        ensures
            r.regular@ == old(self).pool(),
            r.prefill matches Some(p) ==> p@ == old(self).prefill_pool(),
            r.decode matches Some(d) ==> d@ == old(self).decode_pool(),
            r.prefill is Some <==> old(self).pd_mode_spec() is Some,
            r.decode is Some <==> old(self).pd_mode_spec() is Some,
            final(self).pool().len() == 0,
            final(self).prefill_pool().len() == 0,
            final(self).decode_pool().len() == 0,
            final(self).same_setup(old(self)),
            final(self).same_policy(old(self), PolicySlot::Regular),
            final(self).same_policy(old(self), PolicySlot::Prefill),
            final(self).same_policy(old(self), PolicySlot::Decode),
    {
        let mut regular: Vec<Worker> = Vec::new();
        let mut prefill: Vec<Worker> = Vec::new();
        let mut decode: Vec<Worker> = Vec::new();
        std::mem::swap(&mut regular, &mut self.workers);
        std::mem::swap(&mut prefill, &mut self.prefill_workers);
        std::mem::swap(&mut decode, &mut self.decode_workers);
        if self.pd_mode.is_some() {
            WorkerPools { regular, prefill: Some(prefill), decode: Some(decode) }
        } else {
            WorkerPools { regular, prefill: None, decode: None }
        }
    }

    /// Take back the pools from service discovery.
    pub fn put_pools(&mut self, pools: WorkerPools)
        ensures
            final(self).pool() == pools.regular@,
            final(self).prefill_pool() == match pools.prefill {
                Some(p) => p@,
                None => Seq::empty(),
            },
            final(self).decode_pool() == match pools.decode {
                Some(d) => d@,
                None => Seq::empty(),
            },
            final(self).same_setup(old(self)),
            final(self).same_policy(old(self), PolicySlot::Regular),
            final(self).same_policy(old(self), PolicySlot::Prefill),
            final(self).same_policy(old(self), PolicySlot::Decode),
    {
        self.workers = pools.regular;
        self.prefill_workers = match pools.prefill {
            Some(p) => p,
            None => Vec::new(),
        };
        self.decode_workers = match pools.decode {
            Some(d) => d,
            None => Vec::new(),
        };
    }

    /// The prefill pool (for health checks).
    pub fn prefill_workers(&self) -> (ws: &[Worker])
        ensures
            ws@ == self.prefill_pool(),
    {
        self.prefill_workers.as_slice()
    }

    /// The decode pool (for health checks).
    pub fn decode_workers(&self) -> (ws: &[Worker])
        ensures
            ws@ == self.decode_pool(),
    {
        self.decode_workers.as_slice()
    }

    /// Set the health flag of worker `idx` of the regular pool (and, where
    /// the regular pool is the decode pool, of the same decode worker).
    pub fn set_worker_healthy(&mut self, idx: usize, healthy: bool)
        requires
            idx < old(self).pool().len(),
        ensures
            final(self).pool().len() == old(self).pool().len(),
            final(self).pool()[idx as int].healthy_flag() == healthy,
            final(self).pool()[idx as int].url_view() == old(self).pool()[idx as int].url_view(),
            forall|j: int|
                0 <= j < old(self).pool().len() && j != idx ==> #[trigger] final(self).pool()[j] == old(self).pool()[j],
            final(self).prefill_pool() == old(self).prefill_pool(),
            if old(self).mirrors_decode() && idx < old(self).decode_pool().len() {
                &&& final(self).decode_pool().len() == old(self).decode_pool().len()
                &&& final(self).decode_pool()[idx as int].healthy_flag() == healthy
                &&& final(self).decode_pool()[idx as int].url_view() == old(self).decode_pool()[idx as int].url_view()
                &&& forall|j: int|
                    0 <= j < old(self).decode_pool().len() && j != idx ==> #[trigger] final(self).decode_pool()[j]
                        == old(self).decode_pool()[j]
            } else {
                final(self).decode_pool() == old(self).decode_pool()
            },
            final(self).same_setup(old(self)),
            final(self).same_policy(old(self), PolicySlot::Regular),
            final(self).same_policy(old(self), PolicySlot::Prefill),
            final(self).same_policy(old(self), PolicySlot::Decode),
    {
        set_health(&mut self.workers, idx, healthy);
        if !self.k8s_mode && self.pd_mode.is_some() && idx < self.decode_workers.len() {
            set_health(&mut self.decode_workers, idx, healthy);
        }
    }

    /// Set the health flag of worker `idx` of the prefill pool.
    pub fn set_prefill_healthy(&mut self, idx: usize, healthy: bool)
        requires
            idx < old(self).prefill_pool().len(),
        ensures
            final(self).prefill_pool().len() == old(self).prefill_pool().len(),
            final(self).prefill_pool()[idx as int].healthy_flag() == healthy,
            final(self).prefill_pool()[idx as int].url_view() == old(self).prefill_pool()[idx as int].url_view(),
            forall|j: int|
                0 <= j < old(self).prefill_pool().len() && j != idx ==> #[trigger] final(self).prefill_pool()[j] == old(self).prefill_pool()[j],
            final(self).pool() == old(self).pool(),
            final(self).decode_pool() == old(self).decode_pool(),
            final(self).same_setup(old(self)),
            final(self).same_policy(old(self), PolicySlot::Regular),
            final(self).same_policy(old(self), PolicySlot::Prefill),
            final(self).same_policy(old(self), PolicySlot::Decode),
    {
        set_health(&mut self.prefill_workers, idx, healthy);
    }

    /// Set the health flag of worker `idx` of the decode pool (and, where
    /// the regular pool is the decode pool, of the same regular worker).
    pub fn set_decode_healthy(&mut self, idx: usize, healthy: bool)
        requires
            idx < old(self).decode_pool().len(),
        ensures
            final(self).decode_pool().len() == old(self).decode_pool().len(),
            final(self).decode_pool()[idx as int].healthy_flag() == healthy,
            final(self).decode_pool()[idx as int].url_view() == old(self).decode_pool()[idx as int].url_view(),
            forall|j: int|
                0 <= j < old(self).decode_pool().len() && j != idx ==> #[trigger] final(self).decode_pool()[j] == old(self).decode_pool()[j],
            final(self).prefill_pool() == old(self).prefill_pool(),
            if old(self).mirrors_decode() && idx < old(self).pool().len() {
                &&& final(self).pool().len() == old(self).pool().len()
                &&& final(self).pool()[idx as int].healthy_flag() == healthy
                &&& final(self).pool()[idx as int].url_view() == old(self).pool()[idx as int].url_view()
                &&& forall|j: int|
                    0 <= j < old(self).pool().len() && j != idx ==> #[trigger] final(self).pool()[j] == old(self).pool()[j]
            } else {
                final(self).pool() == old(self).pool()
            },
            final(self).same_setup(old(self)),
            final(self).same_policy(old(self), PolicySlot::Regular),
            final(self).same_policy(old(self), PolicySlot::Prefill),
            final(self).same_policy(old(self), PolicySlot::Decode),
    {
        set_health(&mut self.decode_workers, idx, healthy);
        if !self.k8s_mode && self.pd_mode.is_some() && idx < self.workers.len() {
            set_health(&mut self.workers, idx, healthy);
        }
    }

    /// Select a healthy prefill worker and tell the prefill policy a request
    /// started on it. `None` without a prefill policy or a healthy prefill
    /// worker.
    pub fn next_prefill_worker(&mut self, ctx: &RequestContext) -> (r: Option<(usize, String)>)
        ensures
            final(self).same_pools(old(self)),
            !old(self).has_prefill_policy() ==> r is None,
            old(self).has_prefill_policy() ==> picked_from(old(self).prefill_pool(), old(self).prefill_capacity(), r),
            selection_counted(*old(self), *final(self), PolicySlot::Prefill, r),
            chosen_in(*old(self), PolicySlot::Prefill, old(self).prefill_pool(), Some(*ctx), r),
            final(self).same_policy(old(self), PolicySlot::Decode),
            final(self).same_policy(old(self), PolicySlot::Regular),
    {
        match &mut self.prefill_policy {
            Some(p) => pick_worker(&self.prefill_workers, p, Some(ctx)),
            None => None,
        }
    }

    /// Select a healthy decode worker and tell the decode policy a request
    /// started on it. `None` without a decode policy or a healthy decode
    /// worker.
    pub fn next_decode_worker(&mut self, ctx: &RequestContext) -> (r: Option<(usize, String)>)
        ensures
            final(self).same_pools(old(self)),
            !old(self).has_decode_policy() ==> r is None,
            old(self).has_decode_policy() ==> picked_from(old(self).decode_pool(), old(self).decode_capacity(), r),
            selection_counted(*old(self), *final(self), PolicySlot::Decode, r),
            chosen_in(*old(self), PolicySlot::Decode, old(self).decode_pool(), Some(*ctx), r),
            final(self).same_policy(old(self), PolicySlot::Prefill),
            final(self).same_policy(old(self), PolicySlot::Regular),
    {
        match &mut self.decode_policy {
            Some(p) => pick_worker(&self.decode_workers, p, Some(ctx)),
            None => None,
        }
    }

    /// Tell the prefill policy that the request to `worker_idx` completed
    /// (an index beyond the policy's state is ignored).
    pub fn finish_prefill_request(&mut self, worker_idx: usize)
        ensures
            final(self).same_pools(old(self)),
            request_finished(*old(self), *final(self), PolicySlot::Prefill, worker_idx),
            final(self).same_policy(old(self), PolicySlot::Decode),
            final(self).same_policy(old(self), PolicySlot::Regular),
    {
        if let Some(p) = &mut self.prefill_policy {
            if worker_idx < p.capacity_limit() {
                p.on_request_end(worker_idx);
            }
        }
    }

    /// Tell the decode policy that the request to `worker_idx` completed
    /// (an index beyond the policy's state is ignored).
    pub fn finish_decode_request(&mut self, worker_idx: usize)
        ensures
            final(self).same_pools(old(self)),
            request_finished(*old(self), *final(self), PolicySlot::Decode, worker_idx),
            final(self).same_policy(old(self), PolicySlot::Prefill),
            final(self).same_policy(old(self), PolicySlot::Regular),
    {
        if let Some(p) = &mut self.decode_policy {
            if worker_idx < p.capacity_limit() {
                p.on_request_end(worker_idx);
            }
        }
    }

    /// Record a completed prefill routing decision for cache-aware policies.
    pub fn record_prefill_request(&mut self, ctx: &RequestContext, worker_idx: usize)
        ensures
            final(self).same_pools(old(self)),
            request_recorded(*old(self), *final(self), PolicySlot::Prefill, *ctx, worker_idx),
            final(self).same_policy(old(self), PolicySlot::Decode),
            final(self).same_policy(old(self), PolicySlot::Regular),
    {
        if let Some(p) = &mut self.prefill_policy {
            p.record(ctx, worker_idx);
        }
    }

    /// Record a completed decode routing decision for cache-aware policies.
    pub fn record_decode_request(&mut self, ctx: &RequestContext, worker_idx: usize)
        ensures
            final(self).same_pools(old(self)),
            request_recorded(*old(self), *final(self), PolicySlot::Decode, *ctx, worker_idx),
            final(self).same_policy(old(self), PolicySlot::Prefill),
            final(self).same_policy(old(self), PolicySlot::Regular),
    {
        if let Some(p) = &mut self.decode_policy {
            p.record(ctx, worker_idx);
        }
    }

    /// Select a healthy worker of the regular pool and tell the policy a
    /// request started on it. `None` if no worker is healthy, and always in
    /// Kubernetes PD mode, which has no regular pool.
    pub fn next_worker(&mut self) -> (r: Option<(usize, String)>)
        ensures
            final(self).same_pools(old(self)),
            old(self).serves_regular() ==> picked_from(old(self).pool(), old(self).balancer_capacity(), r),
            !old(self).serves_regular() ==> r is None,
            selection_counted(*old(self), *final(self), PolicySlot::Regular, r),
            chosen_in(*old(self), PolicySlot::Regular, old(self).pool(), None, r),
            final(self).same_policy(old(self), PolicySlot::Prefill),
            final(self).same_policy(old(self), PolicySlot::Decode),
    {
        if self.k8s_mode && self.pd_mode.is_some() {
            return None;
        }
        match &mut self.balancer {
            Some(b) => pick_worker(&self.workers, b, None),
            None => pick_worker(&self.workers, &mut self.fallback, None),
        }
    }

    /// Like [`next_worker`](Self::next_worker), letting the policy use the
    /// request context for cache-aware routing.
    pub fn next_worker_with_context(&mut self, ctx: &RequestContext) -> (r: Option<(usize, String)>)
        ensures
            final(self).same_pools(old(self)),
            old(self).serves_regular() ==> picked_from(old(self).pool(), old(self).balancer_capacity(), r),
            !old(self).serves_regular() ==> r is None,
            selection_counted(*old(self), *final(self), PolicySlot::Regular, r),
            chosen_in(*old(self), PolicySlot::Regular, old(self).pool(), Some(*ctx), r),
            final(self).same_policy(old(self), PolicySlot::Prefill),
            final(self).same_policy(old(self), PolicySlot::Decode),
    {
        if self.k8s_mode && self.pd_mode.is_some() {
            return None;
        }
        match &mut self.balancer {
            Some(b) => pick_worker(&self.workers, b, Some(ctx)),
            None => pick_worker(&self.workers, &mut self.fallback, Some(ctx)),
        }
    }

    /// Tell the regular policy that the request to `worker_idx` completed
    /// (an index beyond the policy's state is ignored).
    pub fn finish_request(&mut self, worker_idx: usize)
        ensures
            final(self).same_pools(old(self)),
            request_finished(*old(self), *final(self), PolicySlot::Regular, worker_idx),
            final(self).same_policy(old(self), PolicySlot::Prefill),
            final(self).same_policy(old(self), PolicySlot::Decode),
    {
        match &mut self.balancer {
            Some(b) => {
                if worker_idx < b.capacity_limit() {
                    b.on_request_end(worker_idx);
                }
            },
            None => {
                if worker_idx < self.fallback.capacity_limit() {
                    self.fallback.on_request_end(worker_idx);
                }
            },
        }
    }

    /// Record a completed routing decision so cache-aware policies can
    /// update their affinity state.
    pub fn record_request(&mut self, ctx: &RequestContext, worker_idx: usize)
        ensures
            final(self).same_pools(old(self)),
            request_recorded(*old(self), *final(self), PolicySlot::Regular, *ctx, worker_idx),
            final(self).same_policy(old(self), PolicySlot::Prefill),
            final(self).same_policy(old(self), PolicySlot::Decode),
    {
        match &mut self.balancer {
            Some(b) => b.record(ctx, worker_idx),
            None => self.fallback.record(ctx, worker_idx),
        }
    }
}

/// `after` is `before` with the health flag of every worker whose URL is
/// `url` set to `healthy`.
pub open spec fn health_set_by_url(before: Seq<Worker>, after: Seq<Worker>, url: Seq<char>, healthy: bool) -> bool {
    &&& after.len() == before.len()
    &&& forall|i: int|
        0 <= i < before.len() ==> (#[trigger] after[i]).url_view() == before[i].url_view()
            && after[i].healthy_flag() == if before[i].url_view() == url {
            healthy
        } else {
            before[i].healthy_flag()
        }
}

/// Set the health flag of every worker of a pool whose URL is `url`.
fn set_health_by_url_in(ws: &mut Vec<Worker>, url: &str, healthy: bool)
    ensures
        health_set_by_url(old(ws)@, final(ws)@, url@, healthy),
{
    let ghost before = ws@;
    let mut i: usize = 0;
    while i < ws.len()
        invariant
            i <= ws@.len(),
            ws@.len() == before.len(),
            forall|k: int|
                0 <= k < before.len() ==> (#[trigger] ws@[k]).url_view() == before[k].url_view()
                    && ws@[k].healthy_flag() == if k < i && before[k].url_view() == url@ {
                    healthy
                } else {
                    before[k].healthy_flag()
                },
        decreases ws@.len() - i,
    {
        if crate::text::str_eq(ws[i].url_str(), url) {
            set_health(ws, i, healthy);
        }
        i = i + 1;
    }
}

impl<B: LoadBalancer> AppState<B> {
    /// Apply a health check result: set the health flag of every worker
    /// whose URL is `url`, in every pool.
    pub fn set_health_by_url(&mut self, url: &str, healthy: bool)
        ensures
            health_set_by_url(old(self).pool(), final(self).pool(), url@, healthy),
            health_set_by_url(old(self).prefill_pool(), final(self).prefill_pool(), url@, healthy),
            health_set_by_url(old(self).decode_pool(), final(self).decode_pool(), url@, healthy),
            final(self).same_setup(old(self)),
            final(self).same_policy(old(self), PolicySlot::Regular),
            final(self).same_policy(old(self), PolicySlot::Prefill),
            final(self).same_policy(old(self), PolicySlot::Decode),
    {
        set_health_by_url_in(&mut self.workers, url, healthy);
        set_health_by_url_in(&mut self.prefill_workers, url, healthy);
        set_health_by_url_in(&mut self.decode_workers, url, healthy);
    }
}

/// A copy of a pool: same URLs and health flags.
pub fn copy_pool(ws: &Vec<Worker>) -> (out: Vec<Worker>)
    ensures
        out@ == ws@,
{
    let mut out: Vec<Worker> = Vec::new();
    let mut i: usize = 0;
    while i < ws.len()
        invariant
            i <= ws@.len(),
            out@ == ws@.take(i as int),
        decreases ws@.len() - i,
    {
        out.push(ws[i].duplicate());
        i = i + 1;
    }
    assert(ws@.take(i as int) =~= ws@);
    out
}

/// Set the health flag of worker `idx` of a pool.
pub fn set_health(ws: &mut Vec<Worker>, idx: usize, healthy: bool)
    requires
        idx < old(ws)@.len(),
    ensures
        final(ws)@.len() == old(ws)@.len(),
        final(ws)@[idx as int].healthy_flag() == healthy,
        final(ws)@[idx as int].url_view() == old(ws)@[idx as int].url_view(),
        forall|j: int| 0 <= j < old(ws)@.len() && j != idx ==> #[trigger] final(ws)@[j] == old(ws)@[j],
{
    let mut w = ws[idx].duplicate();
    w.set_healthy(healthy);
    ws.set(idx, w);
}

} // verus!
