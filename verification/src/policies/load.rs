//! Shared bookkeeping of in-flight request counters and the
//! join-shortest-queue choice.

use super::rng::random_below;
use vstd::prelude::*;

verus! {

/// Smallest counter among the first `n` entries.
pub open spec fn min_load(active: Seq<usize>, n: nat) -> usize
    decreases n,
{
    if n <= 1 {
        active[0]
    } else {
        let m = min_load(active, (n - 1) as nat);
        if active[n - 1] < m {
            active[n - 1]
        } else {
            m
        }
    }
}

/// Indices below `n`, in increasing order, whose counter equals `v`.
pub open spec fn tied_indices(active: Seq<usize>, n: nat, v: usize) -> Seq<usize>
    decreases n,
{
    if n == 0 {
        Seq::empty()
    } else {
        let t = tied_indices(active, (n - 1) as nat, v);
        if active[n - 1] == v {
            t.push((n - 1) as usize)
        } else {
            t
        }
    }
}

/// `i` is a worker below `n` with no more in-flight requests than any other
/// worker below `n`.
pub open spec fn is_least_loaded(active: Seq<usize>, n: nat, i: int) -> bool {
    &&& 0 <= i < n
    &&& forall|j: int| 0 <= j < n ==> active[i] <= #[trigger] active[j]
}

/// The counters after one more request on `idx` (wrapping like an atomic add).
pub open spec fn started(active: Seq<usize>, idx: int) -> Seq<usize> {
    active.update(idx, active[idx].wrapping_add(1))
}

/// The counters after one request on `idx` finished (wrapping like an atomic sub).
pub open spec fn ended(active: Seq<usize>, idx: int) -> Seq<usize> {
    active.update(idx, active[idx].wrapping_sub(1))
}

pub proof fn lemma_min_load(active: Seq<usize>, n: nat)
    requires
        0 < n <= active.len(),
    ensures
        forall|j: int| 0 <= j < n ==> min_load(active, n) <= #[trigger] active[j],
        exists|j: int| 0 <= j < n && active[j] == min_load(active, n),
    decreases n,
{
    if n > 1 {
        lemma_min_load(active, (n - 1) as nat);
        if active[n - 1] < min_load(active, (n - 1) as nat) {
            assert(active[n - 1] == min_load(active, n));
        } else {
            let j = choose|j: int| 0 <= j < n - 1 && active[j] == min_load(active, (n - 1) as nat);
            assert(active[j] == min_load(active, n));
        }
    } else {
        assert(active[0] == min_load(active, n));
    }
}

pub proof fn lemma_tied_indices(active: Seq<usize>, n: nat, v: usize)
    requires
        n <= active.len(),
        n <= usize::MAX,
    ensures
        forall|k: int|
            0 <= k < tied_indices(active, n, v).len() ==> {
                &&& #[trigger] tied_indices(active, n, v)[k] < n
                &&& active[tied_indices(active, n, v)[k] as int] == v
            },
        (exists|j: int| 0 <= j < n && active[j] == v) ==> tied_indices(active, n, v).len() > 0,
    decreases n,
{
    if n > 0 {
        lemma_tied_indices(active, (n - 1) as nat, v);
        let t = tied_indices(active, (n - 1) as nat, v);
        let t2 = tied_indices(active, n, v);
        assert forall|k: int| 0 <= k < t2.len() implies {
            &&& #[trigger] t2[k] < n
            &&& active[t2[k] as int] == v
        } by {
            if k < t.len() {
                assert(t2[k] == t[k]);
                assert(t[k] < n - 1);
                assert(active[t[k] as int] == v);
            } else {
                assert(active[n - 1] == v);
                assert(t2 == t.push((n - 1) as usize));
                assert(t2[k] == (n - 1) as usize);
            }
        }
    }
}

/// Indices below `n` whose counter equals the smallest counter below `n`.
pub fn least_loaded_ties(active: &[usize], n: usize) -> (ties: Vec<usize>)
    requires
        0 < n <= active@.len(),
    ensures
        ties@ == tied_indices(active@, n as nat, min_load(active@, n as nat)),
        ties@.len() > 0,
{
    let mut m = active[0];
    let mut i: usize = 1;
    while i < n
        invariant
            1 <= i <= n <= active@.len(),
            m == min_load(active@, i as nat),
        decreases n - i,
    {
        if active[i] < m {
            m = active[i];
        }
        i = i + 1;
    }
    let mut ties: Vec<usize> = Vec::new();
    let mut k: usize = 0;
    while k < n
        invariant
            k <= n <= active@.len(),
            ties@ == tied_indices(active@, k as nat, m),
        decreases n - k,
    {
        if active[k] == m {
            ties.push(k);
        }
        k = k + 1;
    }
    proof {
        lemma_min_load(active@, n as nat);
        lemma_tied_indices(active@, n as nat, m);
    }
    ties
}

/// Join-shortest-queue: the `choice`-th (in index order) of the workers below
/// `n` that carry the fewest in-flight requests.
pub fn jsq_pick(active: &[usize], n: usize, choice: usize) -> (idx: usize)
    requires
        0 < n <= active@.len(),
        choice < tied_indices(active@, n as nat, min_load(active@, n as nat)).len(),
    ensures
        idx == tied_indices(active@, n as nat, min_load(active@, n as nat))[choice as int],
        is_least_loaded(active@, n as nat, idx as int),
{
    let ties = least_loaded_ties(active, n);
    proof {
        lemma_min_load(active@, n as nat);
        lemma_tied_indices(active@, n as nat, min_load(active@, n as nat));
    }
    ties[choice]
}

/// Join-shortest-queue: a worker below `n` with the fewest in-flight
/// requests, ties broken at random.
pub fn jsq_fallback(active: &[usize], n: usize) -> (idx: usize)
    requires
        0 < n <= active@.len(),
    ensures
        is_least_loaded(active@, n as nat, idx as int),
{
    let ties = least_loaded_ties(active, n);
    let choice = random_below(ties.len());
    jsq_pick(active, n, choice)
}

/// Increment the counter of `idx`, wrapping like `AtomicUsize::fetch_add`.
pub fn start_request(active: &mut Vec<usize>, idx: usize)
    requires
        idx < old(active)@.len(),
    ensures
        final(active)@ == started(old(active)@, idx as int),
{
    let v = active[idx];
    active.set(idx, v.wrapping_add(1));
}

/// Decrement the counter of `idx`, wrapping like `AtomicUsize::fetch_sub`.
pub fn end_request(active: &mut Vec<usize>, idx: usize)
    requires
        idx < old(active)@.len(),
    ensures
        final(active)@ == ended(old(active)@, idx as int),
{
    let v = active[idx];
    active.set(idx, v.wrapping_sub(1));
}

/// `n` counters, all zero.
pub fn zero_counters(n: usize) -> (active: Vec<usize>)
    ensures
        active@ == Seq::new(n as nat, |i: int| 0usize),
{
    let mut active: Vec<usize> = Vec::new();
    let mut i: usize = 0;
    while i < n
        invariant
            i <= n,
            active@ == Seq::new(i as nat, |j: int| 0usize),
        decreases n - i,
    {
        active.push(0);
        i = i + 1;
    }
    active
}

/// Finishing a request undoes starting one on the same worker.
pub proof fn law_end_undoes_start(active: Seq<usize>, idx: int)
    requires
        0 <= idx < active.len(),
    ensures
        ended(started(active, idx), idx) == active,
{
    assert(ended(started(active, idx), idx) =~= active);
}

} // verus!
