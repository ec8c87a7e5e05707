//! Load-balancing policy trait and the built-in policies.

pub mod cache_directory;
pub mod least_loaded;
pub mod load;
pub mod power_of_two;
pub mod prefix_affinity;
pub mod random;
pub(crate) mod rng;
pub mod round_robin;
pub mod session_affinity;

use vstd::prelude::*;

verus! {

/// Request fields extracted by the proxy for cache-aware routing.
///
/// `session_id` identifies the user or session; `prefix_key` holds the first
/// 200 characters of the first message content (system messages preferred).
#[derive(Debug, Clone)]
pub struct RequestContext {
    pub session_id: String,
    pub prefix_key: String,
}

/// FNV-1a 64-bit offset basis.
pub const FNV_OFFSET_BASIS: u64 = 0xcbf29ce484222325;

/// FNV-1a 64-bit prime.
pub const FNV_PRIME: u64 = 0x100000001b3;

/// FNV-1a 64-bit hash of a byte sequence.
pub open spec fn fnv1a(bytes: Seq<u8>) -> u64
    decreases bytes.len(),
{
    if bytes.len() == 0 {
        FNV_OFFSET_BASIS
    } else {
        (fnv1a(bytes.drop_last()) ^ (bytes.last() as u64)).wrapping_mul(FNV_PRIME)
    }
}

/// FNV-1a continued from the state `h` over `bytes`.
pub open spec fn fnv1a_from(h: u64, bytes: Seq<u8>) -> u64
    decreases bytes.len(),
{
    if bytes.len() == 0 {
        h
    } else {
        (fnv1a_from(h, bytes.drop_last()) ^ (bytes.last() as u64)).wrapping_mul(FNV_PRIME)
    }
}

proof fn lemma_fnv1a_from_basis(bytes: Seq<u8>)
    ensures
        fnv1a(bytes) == fnv1a_from(FNV_OFFSET_BASIS, bytes),
    decreases bytes.len(),
{
    if bytes.len() > 0 {
        lemma_fnv1a_from_basis(bytes.drop_last());
    }
}

proof fn lemma_fnv1a_from_concat(h: u64, a: Seq<u8>, b: Seq<u8>)
    ensures
        fnv1a_from(h, a + b) == fnv1a_from(fnv1a_from(h, a), b),
    decreases b.len(),
{
    if b.len() == 0 {
        assert(a + b =~= a);
    } else {
        assert((a + b).drop_last() =~= a + b.drop_last());
        assert((a + b).last() == b.last());
        lemma_fnv1a_from_concat(h, a, b.drop_last());
    }
}

proof fn lemma_encode_utf8_concat(s: Seq<char>, t: Seq<char>)
    ensures
        vstd::utf8::encode_utf8(s + t) == vstd::utf8::encode_utf8(s) + vstd::utf8::encode_utf8(t),
    decreases s.len(),
{
    if s.len() == 0 {
        assert(s + t =~= t);
        assert(vstd::utf8::encode_utf8(s) =~= Seq::<u8>::empty());
        assert(Seq::<u8>::empty() + vstd::utf8::encode_utf8(t) =~= vstd::utf8::encode_utf8(t));
    } else {
        assert((s + t)[0] == s[0]);
        assert((s + t).drop_first() =~= s.drop_first() + t);
        lemma_encode_utf8_concat(s.drop_first(), t);
        let e = vstd::utf8::encode_scalar(s[0] as u32);
        assert(e + (vstd::utf8::encode_utf8(s.drop_first()) + vstd::utf8::encode_utf8(t)) =~= (e
            + vstd::utf8::encode_utf8(s.drop_first())) + vstd::utf8::encode_utf8(t));
    }
}

/// The hash is computed incrementally: the hash of `s + t` is the hash of
/// `s` continued over the UTF-8 bytes of `t`.
pub proof fn law_stable_hash_concat(s: Seq<char>, t: Seq<char>)
    ensures
        stable_hash_spec(s + t) == fnv1a_from(stable_hash_spec(s), vstd::utf8::encode_utf8(t)),
{
    lemma_encode_utf8_concat(s, t);
    lemma_fnv1a_from_basis(vstd::utf8::encode_utf8(s + t));
    lemma_fnv1a_from_basis(vstd::utf8::encode_utf8(s));
    lemma_fnv1a_from_concat(FNV_OFFSET_BASIS, vstd::utf8::encode_utf8(s), vstd::utf8::encode_utf8(t));
}

/// The hash of a string: FNV-1a over its UTF-8 bytes.
pub open spec fn stable_hash_spec(s: Seq<char>) -> u64 {
    fnv1a(vstd::utf8::encode_utf8(s))
}

/// Deterministic hash of a string, stable across process restarts
/// (FNV-1a 64-bit over the UTF-8 bytes).
pub fn stable_hash(s: &str) -> (h: u64)
    ensures
        h == stable_hash_spec(s@),
{
    let bytes = s.as_bytes();
    let mut hash: u64 = FNV_OFFSET_BASIS;
    let mut i: usize = 0;
    while i < bytes.len()
        invariant
            i <= bytes@.len(),
            bytes@ == vstd::utf8::encode_utf8(s@),
            hash == fnv1a(bytes@.take(i as int)),
        decreases bytes@.len() - i,
    {
        assert(bytes@.take(i + 1).drop_last() =~= bytes@.take(i as int));
        hash = (hash ^ (bytes[i] as u64)).wrapping_mul(FNV_PRIME);
        i = i + 1;
    }
    assert(bytes@.take(i as int) =~= bytes@);
    hash
}

/// The count after one more request (wrapping like an atomic add), or
/// nothing where nothing is counted.
pub open spec fn count_up(c: Option<usize>) -> Option<usize> {
    match c {
        Some(n) => Some(n.wrapping_add(1)),
        None => None,
    }
}

/// The count after one request fewer (wrapping like an atomic sub), or
/// nothing where nothing is counted.
pub open spec fn count_down(c: Option<usize>) -> Option<usize> {
    match c {
        Some(n) => Some(n.wrapping_sub(1)),
        None => None,
    }
}

/// Interface for worker selection policies.
///
/// A policy may keep per-worker state (in-flight counters); `capacity` is the
/// number of workers that state covers, and a policy is only asked to choose
/// among, or to update the state of, workers below that count. A policy may
/// also remember which worker served each prefix and session
/// (`remembers`, `owners`).
pub trait LoadBalancer: Send + Sync {
    /// Number of workers this policy keeps state for.
    spec fn capacity(&self) -> usize;

    /// The in-flight count this policy keeps for `worker` (`None` where it
    /// counts nothing for that worker).
    spec fn in_flight(&self, worker: usize) -> Option<usize>;

    /// Whether the policy remembers the workers of recorded decisions.
    spec fn remembers(&self) -> bool;

    /// The workers last recorded for a prefix key and for a session id.
    spec fn owners(&self, prefix_key: &String, session_id: &String) -> (Option<usize>, Option<usize>);

    /// Whether `idx` is a choice this policy may make among `n` workers,
    /// given the request context `ctx` where there is one.
    spec fn chooses(&self, n: usize, ctx: Option<RequestContext>, idx: usize) -> bool;

    /// The same count as a machine integer (`usize::MAX` for policies that
    /// keep no per-worker state).
    fn capacity_limit(&self) -> (c: usize)
        ensures
            c == self.capacity(),
    ;

    /// Select a worker index among `workers` (0 for an empty list).
    fn select(&mut self, workers: &[String]) -> (idx: usize)
        requires
            workers@.len() <= old(self).capacity(),
        ensures
            workers@.len() > 0 ==> idx < workers@.len(),
            workers@.len() > 0 ==> old(self).chooses(workers@.len() as usize, None, idx),
            workers@.len() == 0 ==> idx == 0,
            final(self).capacity() == old(self).capacity(),
            final(self).remembers() == old(self).remembers(),
            forall|w: usize| #[trigger] final(self).in_flight(w) == old(self).in_flight(w),
            forall|p: String, s: String| #[trigger] final(self).owners(&p, &s) == old(self).owners(&p, &s),
    ;

    /// Select a worker index using request context (policies that do not
    /// route by context choose as `select` does).
    fn select_with_context(&mut self, workers: &[String], ctx: &RequestContext) -> (idx: usize)
        requires
            workers@.len() <= old(self).capacity(),
        ensures
            workers@.len() > 0 ==> idx < workers@.len(),
            workers@.len() > 0 ==> old(self).chooses(workers@.len() as usize, Some(*ctx), idx),
            workers@.len() == 0 ==> idx == 0,
            final(self).capacity() == old(self).capacity(),
            final(self).remembers() == old(self).remembers(),
            forall|w: usize| #[trigger] final(self).in_flight(w) == old(self).in_flight(w),
            forall|p: String, s: String| #[trigger] final(self).owners(&p, &s) == old(self).owners(&p, &s),
    ;

    /// A request has been dispatched to `worker_idx`: its count goes up by
    /// one; nothing else changes.
    fn on_request_start(&mut self, worker_idx: usize)
        requires
            worker_idx < old(self).capacity(),
        ensures
            final(self).capacity() == old(self).capacity(),
            final(self).remembers() == old(self).remembers(),
            forall|w: usize|
                #[trigger] final(self).in_flight(w) == if w == worker_idx {
                    count_up(old(self).in_flight(w))
                } else {
                    old(self).in_flight(w)
                },
            forall|p: String, s: String| #[trigger] final(self).owners(&p, &s) == old(self).owners(&p, &s),
    ;

    /// A request to `worker_idx` has completed (success or error): its count
    /// goes down by one; nothing else changes.
    fn on_request_end(&mut self, worker_idx: usize)
        requires
            worker_idx < old(self).capacity(),
        ensures
            final(self).capacity() == old(self).capacity(),
            final(self).remembers() == old(self).remembers(),
            forall|w: usize|
                #[trigger] final(self).in_flight(w) == if w == worker_idx {
                    count_down(old(self).in_flight(w))
                } else {
                    old(self).in_flight(w)
                },
            forall|p: String, s: String| #[trigger] final(self).owners(&p, &s) == old(self).owners(&p, &s),
    ;

    /// Record a completed routing decision for cache-affinity lookups: a
    /// policy that remembers now names `worker_idx` for the context's
    /// prefix key and session id; one that does not is left as it was.
    /// The in-flight counts do not change.
    fn record(&mut self, ctx: &RequestContext, worker_idx: usize)
        ensures
            final(self).capacity() == old(self).capacity(),
            final(self).remembers() == old(self).remembers(),
            forall|w: usize| #[trigger] final(self).in_flight(w) == old(self).in_flight(w),
            old(self).remembers() ==> final(self).owners(&ctx.prefix_key, &ctx.session_id) == (
                Some(worker_idx),
                Some(worker_idx),
            ),
            !old(self).remembers() ==> forall|p: String, s: String|
                #[trigger] final(self).owners(&p, &s) == old(self).owners(&p, &s),
    ;
}

/// A boxed policy acts as the policy it holds.
impl<T: LoadBalancer + ?Sized> LoadBalancer for Box<T> {
    open spec fn capacity(&self) -> usize {
        (**self).capacity()
    }

    open spec fn in_flight(&self, worker: usize) -> Option<usize> {
        (**self).in_flight(worker)
    }

    open spec fn remembers(&self) -> bool {
        (**self).remembers()
    }

    open spec fn owners(&self, prefix_key: &String, session_id: &String) -> (Option<usize>, Option<usize>) {
        (**self).owners(prefix_key, session_id)
    }

    open spec fn chooses(&self, n: usize, ctx: Option<RequestContext>, idx: usize) -> bool {
        (**self).chooses(n, ctx, idx)
    }

    fn capacity_limit(&self) -> (c: usize) {
        (**self).capacity_limit()
    }

    fn select(&mut self, workers: &[String]) -> (idx: usize) {
        (**self).select(workers)
    }

    fn select_with_context(&mut self, workers: &[String], ctx: &RequestContext) -> (idx: usize) {
        (**self).select_with_context(workers, ctx)
    }

    fn on_request_start(&mut self, worker_idx: usize) {
        (**self).on_request_start(worker_idx)
    }

    fn on_request_end(&mut self, worker_idx: usize) {
        (**self).on_request_end(worker_idx)
    }

    fn record(&mut self, ctx: &RequestContext, worker_idx: usize) {
        (**self).record(ctx, worker_idx)
    }
}

} // verus!
