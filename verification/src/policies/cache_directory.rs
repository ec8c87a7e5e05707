//! Which worker most recently served each prefix and each session, for
//! cache-aware routing.
//!
//! Times are nanoseconds on a monotonic clock that the caller reads; an
//! entry is fresh while less than the staleness window has passed since it
//! was recorded (a zero window never ages entries out).

use vstd::prelude::*;
use crate::text::str_eq;

verus! {

/// One directory entry: key, worker index, time recorded.
pub type Entry = (String, usize, u64);

/// The entries as a map from key to (worker, time); later entries win.
pub open spec fn entries_map(s: Seq<Entry>) -> Map<Seq<char>, (usize, u64)>
    decreases s.len(),
{
    if s.len() == 0 {
        Map::empty()
    } else {
        entries_map(s.drop_last()).insert(s.last().0@, (s.last().1, s.last().2))
    }
}

/// No key occurs twice.
pub open spec fn keys_unique(s: Seq<Entry>) -> bool {
    forall|i: int, j: int| 0 <= i < j < s.len() ==> (#[trigger] s[i]).0@ != (#[trigger] s[j]).0@
}

/// Affinity of a worker that served the request's prefix.
pub const PREFIX_AFFINITY: u8 = 2;

/// Affinity of a worker that served the request's session.
pub const SESSION_AFFINITY: u8 = 1;

/// Whether an entry recorded at `ts` is fresh at `now`.
pub open spec fn fresh(ts: u64, now: u64, staleness: u64) -> bool {
    staleness == 0 || (if now >= ts { now - ts } else { 0 }) < staleness
}

/// The worker recorded in `m` for `key`, if any.
pub open spec fn owner_in(m: Map<Seq<char>, (usize, u64)>, key: Seq<char>) -> Option<usize> {
    if m.contains_key(key) {
        Some(m[key].0)
    } else {
        None
    }
}

/// Whether `m` has a fresh entry for `key` naming worker `i`.
pub open spec fn served(m: Map<Seq<char>, (usize, u64)>, key: Seq<char>, i: int, now: u64, staleness: u64) -> bool {
    m.contains_key(key) && m[key].0 == i && fresh(m[key].1, now, staleness)
}

/// The affinity of each of `n` workers: a worker with a fresh entry for
/// the prefix gets `PREFIX_AFFINITY`; otherwise a worker with a fresh entry
/// for the session gets `SESSION_AFFINITY`; every other worker 0.
pub open spec fn affinity_spec(
    prefixes: Map<Seq<char>, (usize, u64)>,
    sessions: Map<Seq<char>, (usize, u64)>,
    staleness: u64,
    prefix_key: Seq<char>,
    session_id: Seq<char>,
    n: nat,
    now: u64,
) -> Seq<u8> {
    Seq::new(
        n,
        |i: int|
            if served(prefixes, prefix_key, i, now, staleness) {
                PREFIX_AFFINITY
            } else if served(sessions, session_id, i, now, staleness) {
                SESSION_AFFINITY
            } else {
                0
            },
    )
}

pub proof fn lemma_entries_map_index(s: Seq<Entry>, i: int)
    requires
        keys_unique(s),
        0 <= i < s.len(),
    ensures
        entries_map(s).contains_key(s[i].0@),
        entries_map(s)[s[i].0@] == (s[i].1, s[i].2),
    decreases s.len(),
{
    if i < s.len() - 1 {
        lemma_entries_map_index(s.drop_last(), i);
        assert(s.drop_last()[i] == s[i]);
    }
}

pub proof fn lemma_entries_map_absent(s: Seq<Entry>, k: Seq<char>)
    requires
        forall|i: int| 0 <= i < s.len() ==> (#[trigger] s[i]).0@ != k,
    ensures
        !entries_map(s).contains_key(k),
    decreases s.len(),
{
    if s.len() > 0 {
        lemma_entries_map_absent(s.drop_last(), k);
    }
}

pub proof fn lemma_entries_map_update(s: Seq<Entry>, i: int, e: Entry)
    requires
        keys_unique(s),
        0 <= i < s.len(),
        e.0@ == s[i].0@,
    ensures
        entries_map(s.update(i, e)) == entries_map(s).insert(e.0@, (e.1, e.2)),
        keys_unique(s.update(i, e)),
    decreases s.len(),
{
    let t = s.update(i, e);
    if i == s.len() - 1 {
        assert(t.drop_last() =~= s.drop_last());
    } else {
        lemma_entries_map_update(s.drop_last(), i, e);
        assert(t.drop_last() =~= s.drop_last().update(i, e));
        assert(s.last() == t.last());
        assert(s.last().0@ != e.0@);
    }
    assert(entries_map(t) =~= entries_map(s).insert(e.0@, (e.1, e.2)));
}

/// Index of the entry for `key`.
fn find_entry(s: &Vec<Entry>, key: &str) -> (r: Option<usize>)
    ensures
        match r {
            Some(i) => i < s@.len() && s@[i as int].0@ == key@,
            None => forall|i: int| 0 <= i < s@.len() ==> (#[trigger] s@[i]).0@ != key@,
        },
{
    let mut i: usize = 0;
    while i < s.len()
        invariant
            i <= s@.len(),
            forall|k: int| 0 <= k < i ==> (#[trigger] s@[k]).0@ != key@,
        decreases s@.len() - i,
    {
        if str_eq(s[i].0.as_str(), key) {
            return Some(i);
        }
        i = i + 1;
    }
    None
}

/// Set the entry for `key` to `(worker, now)`.
fn put_entry(s: &mut Vec<Entry>, key: &str, worker: usize, now: u64)
    requires
        keys_unique(old(s)@),
    ensures
        keys_unique(final(s)@),
        entries_map(final(s)@) == entries_map(old(s)@).insert(key@, (worker, now)),
{
    let e: Entry = (key.to_owned(), worker, now);
    match find_entry(s, key) {
        Some(i) => {
            proof {
                lemma_entries_map_update(s@, i as int, e);
            }
            s.set(i, e);
        },
        None => {
            let ghost before = s@;
            s.push(e);
            proof {
                assert(s@.drop_last() =~= before);
                assert forall|a: int, b: int| 0 <= a < b < s@.len() implies (#[trigger] s@[a]).0@ != (
                #[trigger] s@[b]).0@ by {
                    if b == s@.len() - 1 {
                        assert(before[a] == s@[a]);
                    }
                }
            }
        },
    }
}

/// The entry for `key`, if any.
fn get_entry(s: &Vec<Entry>, key: &str) -> (r: Option<(usize, u64)>)
    requires
        keys_unique(s@),
    ensures
        match r {
            Some(v) => entries_map(s@).contains_key(key@) && entries_map(s@)[key@] == v,
            None => !entries_map(s@).contains_key(key@),
        },
{
    match find_entry(s, key) {
        Some(i) => {
            proof {
                lemma_entries_map_index(s@, i as int);
            }
            Some((s[i].1, s[i].2))
        },
        None => {
            proof {
                lemma_entries_map_absent(s@, key@);
            }
            None
        },
    }
}

/// Whether an entry recorded at `ts` is fresh at `now`.
fn is_fresh(ts: u64, now: u64, staleness: u64) -> (r: bool)
    ensures
        r == fresh(ts, now, staleness),
{
    if staleness == 0 {
        true
    } else {
        let elapsed = if now >= ts { now - ts } else { 0 };
        elapsed < staleness
    }
}

/// The prefix and session directories of a cache-aware policy.
pub struct CacheDirectory {
    prefix_map: Vec<Entry>,
    session_map: Vec<Entry>,
    staleness: u64,
}

impl CacheDirectory {
    /// The prefix directory.
    pub closed spec fn prefixes(&self) -> Map<Seq<char>, (usize, u64)> {
        entries_map(self.prefix_map@)
    }

    /// The session directory.
    pub closed spec fn sessions(&self) -> Map<Seq<char>, (usize, u64)> {
        entries_map(self.session_map@)
    }

    /// The staleness window in nanoseconds (0: entries never age out).
    pub closed spec fn staleness_window(&self) -> u64 {
        self.staleness
    }

    /// The directory's invariant: each key has one entry.
    pub closed spec fn wf(&self) -> bool {
        keys_unique(self.prefix_map@) && keys_unique(self.session_map@)
    }

    /// An empty directory whose entries age out after `staleness_nanos`
    /// (never, for 0).
    pub fn new(staleness_nanos: u64) -> (r: Self)
        ensures
            r.wf(),
            r.prefixes() == Map::<Seq<char>, (usize, u64)>::empty(),
            r.sessions() == Map::<Seq<char>, (usize, u64)>::empty(),
            r.staleness_window() == staleness_nanos,
    {
        CacheDirectory { prefix_map: Vec::new(), session_map: Vec::new(), staleness: staleness_nanos }
    }

    /// The affinity of each of `n_workers` workers for a request, at time
    /// `now`: `SESSION_AFFINITY` for the worker that last served the
    /// session, `PREFIX_AFFINITY` for the one that last served the prefix,
    /// 0 for the others; stale entries and out-of-range workers count for
    /// nothing.
    pub fn get_affinity(&self, prefix_key: &str, session_id: &str, n_workers: usize, now: u64) -> (r: Vec<u8>)
        requires
            self.wf(),
        ensures
            r@ == affinity_spec(
                self.prefixes(),
                self.sessions(),
                self.staleness_window(),
                prefix_key@,
                session_id@,
                n_workers as nat,
                now,
            ),
    {
        let p = get_entry(&self.prefix_map, prefix_key);
        let s = get_entry(&self.session_map, session_id);
        let p_idx: Option<usize> = match p {
            Some((i, ts)) => if is_fresh(ts, now, self.staleness) { Some(i) } else { None },
            None => None,
        };
        let s_idx: Option<usize> = match s {
            Some((i, ts)) => if is_fresh(ts, now, self.staleness) { Some(i) } else { None },
            None => None,
        };
        let mut scores: Vec<u8> = Vec::new();
        let mut i: usize = 0;
        while i < n_workers
            invariant
                i <= n_workers,
                scores@.len() == i,
                forall|k: int| 0 <= k < i ==> #[trigger] scores@[k] == affinity_spec(
                    self.prefixes(),
                    self.sessions(),
                    self.staleness_window(),
                    prefix_key@,
                    session_id@,
                    n_workers as nat,
                    now,
                )[k],
                p_idx matches Some(x) <==> (self.prefixes().contains_key(prefix_key@) && fresh(
                    self.prefixes()[prefix_key@].1,
                    now,
                    self.staleness_window(),
                )),
                p_idx matches Some(x) ==> x == self.prefixes()[prefix_key@].0,
                s_idx matches Some(x) <==> (self.sessions().contains_key(session_id@) && fresh(
                    self.sessions()[session_id@].1,
                    now,
                    self.staleness_window(),
                )),
                s_idx matches Some(x) ==> x == self.sessions()[session_id@].0,
            decreases n_workers - i,
        {
            let score: u8 = if p_idx == Some(i) {
                PREFIX_AFFINITY
            } else if s_idx == Some(i) {
                SESSION_AFFINITY
            } else {
                0
            };
            scores.push(score);
            i = i + 1;
        }
        proof {
            assert(scores@ =~= affinity_spec(
                self.prefixes(),
                self.sessions(),
                self.staleness_window(),
                prefix_key@,
                session_id@,
                n_workers as nat,
                now,
            ));
        }
        scores
    }

    /// The workers last recorded for a prefix key and for a session id,
    /// whatever their age.
    pub fn owners(&self, prefix_key: &str, session_id: &str) -> (r: (Option<usize>, Option<usize>))
        requires
            self.wf(),
        ensures
            r.0 == owner_in(self.prefixes(), prefix_key@),
            r.1 == owner_in(self.sessions(), session_id@),
    {
        let p = match get_entry(&self.prefix_map, prefix_key) {
            Some(e) => Some(e.0),
            None => None,
        };
        let q = match get_entry(&self.session_map, session_id) {
            Some(e) => Some(e.0),
            None => None,
        };
        (p, q)
    }

    /// Record that `worker_idx` served the prefix and the session at `now`.
    pub fn record(&mut self, prefix_key: &str, session_id: &str, worker_idx: usize, now: u64)
        requires
            old(self).wf(),
        ensures
            final(self).wf(),
            final(self).prefixes() == old(self).prefixes().insert(prefix_key@, (worker_idx, now)),
            final(self).sessions() == old(self).sessions().insert(session_id@, (worker_idx, now)),
            final(self).staleness_window() == old(self).staleness_window(),
    {
        put_entry(&mut self.prefix_map, prefix_key, worker_idx, now);
        put_entry(&mut self.session_map, session_id, worker_idx, now);
    }
}

/// After a request is recorded for a worker, that worker has affinity for
/// the same request while the entries are fresh: the prefix tier, and no
/// other worker has any.
pub proof fn law_recorded_worker_has_affinity(
    d0: &CacheDirectory,
    d1: &CacheDirectory,
    prefix_key: Seq<char>,
    session_id: Seq<char>,
    worker: usize,
    at: u64,
    n: nat,
    now: u64,
)
    requires
        d1.prefixes() == d0.prefixes().insert(prefix_key, (worker, at)),
        d1.sessions() == d0.sessions().insert(session_id, (worker, at)),
        d1.staleness_window() == d0.staleness_window(),
        worker < n,
        fresh(at, now, d1.staleness_window()),
    ensures
        affinity_spec(d1.prefixes(), d1.sessions(), d1.staleness_window(), prefix_key, session_id, n, now)[worker as int]
            == PREFIX_AFFINITY,
        forall|i: int|
            0 <= i < n && i != worker ==> #[trigger] affinity_spec(
                d1.prefixes(),
                d1.sessions(),
                d1.staleness_window(),
                prefix_key,
                session_id,
                n,
                now,
            )[i] == 0,
{
}

/// With staleness disabled, entries never age out: affinity is the same
/// at every time.
pub proof fn law_zero_staleness_never_ages(
    prefixes: Map<Seq<char>, (usize, u64)>,
    sessions: Map<Seq<char>, (usize, u64)>,
    prefix_key: Seq<char>,
    session_id: Seq<char>,
    n: nat,
    t1: u64,
    t2: u64,
)
    ensures
        affinity_spec(prefixes, sessions, 0, prefix_key, session_id, n, t1) == affinity_spec(
            prefixes,
            sessions,
            0,
            prefix_key,
            session_id,
            n,
            t2,
        ),
{
    assert(affinity_spec(prefixes, sessions, 0, prefix_key, session_id, n, t1) =~= affinity_spec(
        prefixes,
        sessions,
        0,
        prefix_key,
        session_id,
        n,
        t2,
    ));
}

} // verus!
