//! Gateway configuration: policy, PD mode and log-level selections.

pub mod auth;
pub mod logging;
pub mod names;

use vstd::prelude::*;
use crate::text::{str_starts_with, concat};
use vstd::string::StrSliceExecFns;

verus! {

/// Load-balancing policy selection.
#[derive(Debug, Clone, Copy, PartialEq, Eq)]
pub enum Policy {
    /// Least-loaded (default): the worker with the fewest in-flight requests.
    LeastLoaded,
    /// Power of two choices: two random workers, the less loaded one wins.
    PowerOfTwo,
    /// Uniformly random worker.
    Random,
    /// Cycle through workers sequentially.
    RoundRobin,
    /// Deterministic hash on user/session id.
    SessionAffinity,
    /// Hash on first-message prefix with a queue-depth threshold.
    PrefixAffinity,
    /// Cache affinity weighed against current load.
    LoadCacheAware,
}

/// Prefill-Decode separation mode.
#[derive(Debug, Clone, Copy, PartialEq, Eq)]
pub enum PdMode {
    /// vLLM: sequential prefill then decode.
    Vllm,
    /// SGLang: concurrent dual dispatch.
    Sglang,
}

/// Log level for filtering tracing output.
#[derive(Debug, Clone, Copy, PartialEq, Eq)]
pub enum LogLevel {
    /// Only errors.
    Error,
    /// Warnings and errors.
    Warn,
    /// Info, warnings, and errors (default).
    Info,
    /// Everything, including debug.
    Debug,
}

/// Configuration of the gateway, as the command line and the environment
/// give it.
#[derive(Debug, Clone)]
pub struct Config {
    /// Host address to bind to.
    pub host: String,
    /// Port to listen on.
    pub port: u16,
    /// Worker URLs.
    pub worker_urls: Vec<String>,
    /// Maximum time in seconds to wait for a worker response.
    pub request_timeout_secs: u64,
    /// Load-balancing policy.
    pub policy: Policy,
    /// Minimum log level.
    pub log_level: LogLevel,
    /// Prefill-Decode separation mode, if enabled.
    pub pd_mode: Option<PdMode>,
    /// Prefill worker URLs for PD mode.
    pub prefill_urls: Vec<String>,
    /// Decode worker URLs for PD mode.
    pub decode_urls: Vec<String>,
    /// API keys for data plane access.
    pub data_plane_api_keys: Vec<String>,
    /// Whether worker nodes are health-checked periodically.
    pub health_check: bool,
    /// Interval in seconds between health check rounds.
    pub health_check_interval_secs: u64,
    /// Optional file path for JSON log output.
    pub log_file: Option<String>,
    /// Kubernetes namespace to watch (all namespaces when absent).
    pub k8s_namespace: Option<String>,
    /// Label selector of worker pods (`key=value,...`).
    pub k8s_selector: Option<String>,
    /// Label selector of prefill pods in PD mode.
    pub k8s_prefill_selector: Option<String>,
    /// Label selector of decode pods in PD mode.
    pub k8s_decode_selector: Option<String>,
    /// Port that discovered workers serve on.
    pub k8s_port: u16,
    /// Interval in seconds between reconciliations with the cluster.
    pub k8s_check_interval_secs: u64,
}

impl Config {
    /// Whether workers come from Kubernetes service discovery: when any
    /// pod selector is given.
    pub fn has_k8s_enabled(&self) -> (r: bool)
        ensures
            r == (self.k8s_selector is Some || self.k8s_prefill_selector is Some || self.k8s_decode_selector is Some),
    {
        self.k8s_selector.is_some() || self.k8s_prefill_selector.is_some() || self.k8s_decode_selector.is_some()
    }

    /// Why the static worker lists cannot start the gateway, if they
    /// cannot: PD mode needs prefill and decode workers, regular mode
    /// needs workers.
    pub fn static_setup_error(&self) -> (r: Option<&'static str>)
        ensures
            r is None <==> (if self.pd_mode is Some {
                self.prefill_urls@.len() > 0 && self.decode_urls@.len() > 0
            } else {
                self.worker_urls@.len() > 0
            }),
            self.pd_mode is Some && self.prefill_urls@.len() == 0 ==> r == Some(
                "PD mode requires at least one --prefill-urls",
            ),
            self.pd_mode is Some && self.prefill_urls@.len() > 0 && self.decode_urls@.len() == 0 ==> r == Some(
                "PD mode requires at least one --decode-urls",
            ),
            self.pd_mode is None && self.worker_urls@.len() == 0 ==> r == Some(
                "AppState requires at least one worker URL",
            ),
    {
        if self.pd_mode.is_some() {
            if self.prefill_urls.len() == 0 {
                Some("PD mode requires at least one --prefill-urls")
            } else if self.decode_urls.len() == 0 {
                Some("PD mode requires at least one --decode-urls")
            } else {
                None
            }
        } else if self.worker_urls.len() == 0 {
            Some("AppState requires at least one worker URL")
        } else {
            None
        }
    }
}

/// Index of the first `c` in `s` at or after `from`.
pub open spec fn find_char(s: Seq<char>, c: char, from: int) -> int
    decreases s.len() - from,
{
    if from >= s.len() {
        from
    } else if s[from] == c {
        from
    } else {
        find_char(s, c, from + 1)
    }
}

pub proof fn lemma_find_char_bounds(s: Seq<char>, c: char, from: int)
    requires
        0 <= from,
    ensures
        from <= find_char(s, c, from),
        from <= s.len() ==> find_char(s, c, from) <= s.len(),
        find_char(s, c, from) < s.len() ==> s[find_char(s, c, from)] == c,
    decreases s.len() - from,
{
    if from < s.len() && s[from] != c {
        lemma_find_char_bounds(s, c, from + 1);
    }
}

/// The `,`-separated pieces of `s[from..]`, in order.
pub open spec fn split_commas(s: Seq<char>, from: int) -> Seq<Seq<char>>
    decreases s.len() - from,
{
    if from > s.len() || from < 0 {
        Seq::empty()
    } else {
        let end = find_char(s, ',', from);
        proof {
            lemma_find_char_bounds(s, ',', from);
        }
        if end >= s.len() {
            seq![s.subrange(from, s.len() as int)]
        } else {
            seq![s.subrange(from, end)] + split_commas(s, end + 1)
        }
    }
}

/// A `key=value` piece as a pair (split at the first `=`), if it has a
/// `=` and a non-empty key.
pub open spec fn selector_pair(piece: Seq<char>) -> Option<(Seq<char>, Seq<char>)> {
    let eq = find_char(piece, '=', 0);
    if eq < piece.len() && eq > 0 {
        Some((piece.subrange(0, eq), piece.subrange(eq + 1, piece.len() as int)))
    } else {
        None
    }
}

/// Index of the pair whose key is `k`, if any.
pub open spec fn key_index(ps: Seq<(Seq<char>, Seq<char>)>, k: Seq<char>) -> Option<int>
    decreases ps.len(),
{
    if ps.len() == 0 {
        None
    } else {
        match key_index(ps.drop_last(), k) {
            Some(i) => Some(i),
            None => if ps.last().0 == k {
                Some(ps.len() - 1)
            } else {
                None
            },
        }
    }
}

/// `ps` with the pair `p` set, as a map does: the pair with `p`'s key
/// takes `p`'s value, or `p` is appended.
pub open spec fn set_pair(ps: Seq<(Seq<char>, Seq<char>)>, p: (Seq<char>, Seq<char>)) -> Seq<(Seq<char>, Seq<char>)> {
    match key_index(ps, p.0) {
        Some(i) => ps.update(i, p),
        None => ps.push(p),
    }
}

/// No key occurs twice.
pub open spec fn keys_unique_pairs(ps: Seq<(Seq<char>, Seq<char>)>) -> bool {
    forall|i: int, j: int| 0 <= i < j < ps.len() ==> (#[trigger] ps[i]).0 != (#[trigger] ps[j]).0
}

/// The label selector of the pieces that are pairs: each key once, with
/// the value of its last piece, in the order keys first appear.
pub open spec fn selector_pairs(pieces: Seq<Seq<char>>) -> Seq<(Seq<char>, Seq<char>)>
    decreases pieces.len(),
{
    if pieces.len() == 0 {
        Seq::empty()
    } else {
        let rest = selector_pairs(pieces.drop_last());
        match selector_pair(pieces.last()) {
            Some(p) => set_pair(rest, p),
            None => rest,
        }
    }
}

proof fn lemma_key_index(ps: Seq<(Seq<char>, Seq<char>)>, k: Seq<char>)
    ensures
        key_index(ps, k) matches Some(i) ==> 0 <= i < ps.len() && ps[i].0 == k,
        key_index(ps, k) is None ==> forall|j: int| 0 <= j < ps.len() ==> (#[trigger] ps[j]).0 != k,
    decreases ps.len(),
{
    if ps.len() > 0 {
        lemma_key_index(ps.drop_last(), k);
        assert forall|j: int| 0 <= j < ps.len() - 1 implies #[trigger] ps[j] == ps.drop_last()[j] by {}
    }
}

/// Setting a pair keeps keys unique.
pub proof fn lemma_set_pair_unique(ps: Seq<(Seq<char>, Seq<char>)>, p: (Seq<char>, Seq<char>))
    requires
        keys_unique_pairs(ps),
    ensures
        keys_unique_pairs(set_pair(ps, p)),
{
    lemma_key_index(ps, p.0);
    let t = set_pair(ps, p);
    match key_index(ps, p.0) {
        Some(i) => {
            assert forall|a: int, b: int| 0 <= a < b < t.len() implies (#[trigger] t[a]).0 != (#[trigger] t[b]).0 by {
                if a != i && b != i {
                    assert(t[a] == ps[a] && t[b] == ps[b]);
                } else if a == i {
                    assert(t[b] == ps[b]);
                } else {
                    assert(t[a] == ps[a]);
                }
            }
        },
        None => {
            assert forall|a: int, b: int| 0 <= a < b < t.len() implies (#[trigger] t[a]).0 != (#[trigger] t[b]).0 by {
                assert(t[a] == ps[a]);
                if b < ps.len() {
                    assert(t[b] == ps[b]);
                }
            }
        },
    }
}

/// Selectors have unique keys.
pub proof fn lemma_selector_pairs_unique(pieces: Seq<Seq<char>>)
    ensures
        keys_unique_pairs(selector_pairs(pieces)),
    decreases pieces.len(),
{
    if pieces.len() > 0 {
        lemma_selector_pairs_unique(pieces.drop_last());
        match selector_pair(pieces.last()) {
            Some(p) => lemma_set_pair_unique(selector_pairs(pieces.drop_last()), p),
            None => {},
        }
    }
}

/// The label selector a command-line value gives: its `key=value` pieces
/// (separated by `,`), in order; no selector gives no pairs.
pub open spec fn parse_selector_spec(s: Option<Seq<char>>) -> Seq<(Seq<char>, Seq<char>)> {
    match s {
        Some(t) => selector_pairs(split_commas(t, 0)),
        None => Seq::empty(),
    }
}

/// Index of the first `c` in `s` at or after `from`.
fn find_char_exec(s: &Vec<char>, c: char, from: usize) -> (r: usize)
    requires
        from <= s@.len(),
    ensures
        r as int == find_char(s@, c, from as int),
        from <= r <= s@.len(),
{
    let mut i = from;
    while i < s.len() && s[i] != c
        invariant
            from <= i <= s@.len(),
            find_char(s@, c, from as int) == find_char(s@, c, i as int),
        decreases s@.len() - i,
    {
        i = i + 1;
    }
    i
}

/// The pair of a `key=value` piece `s[from..to]`, if it is one.
fn selector_pair_exec(text: &str, s: &Vec<char>, from: usize, to: usize) -> (r: Option<(String, String)>)
    requires
        s@ == text@,
        from <= to <= s@.len(),
    ensures
        match r {
            Some(p) => selector_pair(s@.subrange(from as int, to as int)) == Some((p.0@, p.1@)),
            None => selector_pair(s@.subrange(from as int, to as int)) is None,
        },
{
    let ghost piece = s@.subrange(from as int, to as int);
    let mut i = from;
    while i < to && s[i] != '='
        invariant
            from <= i <= to,
            to <= s@.len(),
            piece == s@.subrange(from as int, to as int),
            find_char(piece, '=', 0) == find_char(piece, '=', i - from),
        decreases to - i,
    {
        assert(piece[i - from] == s@[i as int]);
        i = i + 1;
    }
    proof {
        if i < to {
            assert(piece[i - from] == s@[i as int]);
        }
    }
    if i < to && i > from {
        let key = text.substring_char(from, i).to_owned();
        let value = text.substring_char(i + 1, to).to_owned();
        proof {
            assert(key@ =~= piece.subrange(0, i - from));
            assert(value@ =~= piece.subrange(i - from + 1, piece.len() as int));
        }
        Some((key, value))
    } else {
        None
    }
}

/// Set a pair in a selector as a map does.
fn set_selector_pair(out: &mut Vec<(String, String)>, p: (String, String))
    ensures
        Seq::new(final(out)@.len(), |i: int| (final(out)@[i].0@, final(out)@[i].1@)) == set_pair(
            Seq::new(old(out)@.len(), |i: int| (old(out)@[i].0@, old(out)@[i].1@)),
            (p.0@, p.1@),
        ),
{
    let ghost v = Seq::new(out@.len(), |i: int| (out@[i].0@, out@[i].1@));
    proof {
        lemma_key_index(v, p.0@);
    }
    let mut i: usize = 0;
    while i < out.len()
        invariant
            i <= out@.len(),
            out@ == old(out)@,
            v == Seq::new(out@.len(), |i: int| (out@[i].0@, out@[i].1@)),
            forall|j: int| 0 <= j < i ==> (#[trigger] v[j]).0 != p.0@,
            key_index(v, p.0@) matches Some(x) ==> 0 <= x < v.len() && v[x].0 == p.0@,
            key_index(v, p.0@) is None ==> forall|j: int| 0 <= j < v.len() ==> (#[trigger] v[j]).0 != p.0@,
        decreases out@.len() - i,
    {
        if crate::text::str_eq(out[i].0.as_str(), p.0.as_str()) {
            proof {
                assert(v[i as int].0 == p.0@);
                lemma_key_index_first(v, p.0@, i as int);
            }
            out.set(i, p);
            assert(Seq::new(out@.len(), |i: int| (out@[i].0@, out@[i].1@)) =~= set_pair(v, (p.0@, p.1@)));
            return;
        }
        i = i + 1;
    }
    proof {
        if key_index(v, p.0@) is Some {
            let x = key_index(v, p.0@)->Some_0;
            assert(v[x].0 == p.0@);
        }
    }
    out.push(p);
    assert(Seq::new(out@.len(), |i: int| (out@[i].0@, out@[i].1@)) =~= set_pair(v, (p.0@, p.1@)));
}

/// The first pair with key `k` is the one `key_index` names.
proof fn lemma_key_index_first(ps: Seq<(Seq<char>, Seq<char>)>, k: Seq<char>, i: int)
    requires
        0 <= i < ps.len(),
        ps[i].0 == k,
        forall|j: int| 0 <= j < i ==> (#[trigger] ps[j]).0 != k,
    ensures
        key_index(ps, k) == Some(i),
    decreases ps.len(),
{
    if i < ps.len() - 1 {
        let d = ps.drop_last();
        assert forall|j: int| 0 <= j <= i implies #[trigger] d[j] == ps[j] by {}
        lemma_key_index_first(d, k, i);
    } else {
        let d = ps.drop_last();
        assert forall|j: int| 0 <= j < d.len() implies (#[trigger] d[j]).0 != k by {
            assert(d[j] == ps[j]);
        }
        lemma_key_index(d, k);
    }
}

/// Parse a label selector value: `key=value` pieces separated by `,`;
/// pieces without `=` or with an empty key are skipped, and a key given
/// twice keeps its last value (each key occurs once).
pub fn parse_selector(selector: &Option<String>) -> (r: Vec<(String, String)>)
    ensures
        Seq::new(r@.len(), |i: int| (r@[i].0@, r@[i].1@)) == parse_selector_spec(
            match selector {
                Some(t) => Some(t@),
                None => None,
            },
        ),
        keys_unique_pairs(Seq::new(r@.len(), |i: int| (r@[i].0@, r@[i].1@))),
{
    proof {
        lemma_selector_pairs_unique(split_commas(
            match selector {
                Some(t) => t@,
                None => Seq::empty(),
            },
            0,
        ));
    }
    let text = match selector {
        Some(t) => t.as_str(),
        None => {
            let r: Vec<(String, String)> = Vec::new();
            assert(Seq::new(r@.len(), |i: int| (r@[i].0@, r@[i].1@)) =~= Seq::<(Seq<char>, Seq<char>)>::empty());
            return r;
        },
    };
    let s = crate::text::chars_of(text);
    let mut out: Vec<(String, String)> = Vec::new();
    let mut start: usize = 0;
    let ghost mut done: Seq<Seq<char>> = Seq::empty();
    loop
        invariant_except_break
            split_commas(s@, 0) == done + split_commas(s@, start as int),
        invariant
            s@ == text@,
            start <= s@.len(),
            Seq::new(out@.len(), |i: int| (out@[i].0@, out@[i].1@)) == selector_pairs(done),
        ensures
            split_commas(s@, 0) == done,
            Seq::new(out@.len(), |i: int| (out@[i].0@, out@[i].1@)) == selector_pairs(done),
        decreases s@.len() - start,
    {
        let end = find_char_exec(&s, ',', start);
        let ghost piece = s@.subrange(start as int, end as int);
        let pair = selector_pair_exec(text, &s, start, end);
        let ghost before = Seq::new(out@.len(), |i: int| (out@[i].0@, out@[i].1@));
        proof {
            assert(selector_pairs(done.push(piece)).len() >= 0);
            assert(done.push(piece).drop_last() =~= done);
        }
        match pair {
            Some(p) => {
                set_selector_pair(&mut out, p);
            },
            None => {},
        }
        proof {
            done = done.push(piece);
        }
        if end >= s.len() {
            proof {
                assert(split_commas(s@, start as int) =~= seq![piece]);
                assert(done =~= done.drop_last() + seq![piece]);
            }
            break;
        }
        proof {
            assert(split_commas(s@, start as int) == seq![piece] + split_commas(s@, end + 1));
            assert(done.drop_last() + (seq![piece] + split_commas(s@, end + 1)) =~= done + split_commas(s@, end + 1));
        }
        start = end + 1;
    }
    proof {
        assert(split_commas(s@, 0) =~= done);
    }
    out
}

} // verus!
