//! Names of policies, PD modes and log levels as users spell them, as
//! the Python bindings accept them.

use vstd::prelude::*;
use crate::config::{PdMode, Policy};
use crate::text::{concat, str_eq};

verus! {

/// What `str::to_lowercase` makes of a string.
pub uninterp spec fn lowercase_of(s: Seq<char>) -> Seq<char>;

/// Calls `str::to_lowercase` (Unicode lower-casing). The contract claims
/// only that the result is a function of the input, named `lowercase_of`;
/// the Unicode case tables are left unstated.
#[verifier::external_body]
fn to_lowercase(s: &str) -> (r: String)
    ensures
        r@ == lowercase_of(s@),
{
    s.to_lowercase()
}

/// The canonical name of a policy spelled `lower` (lower case, with `-`
/// or `_`).
pub open spec fn canonical_policy(lower: Seq<char>) -> Option<Seq<char>> {
    if lower == "least-loaded"@ || lower == "least_loaded"@ {
        Some("least-loaded"@)
    } else if lower == "power-of-two"@ || lower == "power_of_two"@ {
        Some("power-of-two"@)
    } else if lower == "random"@ {
        Some("random"@)
    } else if lower == "round-robin"@ || lower == "round_robin"@ {
        Some("round-robin"@)
    } else if lower == "session-affinity"@ || lower == "session_affinity"@ {
        Some("session-affinity"@)
    } else if lower == "prefix-affinity"@ || lower == "prefix_affinity"@ {
        Some("prefix-affinity"@)
    } else if lower == "load-cache-aware"@ || lower == "load_cache_aware"@ {
        Some("load-cache-aware"@)
    } else {
        None
    }
}

/// The canonical name of a policy, or the message that rejects it.
pub fn validate_policy(policy: &str) -> (r: Result<String, String>)
    ensures
        match r {
            Ok(c) => canonical_policy(lowercase_of(policy@)) == Some(c@),
            Err(m) => canonical_policy(lowercase_of(policy@)) is None && m@ == "Invalid policy '"@ + policy@
                + "', expected one of: least-loaded, power-of-two, random, round-robin, session-affinity, prefix-affinity, load-cache-aware"@,
        },
{
    let lower = to_lowercase(policy);
    let l = lower.as_str();
    if str_eq(l, "least-loaded") || str_eq(l, "least_loaded") {
        Ok("least-loaded".to_owned())
    } else if str_eq(l, "power-of-two") || str_eq(l, "power_of_two") {
        Ok("power-of-two".to_owned())
    } else if str_eq(l, "random") {
        Ok("random".to_owned())
    } else if str_eq(l, "round-robin") || str_eq(l, "round_robin") {
        Ok("round-robin".to_owned())
    } else if str_eq(l, "session-affinity") || str_eq(l, "session_affinity") {
        Ok("session-affinity".to_owned())
    } else if str_eq(l, "prefix-affinity") || str_eq(l, "prefix_affinity") {
        Ok("prefix-affinity".to_owned())
    } else if str_eq(l, "load-cache-aware") || str_eq(l, "load_cache_aware") {
        Ok("load-cache-aware".to_owned())
    } else {
        let a = concat("Invalid policy '", policy);
        Err(concat(
            a.as_str(),
            "', expected one of: least-loaded, power-of-two, random, round-robin, session-affinity, prefix-affinity, load-cache-aware",
        ))
    }
}

/// The policy a canonical name selects; other names select round-robin.
pub open spec fn policy_named(name: Seq<char>) -> Policy {
    if name == "least-loaded"@ {
        Policy::LeastLoaded
    } else if name == "power-of-two"@ {
        Policy::PowerOfTwo
    } else if name == "random"@ {
        Policy::Random
    } else if name == "session-affinity"@ {
        Policy::SessionAffinity
    } else if name == "prefix-affinity"@ {
        Policy::PrefixAffinity
    } else if name == "load-cache-aware"@ {
        Policy::LoadCacheAware
    } else {
        Policy::RoundRobin
    }
}

/// The policy a canonical name selects.
pub fn policy_for_name(name: &str) -> (r: Policy)
    ensures
        r == policy_named(name@),
{
    if str_eq(name, "least-loaded") {
        Policy::LeastLoaded
    } else if str_eq(name, "power-of-two") {
        Policy::PowerOfTwo
    } else if str_eq(name, "random") {
        Policy::Random
    } else if str_eq(name, "session-affinity") {
        Policy::SessionAffinity
    } else if str_eq(name, "prefix-affinity") {
        Policy::PrefixAffinity
    } else if str_eq(name, "load-cache-aware") {
        Policy::LoadCacheAware
    } else {
        Policy::RoundRobin
    }
}

/// The PD mode a name selects, in any letter case.
pub open spec fn pd_mode_named(lower: Seq<char>) -> Option<PdMode> {
    if lower == "vllm"@ {
        Some(PdMode::Vllm)
    } else if lower == "sglang"@ {
        Some(PdMode::Sglang)
    } else {
        None
    }
}

/// The PD mode of an optional name, or the message that rejects the name.
pub fn validate_pd_mode(pd_mode: Option<&str>) -> (r: Result<Option<PdMode>, String>)
    ensures
        match pd_mode {
            None => r == Ok::<Option<PdMode>, String>(None),
            Some(s) => match r {
                Ok(m) => m is Some && pd_mode_named(lowercase_of(s@)) == m,
                Err(e) => pd_mode_named(lowercase_of(s@)) is None && e@ == "Invalid pd_mode '"@ + s@
                    + "', expected 'vllm' or 'sglang'"@,
            },
        },
{
    match pd_mode {
        None => Ok(None),
        Some(s) => {
            let lower = to_lowercase(s);
            if str_eq(lower.as_str(), "vllm") {
                Ok(Some(PdMode::Vllm))
            } else if str_eq(lower.as_str(), "sglang") {
                Ok(Some(PdMode::Sglang))
            } else {
                let a = concat("Invalid pd_mode '", s);
                Err(concat(a.as_str(), "', expected 'vllm' or 'sglang'"))
            }
        },
    }
}

/// The tracing filter of a log level name, in any letter case.
pub open spec fn log_level_named(lower: Seq<char>) -> Option<Seq<char>> {
    if lower == "error"@ || lower == "warn"@ || lower == "info"@ || lower == "debug"@ {
        Some(lower)
    } else {
        None
    }
}

/// The tracing filter of a log level name, or the message that rejects it.
pub fn validate_log_level(level: &str) -> (r: Result<String, String>)
    ensures
        match r {
            Ok(f) => log_level_named(lowercase_of(level@)) == Some(f@),
            Err(e) => log_level_named(lowercase_of(level@)) is None && e@ == "Invalid log_level '"@ + level@
                + "', expected one of: error, warn, info, debug"@,
        },
{
    let lower = to_lowercase(level);
    let l = lower.as_str();
    if str_eq(l, "error") || str_eq(l, "warn") || str_eq(l, "info") || str_eq(l, "debug") {
        Ok(lower)
    } else {
        let a = concat("Invalid log_level '", level);
        Err(concat(a.as_str(), "', expected one of: error, warn, info, debug"))
    }
}

/// The canonical name by which each policy is known.
pub open spec fn policy_name(p: Policy) -> Seq<char> {
    match p {
        Policy::LeastLoaded => "least-loaded"@,
        Policy::PowerOfTwo => "power-of-two"@,
        Policy::Random => "random"@,
        Policy::RoundRobin => "round-robin"@,
        Policy::SessionAffinity => "session-affinity"@,
        Policy::PrefixAffinity => "prefix-affinity"@,
        Policy::LoadCacheAware => "load-cache-aware"@,
    }
}

proof fn lemma_policy_literals()
    ensures
        "least-loaded"@ != "least_loaded"@,
        "least-loaded"@ != "power-of-two"@,
        "least-loaded"@ != "power_of_two"@,
        "least-loaded"@ != "random"@,
        "least-loaded"@ != "round-robin"@,
        "least-loaded"@ != "round_robin"@,
        "least-loaded"@ != "session-affinity"@,
        "least-loaded"@ != "session_affinity"@,
        "least-loaded"@ != "prefix-affinity"@,
        "least-loaded"@ != "prefix_affinity"@,
        "least-loaded"@ != "load-cache-aware"@,
        "least-loaded"@ != "load_cache_aware"@,
        "least_loaded"@ != "power-of-two"@,
        "least_loaded"@ != "power_of_two"@,
        "least_loaded"@ != "random"@,
        "least_loaded"@ != "round-robin"@,
        "least_loaded"@ != "round_robin"@,
        "least_loaded"@ != "session-affinity"@,
        "least_loaded"@ != "session_affinity"@,
        "least_loaded"@ != "prefix-affinity"@,
        "least_loaded"@ != "prefix_affinity"@,
        "least_loaded"@ != "load-cache-aware"@,
        "least_loaded"@ != "load_cache_aware"@,
        "power-of-two"@ != "power_of_two"@,
        "power-of-two"@ != "random"@,
        "power-of-two"@ != "round-robin"@,
        "power-of-two"@ != "round_robin"@,
        "power-of-two"@ != "session-affinity"@,
        "power-of-two"@ != "session_affinity"@,
        "power-of-two"@ != "prefix-affinity"@,
        "power-of-two"@ != "prefix_affinity"@,
        "power-of-two"@ != "load-cache-aware"@,
        "power-of-two"@ != "load_cache_aware"@,
        "power_of_two"@ != "random"@,
        "power_of_two"@ != "round-robin"@,
        "power_of_two"@ != "round_robin"@,
        "power_of_two"@ != "session-affinity"@,
        "power_of_two"@ != "session_affinity"@,
        "power_of_two"@ != "prefix-affinity"@,
        "power_of_two"@ != "prefix_affinity"@,
        "power_of_two"@ != "load-cache-aware"@,
        "power_of_two"@ != "load_cache_aware"@,
        "random"@ != "round-robin"@,
        "random"@ != "round_robin"@,
        "random"@ != "session-affinity"@,
        "random"@ != "session_affinity"@,
        "random"@ != "prefix-affinity"@,
        "random"@ != "prefix_affinity"@,
        "random"@ != "load-cache-aware"@,
        "random"@ != "load_cache_aware"@,
        "round-robin"@ != "round_robin"@,
        "round-robin"@ != "session-affinity"@,
        "round-robin"@ != "session_affinity"@,
        "round-robin"@ != "prefix-affinity"@,
        "round-robin"@ != "prefix_affinity"@,
        "round-robin"@ != "load-cache-aware"@,
        "round-robin"@ != "load_cache_aware"@,
        "round_robin"@ != "session-affinity"@,
        "round_robin"@ != "session_affinity"@,
        "round_robin"@ != "prefix-affinity"@,
        "round_robin"@ != "prefix_affinity"@,
        "round_robin"@ != "load-cache-aware"@,
        "round_robin"@ != "load_cache_aware"@,
        "session-affinity"@ != "session_affinity"@,
        "session-affinity"@ != "prefix-affinity"@,
        "session-affinity"@ != "prefix_affinity"@,
        "session-affinity"@ != "load-cache-aware"@,
        "session-affinity"@ != "load_cache_aware"@,
        "session_affinity"@ != "prefix-affinity"@,
        "session_affinity"@ != "prefix_affinity"@,
        "session_affinity"@ != "load-cache-aware"@,
        "session_affinity"@ != "load_cache_aware"@,
        "prefix-affinity"@ != "prefix_affinity"@,
        "prefix-affinity"@ != "load-cache-aware"@,
        "prefix-affinity"@ != "load_cache_aware"@,
        "prefix_affinity"@ != "load-cache-aware"@,
        "prefix_affinity"@ != "load_cache_aware"@,
        "load-cache-aware"@ != "load_cache_aware"@,
{
    reveal_strlit("least-loaded");
    reveal_strlit("least_loaded");
    reveal_strlit("power-of-two");
    reveal_strlit("power_of_two");
    reveal_strlit("random");
    reveal_strlit("round-robin");
    reveal_strlit("round_robin");
    reveal_strlit("session-affinity");
    reveal_strlit("session_affinity");
    reveal_strlit("prefix-affinity");
    reveal_strlit("prefix_affinity");
    reveal_strlit("load-cache-aware");
    reveal_strlit("load_cache_aware");
    assert("random"@.len() != "prefix-affinity"@.len());
    assert("random"@.len() != "prefix_affinity"@.len());
    assert("least-loaded"@[5] != "least_loaded"@[5]);
    assert("least-loaded"@[0] != "power-of-two"@[0]);
    assert("least-loaded"@[0] != "power_of_two"@[0]);
    assert("least_loaded"@[0] != "power-of-two"@[0]);
    assert("least_loaded"@[0] != "power_of_two"@[0]);
    assert("power-of-two"@[5] != "power_of_two"@[5]);
    assert("round-robin"@[5] != "round_robin"@[5]);
    assert("session-affinity"@[7] != "session_affinity"@[7]);
    assert("session-affinity"@[0] != "load-cache-aware"@[0]);
    assert("session-affinity"@[0] != "load_cache_aware"@[0]);
    assert("session_affinity"@[0] != "load-cache-aware"@[0]);
    assert("session_affinity"@[0] != "load_cache_aware"@[0]);
    assert("prefix-affinity"@[6] != "prefix_affinity"@[6]);
    assert("load-cache-aware"@[4] != "load_cache_aware"@[4]);
}

/// Every policy has a canonical name that the validator keeps as it is,
/// and that name selects that very policy.
pub proof fn law_policy_name_round_trip(p: Policy)
    ensures
        canonical_policy(policy_name(p)) == Some(policy_name(p)),
        policy_named(policy_name(p)) == p,
{
    lemma_policy_literals();
}

/// Two different canonical names select two different policies: no
/// accepted name falls back to another policy's behaviour.
pub proof fn law_canonical_names_distinct(a: Seq<char>, b: Seq<char>)
    requires
        canonical_policy(a) is Some,
        canonical_policy(b) is Some,
        canonical_policy(a) != canonical_policy(b),
    ensures
        policy_named(canonical_policy(a).unwrap()) != policy_named(canonical_policy(b).unwrap()),
{
    lemma_policy_literals();
}

} // verus!
