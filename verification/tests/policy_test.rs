use tokendog_router::policies::cache_directory::{CacheDirectory, PREFIX_AFFINITY, SESSION_AFFINITY};
use tokendog_router::policies::least_loaded::LeastLoaded;
use tokendog_router::policies::power_of_two::{pick_of_two, PowerOfTwo};
use tokendog_router::policies::prefix_affinity::PrefixAffinity;
use tokendog_router::policies::random::Random;
use tokendog_router::policies::round_robin::RoundRobin;
use tokendog_router::policies::session_affinity::SessionAffinity;
use tokendog_router::policies::{stable_hash, LoadBalancer, RequestContext};

fn make_workers(n: usize) -> Vec<String> {
    (0..n).map(|i| format!("http://worker-{}:8000", i)).collect()
}

fn ctx(session: &str, prefix: &str) -> RequestContext {
    RequestContext { session_id: session.to_string(), prefix_key: prefix.to_string() }
}

// ── prefix affinity ──────────────────────────────────────────────────────

#[test]
fn same_prefix_same_worker_under_threshold() {
    let mut policy = PrefixAffinity::new(5);
    let workers: Vec<String> = (0..5).map(|i| format!("http://w{}", i)).collect();
    let ctx = ctx("s1", "You are a helpful assistant...");
    let first = policy.select_with_context(&workers, &ctx);
    for _ in 0..10 {
        assert_eq!(policy.select_with_context(&workers, &ctx), first);
    }
}

#[test]
fn falls_back_when_overloaded() {
    let mut policy = PrefixAffinity::with_threshold(3, 2);
    let workers: Vec<String> = (0..3).map(|i| format!("http://w{}", i)).collect();
    let ctx = ctx("s1", "system-prompt-a");
    let preferred = policy.select_with_context(&workers, &ctx);
    policy.on_request_start(preferred);
    policy.on_request_start(preferred);
    let fallback = policy.select_with_context(&workers, &ctx);
    assert_ne!(fallback, preferred);
    policy.on_request_end(preferred);
    policy.on_request_end(preferred);
}

#[test]
fn test_prefix_affinity_same_prefix_same_worker_under_threshold() {
    let mut policy = PrefixAffinity::new(5);
    let workers = make_workers(5);
    let ctx = ctx("s1", "You are a helpful assistant. Always respond in JSON.");
    let first = policy.select_with_context(&workers, &ctx);
    for _ in 0..10 {
        assert_eq!(policy.select_with_context(&workers, &ctx), first);
    }
}

#[test]
fn test_prefix_affinity_fallback_when_overloaded() {
    let mut policy = PrefixAffinity::with_threshold(3, 2);
    let workers = make_workers(3);
    let ctx = ctx("s1", "system-prompt-a");
    let preferred = policy.select_with_context(&workers, &ctx);
    policy.on_request_start(preferred);
    policy.on_request_start(preferred);
    let fallback = policy.select_with_context(&workers, &ctx);
    assert_ne!(fallback, preferred);
    policy.on_request_end(preferred);
    policy.on_request_end(preferred);
}

#[test]
fn test_prefix_affinity_different_prefixes_distribute() {
    let mut policy = PrefixAffinity::new(10);
    let workers = make_workers(10);
    let mut counts = [0usize; 10];
    for i in 0..1000 {
        let c = ctx(&format!("s-{}", i), &format!("prompt-number-{}", i));
        let idx = policy.select_with_context(&workers, &c);
        counts[idx] += 1;
    }
    let zeros = counts.iter().filter(|&&c| c == 0).count();
    assert!(zeros <= 1, "{} of 10 workers got zero traffic", zeros);
}

#[test]
fn test_prefix_affinity_single_worker() {
    let mut policy = PrefixAffinity::new(1);
    let workers = make_workers(1);
    assert_eq!(policy.select_with_context(&workers, &ctx("u1", "any-prompt")), 0);
}

#[test]
fn test_prefix_affinity_active_tracking() {
    let mut policy = PrefixAffinity::new(2);
    let workers = make_workers(2);
    policy.on_request_start(0);
    policy.on_request_start(0);
    let chosen = policy.select(&workers);
    assert_eq!(chosen, 1);
    policy.on_request_end(0);
    policy.on_request_end(0);
}

#[test]
fn prefix_affinity_prefers_hashed_worker() {
    let mut policy = PrefixAffinity::new(7);
    let workers = make_workers(7);
    let expected = (stable_hash("system-prompt-a") % 7) as usize;
    assert_eq!(policy.select_with_context(&workers, &ctx("s", "system-prompt-a")), expected);
}

// ── session affinity ─────────────────────────────────────────────────────

#[test]
fn same_session_maps_to_same_worker() {
    let mut policy = SessionAffinity;
    let workers: Vec<String> = (0..5).map(|i| format!("http://worker-{}:8000", i)).collect();
    let ctx = ctx("user-abc", "");
    let first = policy.select_with_context(&workers, &ctx);
    for _ in 0..100 {
        assert_eq!(policy.select_with_context(&workers, &ctx), first);
    }
}

#[test]
fn different_sessions_distribute() {
    let mut policy = SessionAffinity;
    let workers: Vec<String> = (0..100).map(|i| format!("http://w{}", i)).collect();
    let mut counts = vec![0usize; workers.len()];
    for i in 0..1000 {
        let idx = policy.select_with_context(&workers, &ctx(&format!("user-{}", i), ""));
        counts[idx] += 1;
    }
    let zeros = counts.iter().filter(|&&c| c == 0).count();
    assert!(zeros < 10, "{} workers got zero traffic", zeros);
}

#[test]
fn test_session_affinity_deterministic() {
    let mut policy = SessionAffinity;
    let workers = make_workers(5);
    let ctx = ctx("user-abc", "");
    let first = policy.select_with_context(&workers, &ctx);
    for _ in 0..100 {
        assert_eq!(policy.select_with_context(&workers, &ctx), first);
    }
}

#[test]
fn test_session_affinity_different_users_may_differ() {
    let mut policy = SessionAffinity;
    let workers = make_workers(100);
    let mut counts = vec![0usize; workers.len()];
    for i in 0..1000 {
        let idx = policy.select_with_context(&workers, &ctx(&format!("user-{}", i), ""));
        counts[idx] += 1;
    }
    let zeros = counts.iter().filter(|&&c| c == 0).count();
    assert!(zeros < 10, "{} of 100 workers got zero traffic", zeros);
}

#[test]
fn test_session_affinity_single_worker() {
    let mut policy = SessionAffinity;
    let workers = make_workers(1);
    assert_eq!(policy.select_with_context(&workers, &ctx("any-user", "")), 0);
}

#[test]
fn test_session_affinity_on_request_hooks_are_noop() {
    let mut policy = SessionAffinity;
    policy.on_request_start(0);
    policy.on_request_end(0);
    policy.record(&ctx("s1", ""), 0);
}

#[test]
fn test_session_affinity_select_without_context() {
    let mut policy = SessionAffinity;
    let workers = make_workers(3);
    let idx = policy.select(&workers);
    assert!(idx < workers.len());
}

#[test]
fn session_affinity_uses_stable_hash() {
    let mut policy = SessionAffinity;
    let workers = make_workers(13);
    let expected = (stable_hash("user-42") % 13) as usize;
    assert_eq!(policy.select_with_context(&workers, &ctx("user-42", "p")), expected);
}

// ── stable hash ──────────────────────────────────────────────────────────

#[test]
fn stable_hash_is_fnv1a() {
    assert_eq!(stable_hash(""), 0xcbf29ce484222325);
    assert_eq!(stable_hash("a"), 0xaf63dc4c8601ec8c);
    assert_eq!(stable_hash("foobar"), 0x85944171f73967e8);
}

// ── round robin ──────────────────────────────────────────────────────────

#[test]
fn test_round_robin_cycles_through_workers() {
    let mut rr = Box::new(RoundRobin::new());
    let workers: Vec<String> = ["a", "b", "c"].iter().map(|s| s.to_string()).collect();
    assert_eq!(rr.select(&workers), 0);
    assert_eq!(rr.select(&workers), 1);
    assert_eq!(rr.select(&workers), 2);
    assert_eq!(rr.select(&workers), 0);
    assert_eq!(rr.select(&workers), 1);
    assert_eq!(rr.select(&workers), 2);
}

#[test]
fn test_round_robin_single_worker() {
    let mut rr = Box::new(RoundRobin::new());
    let workers: Vec<String> = vec!["only".to_string()];
    assert_eq!(rr.select(&workers), 0);
    assert_eq!(rr.select(&workers), 0);
    assert_eq!(rr.select(&workers), 0);
}

#[test]
fn test_round_robin_default() {
    let mut rr = RoundRobin::default();
    let workers: Vec<String> = vec!["a".to_string()];
    assert_eq!(rr.select(&workers), 0);
}

// ── least loaded and power of two ────────────────────────────────────────

#[test]
fn least_loaded_picks_idle_worker() {
    let mut lb = LeastLoaded::new(3);
    let workers = make_workers(3);
    lb.on_request_start(0);
    lb.on_request_start(2);
    assert_eq!(lb.select(&workers), 1);
    lb.on_request_start(1);
    lb.on_request_start(1);
    let next = lb.select(&workers);
    assert!(next == 0 || next == 2);
}

#[test]
fn least_loaded_end_undoes_start() {
    let mut lb = LeastLoaded::new(2);
    let workers = make_workers(2);
    lb.on_request_start(0);
    lb.on_request_end(0);
    lb.on_request_start(1);
    assert_eq!(lb.select(&workers), 0);
}

#[test]
fn power_of_two_keeps_less_loaded_candidate() {
    assert_eq!(pick_of_two(&[5, 0, 3], 0, 1), 1);
    assert_eq!(pick_of_two(&[5, 0, 3], 2, 0), 2);
    assert_eq!(pick_of_two(&[2, 2], 1, 0), 1);
    let mut lb = PowerOfTwo::new(3);
    let workers = make_workers(3);
    for _ in 0..50 {
        assert!(lb.select(&workers) < 3);
    }
}

#[test]
fn random_stays_in_range() {
    let mut lb = Random;
    let workers = make_workers(4);
    for _ in 0..100 {
        assert!(lb.select(&workers) < 4);
    }
}

// ── cache directory ──────────────────────────────────────────────────────

#[test]
fn cache_directory_affinity_grows_after_record() {
    let mut dir = CacheDirectory::new(0);
    assert_eq!(dir.get_affinity("sys-a", "u1", 3, 10), vec![0, 0, 0]);
    dir.record("sys-a", "u1", 2, 10);
    assert_eq!(dir.get_affinity("sys-a", "u1", 3, 20), vec![0, 0, PREFIX_AFFINITY]);
}

#[test]
fn cache_directory_prefix_beats_session() {
    let mut dir = CacheDirectory::new(0);
    dir.record("prefix-a", "shared-user", 0, 1);
    dir.record("prefix-b", "shared-user", 1, 2);
    assert_eq!(dir.get_affinity("prefix-a", "shared-user", 3, 3), vec![PREFIX_AFFINITY, SESSION_AFFINITY, 0]);
}

#[test]
fn cache_directory_staleness_ages_out_entries() {
    let mut dir = CacheDirectory::new(100);
    dir.record("p", "s", 1, 1_000);
    assert_eq!(dir.get_affinity("p", "s", 2, 1_050), vec![0, PREFIX_AFFINITY]);
    assert_eq!(dir.get_affinity("p", "s", 2, 1_100), vec![0, 0]);
    assert_eq!(dir.get_affinity("p", "other", 2, 1_099), vec![0, PREFIX_AFFINITY]);
}

#[test]
fn cache_directory_ignores_workers_out_of_range() {
    let mut dir = CacheDirectory::new(0);
    dir.record("p", "s", 5, 0);
    assert_eq!(dir.get_affinity("p", "s", 3, 0), vec![0, 0, 0]);
}

#[test]
fn test_cache_directory_owners_follow_last_record() {
    let mut dir = CacheDirectory::new(1);
    assert_eq!(dir.owners("sys prompt", "user-1"), (None, None));
    dir.record("sys prompt", "user-1", 2, 10);
    assert_eq!(dir.owners("sys prompt", "user-1"), (Some(2), Some(2)));
    dir.record("sys prompt", "user-2", 0, 1_000_000);
    assert_eq!(dir.owners("sys prompt", "user-1"), (Some(0), Some(2)));
    assert_eq!(dir.owners("other", "user-2"), (None, Some(0)));
}

#[test]
fn cache_directory_session_covers_stale_prefix() {
    let mut dir = CacheDirectory::new(100);
    dir.record("p", "other", 0, 1_000);
    dir.record("q", "s", 1, 1_080);
    assert_eq!(dir.get_affinity("p", "s", 2, 1_120), vec![0, SESSION_AFFINITY]);
    assert_eq!(dir.get_affinity("p", "s", 2, 1_050), vec![PREFIX_AFFINITY, SESSION_AFFINITY]);
    let mut fresh = CacheDirectory::new(0);
    fresh.record("p", "s", 1, 5);
    assert_eq!(fresh.get_affinity("p", "s", 3, 9), vec![0, PREFIX_AFFINITY, 0]);
}

#[test]
fn policies_accept_an_empty_worker_list() {
    let none: Vec<String> = Vec::new();
    let c = ctx("u", "p");
    assert_eq!(RoundRobin::new().select(&none), 0);
    assert_eq!(Random.select(&none), 0);
    assert_eq!(LeastLoaded::new(2).select(&none), 0);
    assert_eq!(PowerOfTwo::new(2).select(&none), 0);
    assert_eq!(PrefixAffinity::new(2).select(&none), 0);
    assert_eq!(PrefixAffinity::new(2).select_with_context(&none, &c), 0);
    assert_eq!(SessionAffinity.select(&none), 0);
    assert_eq!(SessionAffinity.select_with_context(&none, &c), 0);
    let mut rr = RoundRobin::new();
    assert_eq!(rr.select(&none), 0);
    assert_eq!(rr.select(&make_workers(3)), 0);
}

#[test]
fn stable_hash_continues_over_a_suffix() {
    let mut h = stable_hash("hello ");
    for b in "wörld".bytes() {
        h = (h ^ b as u64).wrapping_mul(0x100000001b3);
    }
    assert_eq!(h, stable_hash("hello wörld"));
}
