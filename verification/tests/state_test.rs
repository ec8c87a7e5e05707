use tokendog_router::config::{PdMode, Policy};
use tokendog_router::json::{get, Json, JsonNumber};
use tokendog_router::policies::least_loaded::LeastLoaded;
use tokendog_router::policies::prefix_affinity::PrefixAffinity;
use tokendog_router::policies::round_robin::RoundRobin;
use tokendog_router::policies::{LoadBalancer, RequestContext};
use tokendog_router::proxy::error::ProxyError;
use tokendog_router::routes::pd::PdProxyError;
use tokendog_router::routes::pipeline::{
    proxy_complete, proxy_start, reply_plan, sglang_start, vllm_decode_sent, vllm_decode_stage, vllm_prefill_status,
    vllm_start, ReplyPlan,
};
use tokendog_router::routes::pd::StreamingInfo;
use tokendog_router::server::AppState;
use tokendog_router::service_discovery::{PodInfo, PodType};
use tokendog_router::service_discovery::reconcile::handle_pod_event;
use tokendog_router::worker::Worker;

fn make_workers(urls: &[&str]) -> Vec<Worker> {
    let strings: Vec<String> = urls.iter().map(|u| u.to_string()).collect();
    Worker::from_urls(&strings)
}

fn ctx() -> RequestContext {
    RequestContext { session_id: "s".to_string(), prefix_key: "p".to_string() }
}

fn make_policy(_p: Policy, n: usize) -> Box<dyn LoadBalancer> {
    Box::new(LeastLoaded::new(n))
}

#[test]
fn test_app_state_new_with_workers() {
    let state = AppState::new(make_workers(&["http://localhost:8000"]), 30, Box::new(RoundRobin::new()));
    assert_eq!(state.workers.len(), 1);
    assert_eq!(state.workers[0].url, "http://localhost:8000");
}

#[test]
fn test_next_worker_returns_valid_url() {
    let mut state = AppState::new(make_workers(&["http://worker1:8000"]), 30, Box::new(RoundRobin::new()));
    let (_idx, worker) = state.next_worker().expect("should have a healthy worker");
    assert_eq!(worker, "http://worker1:8000");
}

#[test]
fn test_next_worker_filters_unhealthy() {
    let mut state =
        AppState::new(make_workers(&["http://worker1:8000", "http://worker2:8000"]), 30, Box::new(RoundRobin::new()));
    state.workers[0].set_healthy(false);
    let (idx, url) = state.next_worker().expect("should have a healthy worker");
    assert_eq!(idx, 1);
    assert_eq!(url, "http://worker2:8000");
}

#[test]
fn test_next_worker_no_healthy_workers() {
    let mut state = AppState::new(make_workers(&["http://worker1:8000"]), 30, Box::new(RoundRobin::new()));
    state.workers[0].set_healthy(false);
    assert!(state.next_worker().is_none());
}

#[test]
fn test_next_worker_round_robin_sequence() {
    let mut state =
        AppState::new(make_workers(&["http://a:8000", "http://b:8000", "http://c:8000"]), 30, Box::new(RoundRobin::new()));
    assert_eq!(state.next_worker().unwrap().1, "http://a:8000");
    assert_eq!(state.next_worker().unwrap().1, "http://b:8000");
    assert_eq!(state.next_worker().unwrap().1, "http://c:8000");
    assert_eq!(state.next_worker().unwrap().1, "http://a:8000");
    assert_eq!(state.next_worker().unwrap().1, "http://b:8000");
}

#[test]
fn policy_smaller_than_pool_yields_none() {
    let mut state = AppState::new(make_workers(&["http://a", "http://b"]), 30, Box::new(LeastLoaded::new(1)));
    assert!(state.next_worker().is_none());
}

#[test]
fn pd_state_serves_decode_pool_and_mirrors_health() {
    let mut state = AppState::new_pd(
        PdMode::Vllm,
        make_workers(&["http://p0"]),
        make_workers(&["http://d0", "http://d1"]),
        30,
        Box::new(LeastLoaded::new(1)),
        Box::new(LeastLoaded::new(2)),
    );
    assert!(state.is_pd_mode());
    assert_eq!(state.pd_mode(), Some(PdMode::Vllm));
    assert_eq!(state.workers.len(), 2);
    assert_eq!(state.next_prefill_worker(&ctx()), Some((0, "http://p0".to_string())));
    state.set_decode_healthy(0, false);
    assert!(!state.workers[0].is_healthy());
    assert_eq!(state.next_decode_worker(&ctx()), Some((1, "http://d1".to_string())));
    state.set_worker_healthy(0, true);
    assert!(state.decode_workers()[0].is_healthy());
    state.finish_prefill_request(0);
    state.finish_decode_request(1);
}

#[test]
fn k8s_state_starts_empty_and_takes_discovered_workers() {
    let mut state = AppState::new_k8s(30, Policy::LeastLoaded, make_policy);
    assert!(state.is_k8s_mode());
    assert!(state.next_worker().is_none());
    let mut pools = state.take_pools();
    let mut known: Vec<PodInfo> = Vec::new();
    let pod = PodInfo {
        name: "pod-a".into(),
        uid: "uid-a".into(),
        ip: "10.0.0.1".into(),
        status: "Running".into(),
        is_ready: true,
        pod_type: Some(PodType::Regular),
    };
    handle_pod_event(&mut known, &pod, &mut pools, 8000, false);
    state.put_pools(pools);
    state.rebuild_policy(make_policy);
    assert_eq!(state.k8s_worker_urls(), vec!["10.0.0.1:8000".to_string()]);
    assert_eq!(state.k8s_workers_snapshot().len(), 1);
    assert!(state.k8s_prefill_urls().is_empty());
    assert_eq!(state.next_worker().map(|w| w.1), Some("10.0.0.1:8000".to_string()));
}

#[test]
fn k8s_pd_state_has_no_regular_pool() {
    let mut state = AppState::new_k8s_pd(PdMode::Sglang, 30, Policy::RoundRobin, make_policy);
    let pools = state.take_pools();
    assert!(pools.prefill.is_some() && pools.decode.is_some());
    state.put_pools(pools);
    assert!(state.next_worker().is_none());
    assert!(state.next_prefill_worker(&ctx()).is_none());
    assert!(state.k8s_worker_urls().is_empty());
}

fn obj(members: Vec<(&str, Json)>) -> Json {
    Json::Object(members.into_iter().map(|(k, v)| (k.to_string(), v)).collect())
}

#[test]
fn vllm_pipeline_steps() {
    let mut state = AppState::new_pd(
        PdMode::Vllm,
        make_workers(&["http://p0:8000/"]),
        make_workers(&["http://d0:8000"]),
        30,
        Box::new(LeastLoaded::new(1)),
        Box::new(LeastLoaded::new(1)),
    );
    let req = obj(vec![("prompt", Json::Str("hi".into())), ("max_tokens", Json::Number(JsonNumber::PosInt(7)))]);
    let d = vllm_start(&mut state, &req, "/v1/completions", &ctx()).unwrap();
    assert_eq!(d.worker, 0);
    assert_eq!(d.target, "http://p0:8000/v1/completions");
    assert_eq!(get(&d.body, "max_tokens"), Some(&Json::Number(JsonNumber::PosInt(1))));
    assert_eq!(vllm_prefill_status(&mut state, 0, &d.url, Ok(200)), Ok(None));
    assert_eq!(vllm_prefill_status(&mut state, 0, &d.url, Ok(503)), Ok(Some(503)));
    assert_eq!(
        vllm_prefill_status(&mut state, 0, "http://p0", Err("refused".into())),
        Err(PdProxyError::PrefillRequest("http://p0".into(), "refused".into()))
    );
    let prefill_json = obj(vec![("kv_transfer_params", obj(vec![("remote_engine_id", Json::Str("e".into()))]))]);
    let dd = vllm_decode_stage(&mut state, &req, "/v1/completions", &ctx(), 0, &prefill_json).unwrap();
    assert_eq!(dd.target, "http://d0:8000/v1/completions");
    assert_eq!(get(&dd.body, "kv_transfer_params"), get(&prefill_json, "kv_transfer_params"));
    assert!(vllm_decode_sent(&mut state, 0, &dd.url, &ctx(), Ok(())).is_ok());
    assert_eq!(
        vllm_decode_sent(&mut state, 0, "http://d0", &ctx(), Err("x".into())),
        Err(PdProxyError::DecodeRequest("http://d0".into(), "x".into()))
    );
}

#[test]
fn pipelines_report_missing_workers() {
    let mut state = AppState::new(make_workers(&["http://a"]), 30, Box::new(RoundRobin::new()));
    let req = obj(vec![]);
    assert_eq!(vllm_start(&mut state, &req, "/v1/completions", &ctx()).err(), Some(PdProxyError::NoWorkers("prefill".into())));
    assert_eq!(sglang_start(&mut state, &req, "/v1/completions", &ctx()).err(), Some(PdProxyError::NoWorkers("prefill".into())));
}

#[test]
fn sglang_pipeline_shares_bootstrap_room() {
    let mut state = AppState::new_pd(
        PdMode::Sglang,
        make_workers(&["http://10.0.0.1:30000"]),
        make_workers(&["http://10.0.0.2:30000"]),
        30,
        Box::new(RoundRobin::new()),
        Box::new(RoundRobin::new()),
    );
    let req = obj(vec![("text", Json::Str("hi".into()))]);
    let (p, d) = sglang_start(&mut state, &req, "/generate", &ctx()).unwrap();
    assert_eq!(get(&p.body, "bootstrap_host"), Some(&Json::Str("10.0.0.1:30000".into())));
    assert_eq!(get(&p.body, "bootstrap_room"), get(&d.body, "bootstrap_room"));
    assert_eq!(get(&d.body, "bootstrap_port"), Some(&Json::Number(JsonNumber::PosInt(8998))));
    assert_eq!(p.target, "http://10.0.0.1:30000/generate");
}

#[test]
fn reply_plans() {
    assert_eq!(reply_plan(StreamingInfo { is_streaming: true, needs_logprobs: true }), ReplyPlan::Stream);
    assert_eq!(reply_plan(StreamingInfo { is_streaming: false, needs_logprobs: true }), ReplyPlan::Merge);
    assert_eq!(reply_plan(StreamingInfo { is_streaming: false, needs_logprobs: false }), ReplyPlan::Raw);
}

#[test]
fn proxy_pipeline_steps() {
    let mut state = AppState::new(make_workers(&["http://w0:8000/"]), 30, Box::new(LeastLoaded::new(1)));
    let headers = vec![
        ("host".to_string(), b"gateway".to_vec()),
        ("authorization".to_string(), b"Bearer k".to_vec()),
    ];
    assert_eq!(
        proxy_start(&mut state, 17 * 1024 * 1024, None, &headers, "/v1/models").err(),
        Some(ProxyError::BodyCollect("request body too large".into()))
    );
    let f = proxy_start(&mut state, 10, None, &headers, "/v1/models?x=1").unwrap();
    assert_eq!(f.target, "http://w0:8000/v1/models?x=1");
    assert_eq!(f.ctx.session_id, "Bearer k");
    assert_eq!(f.ctx.prefix_key, "default");
    assert_eq!(f.headers, vec![("authorization".to_string(), b"Bearer k".to_vec())]);
    proxy_complete(&mut state, &f, true);
    state.workers[0].set_healthy(false);
    assert_eq!(proxy_start(&mut state, 10, None, &headers, "/").err(), Some(ProxyError::NoHealthyWorkers));
}

#[test]
fn failed_prefill_send_releases_the_worker() {
    let mut state = AppState::new_pd(
        PdMode::Vllm,
        make_workers(&["http://p0:8000", "http://p1:8000"]),
        make_workers(&["http://d0:8000"]),
        30,
        Box::new(PrefixAffinity::with_threshold(2, 1)) as Box<dyn LoadBalancer>,
        Box::new(LeastLoaded::new(1)),
    );
    let req = obj(vec![("prompt", Json::Str("hi".into()))]);
    let first = vllm_start(&mut state, &req, "/v1/completions", &ctx()).unwrap();
    assert!(vllm_prefill_status(&mut state, first.worker, &first.url, Err("refused".into())).is_err());
    // Released: the preferred worker is under the threshold again.
    let second = vllm_start(&mut state, &req, "/v1/completions", &ctx()).unwrap();
    assert_eq!(second.worker, first.worker);
    // Still in flight: the preferred worker is at the threshold now.
    let third = vllm_start(&mut state, &req, "/v1/completions", &ctx()).unwrap();
    assert_ne!(third.worker, second.worker);
}

#[test]
fn selection_needs_only_healthy_workers_within_policy_state() {
    // The policy counts one worker; a second, unhealthy worker beyond that
    // does not stop routing to the first.
    let mut state = AppState::new(make_workers(&["http://a", "http://b"]), 30, Box::new(LeastLoaded::new(1)));
    state.set_worker_healthy(1, false);
    assert_eq!(state.next_worker(), Some((0, "http://a".to_string())));
    // A healthy worker beyond the policy's state cannot be counted.
    state.set_worker_healthy(1, true);
    assert_eq!(state.next_worker(), None);
}
