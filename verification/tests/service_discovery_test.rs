use tokendog_router::service_discovery::pod::{PodConditionInfo, PodStatusInfo};
use tokendog_router::service_discovery::reconcile::{apply_watched_pod, build_live_pod_set, reconcile_pods, next_retry_delay};
use tokendog_router::service_discovery::{
    add_worker_to_pool, compute_reconciliation_diff, handle_pod_deletion, handle_pod_event, remove_worker_from_pool,
    select_pool, PodInfo, PodObject, PodType, ServiceDiscoveryConfig, WorkerPool, WorkerPools,
};

fn create_test_pod(name: &str, ip: &str, phase: &str, ready_status: &str, labels: Option<Vec<(&str, &str)>>) -> PodObject {
    PodObject {
        name: Some(name.to_string()),
        uid: Some(format!("uid-{name}")),
        labels: labels.map(|pairs| pairs.into_iter().map(|(k, v)| (k.to_string(), v.to_string())).collect()),
        deleting: false,
        status: Some(PodStatusInfo {
            pod_ip: Some(ip.to_string()),
            phase: Some(phase.to_string()),
            conditions: Some(vec![PodConditionInfo { type_: "Ready".to_string(), status: ready_status.to_string() }]),
        }),
    }
}

fn pairs(p: &[(&str, &str)]) -> Vec<(String, String)> {
    p.iter().map(|(k, v)| (k.to_string(), v.to_string())).collect()
}

fn make_regular_config() -> ServiceDiscoveryConfig {
    ServiceDiscoveryConfig { enabled: true, selector: pairs(&[("app", "sglang")]), pd_mode: false, ..Default::default() }
}

fn make_pod_info(name: &str, uid: &str, ip: &str, status: &str, is_ready: bool) -> PodInfo {
    PodInfo {
        name: name.into(),
        uid: uid.into(),
        ip: ip.into(),
        status: status.into(),
        is_ready,
        pod_type: Some(PodType::Regular),
    }
}

fn pool_urls(pool: &WorkerPool) -> Vec<String> {
    pool.iter().map(|w| w.url.clone()).collect()
}

#[test]
fn test_pod_info_from_pod_valid() {
    let pod = create_test_pod("test-pod", "10.0.0.1", "Running", "True", None);
    let info = PodInfo::from_pod(&pod, None).unwrap();
    assert_eq!(info.name, "test-pod");
    assert_eq!(info.ip, "10.0.0.1");
    assert_eq!(info.status, "Running");
    assert!(info.is_ready);
}

#[test]
fn test_pod_info_from_pod_missing_name() {
    let pod = create_test_pod("test-pod", "10.0.0.1", "Running", "True", None);
    let mut pod_no_name = pod.clone();
    pod_no_name.name = None;
    assert!(PodInfo::from_pod(&pod_no_name, None).is_none());
}

#[test]
fn test_pod_info_from_pod_missing_uid() {
    let pod = create_test_pod("test-pod", "10.0.0.1", "Running", "True", None);
    let mut pod_no_uid = pod.clone();
    pod_no_uid.uid = None;
    assert!(PodInfo::from_pod(&pod_no_uid, None).is_none());
}

#[test]
fn test_pod_info_from_pod_not_ready() {
    let pod = create_test_pod("test-pod", "10.0.0.1", "Running", "False", None);
    let info = PodInfo::from_pod(&pod, None).unwrap();
    assert!(!info.is_ready);
}

#[test]
fn test_pod_info_is_healthy() {
    let healthy = make_pod_info("p1", "uid-1", "1.1.1.1", "Running", true);
    assert!(healthy.is_healthy());
    let not_ready = make_pod_info("p2", "uid-2", "1.1.1.2", "Running", false);
    assert!(!not_ready.is_healthy());
    let not_running = make_pod_info("p3", "uid-3", "1.1.1.3", "Pending", true);
    assert!(!not_running.is_healthy());
}

#[test]
fn test_pod_info_identity_based_equality() {
    let pod1 = make_pod_info("pod-a", "uid-1", "10.0.0.1", "Running", true);
    let pod2 = make_pod_info("pod-a", "uid-1", "10.0.0.2", "Pending", false);
    let pod3 = make_pod_info("pod-b", "uid-2", "10.0.0.1", "Running", true);
    assert_eq!(pod1, pod2);
    assert_ne!(pod1, pod3);
}

#[test]
fn test_pod_info_should_include_regular_mode() {
    let config = make_regular_config();
    let matching = create_test_pod("pod-1", "10.0.0.1", "Running", "True", Some(vec![("app", "sglang")]));
    let non_matching = create_test_pod("pod-2", "10.0.0.2", "Running", "True", Some(vec![("app", "other")]));
    assert!(PodInfo::should_include(&matching, &config));
    assert!(!PodInfo::should_include(&non_matching, &config));
}

fn pd_config(prefill: &[(&str, &str)], decode: &[(&str, &str)]) -> ServiceDiscoveryConfig {
    ServiceDiscoveryConfig {
        enabled: true,
        pd_mode: true,
        prefill_selector: pairs(prefill),
        decode_selector: pairs(decode),
        ..Default::default()
    }
}

#[test]
fn test_pod_info_should_include_pd_mode() {
    let config = pd_config(&[("app", "sglang"), ("component", "prefill")], &[("app", "sglang"), ("component", "decode")]);
    let prefill_pod =
        create_test_pod("prefill-0", "10.0.0.1", "Running", "True", Some(vec![("app", "sglang"), ("component", "prefill")]));
    let decode_pod =
        create_test_pod("decode-0", "10.0.0.2", "Running", "True", Some(vec![("app", "sglang"), ("component", "decode")]));
    let other_pod = create_test_pod("other-0", "10.0.0.3", "Running", "True", Some(vec![("app", "other")]));
    assert!(PodInfo::should_include(&prefill_pod, &config));
    assert!(PodInfo::should_include(&decode_pod, &config));
    assert!(!PodInfo::should_include(&other_pod, &config));
}

#[test]
fn test_pod_info_from_pod_pd_prefill() {
    let config = pd_config(&[("app", "sglang"), ("component", "prefill")], &[("app", "sglang")]);
    let pod = create_test_pod("prefill-0", "10.0.0.1", "Running", "True", Some(vec![("app", "sglang"), ("component", "prefill")]));
    let info = PodInfo::from_pod(&pod, Some(&config)).unwrap();
    assert_eq!(info.pod_type, Some(PodType::Prefill));
}

#[test]
fn test_pod_info_from_pod_pd_decode() {
    let config = pd_config(&[("app", "sglang")], &[("app", "sglang"), ("component", "decode")]);
    let pod = create_test_pod("decode-0", "10.0.0.1", "Running", "True", Some(vec![("app", "sglang"), ("component", "decode")]));
    let info = PodInfo::from_pod(&pod, Some(&config)).unwrap();
    assert_eq!(info.pod_type, Some(PodType::Decode));
}

#[test]
fn test_service_discovery_config_default() {
    let config = ServiceDiscoveryConfig::default();
    assert!(!config.enabled);
    assert!(config.selector.is_empty());
    assert_eq!(config.check_interval, 60);
    assert_eq!(config.port, 8000);
    assert!(config.namespace.is_none());
    assert!(!config.pd_mode);
}

#[test]
fn test_list_label_selector_regular_mode() {
    let config = make_regular_config();
    assert_eq!(config.list_label_selector(), "app=sglang");
}

#[test]
fn test_list_label_selector_pd_mode_common_labels() {
    let config = ServiceDiscoveryConfig {
        pd_mode: true,
        prefill_selector: pairs(&[("app", "sglang"), ("component", "prefill")]),
        decode_selector: pairs(&[("app", "sglang"), ("component", "decode")]),
        ..Default::default()
    };
    assert_eq!(config.list_label_selector(), "app=sglang");
}

#[test]
fn test_list_label_selector_pd_mode_no_common_labels() {
    let config = ServiceDiscoveryConfig {
        pd_mode: true,
        prefill_selector: pairs(&[("role", "prefill")]),
        decode_selector: pairs(&[("role", "decode")]),
        ..Default::default()
    };
    assert!(config.list_label_selector().is_empty());
}

#[test]
fn test_build_live_pod_set_includes_matching() {
    let config = make_regular_config();
    let pods = vec![
        create_test_pod("pod-a", "10.0.0.1", "Running", "True", Some(vec![("app", "sglang")])),
        create_test_pod("pod-b", "10.0.0.2", "Running", "True", Some(vec![("app", "sglang")])),
    ];
    let live = build_live_pod_set(&pods, &config);
    assert_eq!(live.len(), 2);
}

#[test]
fn test_build_live_pod_set_excludes_non_matching() {
    let config = make_regular_config();
    let pods = vec![
        create_test_pod("pod-a", "10.0.0.1", "Running", "True", Some(vec![("app", "sglang")])),
        create_test_pod("pod-b", "10.0.0.2", "Running", "True", Some(vec![("app", "other")])),
    ];
    let live = build_live_pod_set(&pods, &config);
    assert_eq!(live.len(), 1);
}

#[test]
fn test_build_live_pod_set_excludes_deleted() {
    let config = make_regular_config();
    let mut deleted = create_test_pod("pod-a", "10.0.0.1", "Running", "True", Some(vec![("app", "sglang")]));
    deleted.deleting = true;
    let pods = vec![deleted];
    let live = build_live_pod_set(&pods, &config);
    assert!(live.is_empty());
}

#[test]
fn test_compute_reconciliation_diff_no_changes() {
    let pod = make_pod_info("pod-a", "uid-a", "10.0.0.1", "Running", true);
    let known = vec![pod.duplicate()];
    let live = vec![pod];
    let (stale, missing) = compute_reconciliation_diff(&known, &live);
    assert!(stale.is_empty());
    assert!(missing.is_empty());
}

#[test]
fn test_compute_reconciliation_diff_stale_pod() {
    let known = vec![make_pod_info("pod-a", "uid-a", "10.0.0.1", "Running", true)];
    let live: Vec<PodInfo> = Vec::new();
    let (stale, missing) = compute_reconciliation_diff(&known, &live);
    assert_eq!(stale.len(), 1);
    assert_eq!(stale[0].name, "pod-a");
    assert!(missing.is_empty());
}

#[test]
fn test_compute_reconciliation_diff_missing_healthy() {
    let known: Vec<PodInfo> = Vec::new();
    let live = vec![make_pod_info("pod-b", "uid-b", "10.0.0.2", "Running", true)];
    let (stale, missing) = compute_reconciliation_diff(&known, &live);
    assert!(stale.is_empty());
    assert_eq!(missing.len(), 1);
    assert_eq!(missing[0].name, "pod-b");
}

#[test]
fn test_compute_reconciliation_diff_missing_unhealthy_excluded() {
    let known: Vec<PodInfo> = Vec::new();
    let live = vec![make_pod_info("pod-c", "uid-c", "10.0.0.3", "Running", false)];
    let (stale, missing) = compute_reconciliation_diff(&known, &live);
    assert!(stale.is_empty());
    assert!(missing.is_empty());
}

#[test]
fn test_compute_reconciliation_diff_mixed() {
    let pod_a = make_pod_info("pod-a", "uid-a", "10.0.0.1", "Running", true);
    let pod_b = make_pod_info("pod-b", "uid-b", "10.0.0.2", "Running", true);
    let pod_c = make_pod_info("pod-c", "uid-c", "10.0.0.3", "Running", true);
    let pod_d = make_pod_info("pod-d", "uid-d", "10.0.0.4", "Running", false);
    let known = vec![pod_a.duplicate(), pod_b.duplicate()];
    let live = vec![pod_b, pod_c.duplicate(), pod_d];
    let (stale, missing) = compute_reconciliation_diff(&known, &live);
    assert_eq!(stale.len(), 1);
    assert_eq!(stale[0].name, "pod-a");
    assert_eq!(missing.len(), 1);
    assert_eq!(missing[0].name, "pod-c");
}

#[test]
fn test_reconciliation_detects_pod_restart() {
    let old = make_pod_info("worker-0", "uid-old", "10.0.0.1", "Running", true);
    let new = make_pod_info("worker-0", "uid-new", "10.0.0.1", "Running", true);
    let known = vec![old];
    let live = vec![new];
    let (stale, missing) = compute_reconciliation_diff(&known, &live);
    assert_eq!(stale.len(), 1);
    assert_eq!(stale[0].uid, "uid-old");
    assert_eq!(missing.len(), 1);
    assert_eq!(missing[0].uid, "uid-new");
}

#[test]
fn test_add_worker_to_pool() {
    let mut pool: WorkerPool = Vec::new();
    assert!(add_worker_to_pool(&mut pool, "10.0.0.1:8000"));
    assert_eq!(pool.len(), 1);
    assert!(!add_worker_to_pool(&mut pool, "10.0.0.1:8000"));
    assert_eq!(pool.len(), 1);
}

#[test]
fn test_remove_worker_from_pool() {
    let mut pool: WorkerPool = Vec::new();
    add_worker_to_pool(&mut pool, "10.0.0.1:8000");
    add_worker_to_pool(&mut pool, "10.0.0.2:8000");
    assert!(remove_worker_from_pool(&mut pool, "10.0.0.1:8000"));
    assert_eq!(pool.len(), 1);
    assert!(!remove_worker_from_pool(&mut pool, "10.0.0.3:8000"));
}

#[test]
fn test_worker_url_format() {
    let info = make_pod_info("pod-1", "uid-1", "10.0.0.1", "Running", true);
    assert_eq!(info.worker_url(8000), "10.0.0.1:8000");
}

#[test]
fn test_select_pool_regular_mode() {
    let regular: WorkerPool = Vec::new();
    let info = make_pod_info("pod-1", "uid-1", "10.0.0.1", "Running", true);
    let selected = select_pool(&info, false, &regular, None, None);
    assert!(std::ptr::eq(selected, &regular));
}

#[test]
fn test_select_pool_pd_mode_prefill() {
    let regular: WorkerPool = Vec::new();
    let prefill: WorkerPool = Vec::new();
    let decode: WorkerPool = Vec::new();
    let mut info = make_pod_info("prefill-0", "uid-1", "10.0.0.1", "Running", true);
    info.pod_type = Some(PodType::Prefill);
    let selected = select_pool(&info, true, &regular, Some(&prefill), Some(&decode));
    assert!(std::ptr::eq(selected, &prefill));
}

#[test]
fn test_select_pool_pd_mode_decode() {
    let regular: WorkerPool = Vec::new();
    let prefill: WorkerPool = Vec::new();
    let decode: WorkerPool = Vec::new();
    let mut info = make_pod_info("decode-0", "uid-1", "10.0.0.1", "Running", true);
    info.pod_type = Some(PodType::Decode);
    let selected = select_pool(&info, true, &regular, Some(&prefill), Some(&decode));
    assert!(std::ptr::eq(selected, &decode));
}

#[test]
fn pod_event_adds_worker_once_and_deletion_removes_it() {
    let mut known: Vec<PodInfo> = Vec::new();
    let mut pools = WorkerPools { regular: Vec::new(), prefill: None, decode: None };
    let pod = make_pod_info("pod-a", "uid-a", "10.0.0.1", "Running", true);
    handle_pod_event(&mut known, &pod, &mut pools, 8000, false);
    handle_pod_event(&mut known, &pod, &mut pools, 8000, false);
    assert_eq!(known.len(), 1);
    assert_eq!(pool_urls(&pools.regular), vec!["10.0.0.1:8000".to_string()]);
    handle_pod_deletion(&mut known, &pod, &mut pools, 8000, false);
    assert!(known.is_empty());
    assert!(pools.regular.is_empty());
}

#[test]
fn pod_event_ignores_unhealthy_pod() {
    let mut known: Vec<PodInfo> = Vec::new();
    let mut pools = WorkerPools { regular: Vec::new(), prefill: None, decode: None };
    let pod = make_pod_info("pod-a", "uid-a", "10.0.0.1", "Pending", true);
    handle_pod_event(&mut known, &pod, &mut pools, 8000, false);
    assert!(known.is_empty());
    assert!(pools.regular.is_empty());
}

#[test]
fn restarted_pod_replaces_its_worker() {
    let mut known: Vec<PodInfo> = Vec::new();
    let mut pools = WorkerPools { regular: Vec::new(), prefill: None, decode: None };
    let old = make_pod_info("worker-0", "uid-old", "10.0.0.1", "Running", true);
    let new = make_pod_info("worker-0", "uid-new", "10.0.0.9", "Running", true);
    handle_pod_event(&mut known, &old, &mut pools, 8000, false);
    handle_pod_event(&mut known, &new, &mut pools, 8000, false);
    assert_eq!(known.len(), 1);
    assert_eq!(known[0].uid, "uid-new");
    assert_eq!(pool_urls(&pools.regular), vec!["10.0.0.9:8000".to_string()]);
}

#[test]
fn pd_pods_go_to_their_pools() {
    let config = pd_config(&[("app", "sglang"), ("component", "prefill")], &[("app", "sglang"), ("component", "decode")]);
    let mut known: Vec<PodInfo> = Vec::new();
    let mut pools = WorkerPools { regular: Vec::new(), prefill: Some(Vec::new()), decode: Some(Vec::new()) };
    let p = create_test_pod("prefill-0", "10.0.0.1", "Running", "True", Some(vec![("app", "sglang"), ("component", "prefill")]));
    let d = create_test_pod("decode-0", "10.0.0.2", "Running", "True", Some(vec![("app", "sglang"), ("component", "decode")]));
    assert!(apply_watched_pod(&mut known, &p, &config, &mut pools).is_some());
    assert!(apply_watched_pod(&mut known, &d, &config, &mut pools).is_some());
    assert!(pools.regular.is_empty());
    assert_eq!(pool_urls(pools.prefill.as_ref().unwrap()), vec!["10.0.0.1:8000".to_string()]);
    assert_eq!(pool_urls(pools.decode.as_ref().unwrap()), vec!["10.0.0.2:8000".to_string()]);
}

#[test]
fn watched_deletion_removes_worker() {
    let config = make_regular_config();
    let mut known: Vec<PodInfo> = Vec::new();
    let mut pools = WorkerPools { regular: Vec::new(), prefill: None, decode: None };
    let mut pod = create_test_pod("pod-a", "10.0.0.1", "Running", "True", Some(vec![("app", "sglang")]));
    apply_watched_pod(&mut known, &pod, &config, &mut pools);
    assert_eq!(pools.regular.len(), 1);
    pod.deleting = true;
    apply_watched_pod(&mut known, &pod, &config, &mut pools);
    assert!(pools.regular.is_empty());
    let other = create_test_pod("pod-x", "10.0.0.5", "Running", "True", Some(vec![("app", "other")]));
    assert!(apply_watched_pod(&mut known, &other, &config, &mut pools).is_none());
}

#[test]
fn reconcile_drops_gone_pods_and_adds_new_ones() {
    let config = make_regular_config();
    let mut known: Vec<PodInfo> = Vec::new();
    let mut pools = WorkerPools { regular: Vec::new(), prefill: None, decode: None };
    let a = create_test_pod("pod-a", "10.0.0.1", "Running", "True", Some(vec![("app", "sglang")]));
    apply_watched_pod(&mut known, &a, &config, &mut pools);
    let b = create_test_pod("pod-b", "10.0.0.2", "Running", "True", Some(vec![("app", "sglang")]));
    reconcile_pods(&mut known, &[b], &config, &mut pools, 8000);
    assert_eq!(known.len(), 1);
    assert_eq!(known[0].name, "pod-b");
    assert_eq!(pool_urls(&pools.regular), vec!["10.0.0.2:8000".to_string()]);
}

#[test]
fn retry_delay_doubles_up_to_cap() {
    assert_eq!(next_retry_delay(1), 2);
    assert_eq!(next_retry_delay(100), 200);
    assert_eq!(next_retry_delay(200), 300);
    assert_eq!(next_retry_delay(300), 300);
}
