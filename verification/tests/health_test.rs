use tokendog_router::health::url_report;
use tokendog_router::worker::health::{apply_probe, health_report, health_url, probe_passed};
use tokendog_router::worker::{healthy_worker_urls, Worker};

#[test]
fn test_worker_starts_healthy() {
    let worker = Worker::new("http://localhost:8000".to_string());
    assert!(worker.is_healthy());
    assert_eq!(worker.url, "http://localhost:8000");
}

#[test]
fn test_worker_health_transition() {
    let mut worker = Worker::new("http://localhost:8000".to_string());
    assert!(worker.is_healthy());
    worker.set_healthy(false);
    assert!(!worker.is_healthy());
    worker.set_healthy(true);
    assert!(worker.is_healthy());
}

#[test]
fn health_report_lists_workers() {
    let mut ws = Worker::from_urls(&["http://worker1:8000".to_string(), "http://worker2:8000".to_string()]);
    ws[1].set_healthy(false);
    let report = health_report(&ws);
    assert_eq!(report.status, "ok");
    assert_eq!(report.workers.len(), 2);
    assert_eq!(report.workers[0].url, "http://worker1:8000");
    assert!(report.workers[0].healthy);
    assert!(!report.workers[1].healthy);
    let urls = url_report(&ws);
    assert_eq!(urls.worker_urls, vec!["http://worker1:8000".to_string(), "http://worker2:8000".to_string()]);
}

#[test]
fn probes_and_transitions() {
    assert_eq!(health_url("http://w:8000/"), "http://w:8000/health");
    assert_eq!(health_url("http://w:8000"), "http://w:8000/health");
    assert!(probe_passed(Some(200)));
    assert!(!probe_passed(Some(204)));
    assert!(!probe_passed(None));
    let mut w = Worker::new("http://w".to_string());
    assert!(apply_probe(&mut w, false));
    assert!(!apply_probe(&mut w, false));
    assert!(apply_probe(&mut w, true));
}

#[test]
fn healthy_urls_keep_pool_indices() {
    let mut ws = Worker::from_urls(&["http://a".to_string(), "http://b".to_string(), "http://c".to_string()]);
    ws[0].set_healthy(false);
    assert_eq!(healthy_worker_urls(&ws), vec![(1, "http://b".to_string()), (2, "http://c".to_string())]);
}
