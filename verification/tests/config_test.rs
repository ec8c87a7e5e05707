use tokendog_router::config::auth::{hash_api_key, rejection, AuthConfig};
use tokendog_router::config::logging::{backup_content, backup_name, LogSize, DEFAULT_MAX_SIZE};
use tokendog_router::config::names::{policy_for_name, validate_log_level, validate_pd_mode, validate_policy};
use tokendog_router::config::{parse_selector, Config, LogLevel, PdMode, Policy};

fn bearer(token: &str) -> Vec<(String, Vec<u8>)> {
    vec![("authorization".to_string(), format!("Bearer {}", token).into_bytes())]
}

#[test]
fn api_key_hash_is_sha256() {
    let digest = hash_api_key("abc");
    let hex: String = digest.iter().map(|b| format!("{:02x}", b)).collect();
    assert_eq!(hex, "ba7816bf8f01cfea414140de5dae2223b00361a396177a9cb410ff61f20015ad");
}

#[test]
fn auth_disabled_allows_all() {
    let none = AuthConfig::new(None);
    assert!(none.authorize("/v1/chat/completions", &Vec::new()));
    let empty = AuthConfig::new(Some(Vec::new()));
    assert!(empty.authorize("/v1/chat/completions", &Vec::new()));
}

#[test]
fn auth_checks_bearer_tokens() {
    let cfg = AuthConfig::new(Some(vec!["sk-key1".to_string(), "sk-key2".to_string()]));
    assert!(cfg.authorize("/v1/completions", &bearer("sk-key1")));
    assert!(cfg.authorize("/v1/completions", &bearer("sk-key2")));
    assert!(!cfg.authorize("/v1/completions", &bearer("sk-wrong")));
    assert!(!cfg.authorize("/v1/completions", &Vec::new()));
    let bare = vec![("authorization".to_string(), b"Bearer".to_vec())];
    assert!(!cfg.authorize("/v1/completions", &bare));
    assert!(cfg.authorize("/health", &Vec::new()));
    assert_eq!(rejection(), (401, "Unauthorized"));
}

#[test]
fn names_are_validated() {
    assert_eq!(validate_policy("Least_Loaded"), Ok("least-loaded".to_string()));
    assert_eq!(validate_policy("LOAD-CACHE-AWARE"), Ok("load-cache-aware".to_string()));
    assert_eq!(
        validate_policy("fastest"),
        Err("Invalid policy 'fastest', expected one of: least-loaded, power-of-two, random, round-robin, session-affinity, prefix-affinity, load-cache-aware".to_string())
    );
    assert_eq!(policy_for_name("prefix-affinity"), Policy::PrefixAffinity);
    assert_eq!(policy_for_name("unknown"), Policy::RoundRobin);
    assert_eq!(validate_pd_mode(Some("VLLM")), Ok(Some(PdMode::Vllm)));
    assert_eq!(validate_pd_mode(None), Ok(None));
    assert_eq!(validate_pd_mode(Some("x")), Err("Invalid pd_mode 'x', expected 'vllm' or 'sglang'".to_string()));
    assert_eq!(validate_log_level("Debug"), Ok("debug".to_string()));
    assert!(validate_log_level("trace").is_err());
}

#[test]
fn selectors_parse_pairs() {
    assert_eq!(
        parse_selector(&Some("app=sglang,component=prefill".to_string())),
        vec![("app".to_string(), "sglang".to_string()), ("component".to_string(), "prefill".to_string())]
    );
    assert_eq!(parse_selector(&Some("a=b=c,novalue,=x,k=".to_string())), vec![
        ("a".to_string(), "b=c".to_string()),
        ("k".to_string(), String::new())
    ]);
    assert!(parse_selector(&None).is_empty());
}

fn base_config() -> Config {
    Config {
        host: "0.0.0.0".into(),
        port: 30000,
        worker_urls: vec!["http://localhost:8000".into()],
        request_timeout_secs: 300,
        policy: Policy::LeastLoaded,
        log_level: LogLevel::Info,
        pd_mode: None,
        prefill_urls: vec![],
        decode_urls: vec![],
        data_plane_api_keys: vec![],
        health_check: true,
        health_check_interval_secs: 60,
        log_file: None,
        k8s_namespace: None,
        k8s_selector: None,
        k8s_prefill_selector: None,
        k8s_decode_selector: None,
        k8s_port: 8000,
        k8s_check_interval_secs: 60,
    }
}

#[test]
fn static_setup_needs_workers() {
    let mut c = base_config();
    assert_eq!(c.static_setup_error(), None);
    assert!(!c.has_k8s_enabled());
    c.pd_mode = Some(PdMode::Vllm);
    assert_eq!(c.static_setup_error(), Some("PD mode requires at least one --prefill-urls"));
    c.prefill_urls = vec!["http://p".into()];
    assert_eq!(c.static_setup_error(), Some("PD mode requires at least one --decode-urls"));
    c.decode_urls = vec!["http://d".into()];
    assert_eq!(c.static_setup_error(), None);
    c.k8s_selector = Some("app=x".into());
    assert!(c.has_k8s_enabled());
}

#[test]
fn log_rotation_decisions() {
    let mut size = LogSize::new(5, 100);
    assert!(!size.must_rotate(95));
    assert!(size.must_rotate(96));
    size.rotated();
    assert!(!size.must_rotate(1000));
    size.wrote(20);
    assert!(size.must_rotate(81));
    let d = LogSize::with_default_max(DEFAULT_MAX_SIZE);
    assert!(d.must_rotate(1));
    assert!(!LogSize::new(0, 10).must_rotate(20));
}

#[test]
fn backup_names_and_content() {
    assert_eq!(backup_name(Some("router.json"), "2024-01-02T03-04-05"), "router.json.2024-01-02T03-04-05.gz");
    assert_eq!(backup_name(None, "t"), "router.log.t.gz");
    assert_eq!(backup_content(&[]), Ok(None));
    let gz = backup_content(b"hello hello hello").unwrap().unwrap();
    assert_eq!(&gz[..2], &[0x1f, 0x8b]);
    assert_ne!(gz, b"hello hello hello".to_vec());
}

#[test]
fn selector_keeps_last_value_of_a_repeated_key() {
    assert_eq!(
        parse_selector(&Some("app=a,tier=x,app=b".to_string())),
        vec![("app".to_string(), "b".to_string()), ("tier".to_string(), "x".to_string())]
    );
}
