use tokendog_router::json::{Json, JsonNumber};
use tokendog_router::middleware::context::extract_context;
use tokendog_router::middleware::error::ProxyError;
use tokendog_router::middleware::header::{drop_named, filter_hop_by_hop, is_hop_by_hop, Header};

fn h(name: &str, value: &str) -> Header {
    (name.to_string(), value.as_bytes().to_vec())
}

fn s(x: &str) -> Json {
    Json::Str(x.to_string())
}

fn obj(members: Vec<(&str, Json)>) -> Json {
    Json::Object(members.into_iter().map(|(k, v)| (k.to_string(), v)).collect())
}

#[test]
fn test_is_hop_by_hop_known_headers() {
    assert!(is_hop_by_hop("connection"));
    assert!(is_hop_by_hop("keep-alive"));
    assert!(is_hop_by_hop("proxy-authenticate"));
    assert!(is_hop_by_hop("proxy-authorization"));
    assert!(is_hop_by_hop("te"));
    assert!(is_hop_by_hop("trailers"));
    assert!(is_hop_by_hop("transfer-encoding"));
    assert!(is_hop_by_hop("upgrade"));
}

#[test]
fn test_is_hop_by_hop_normal_headers() {
    assert!(!is_hop_by_hop("content-type"));
    assert!(!is_hop_by_hop("content-length"));
    assert!(!is_hop_by_hop("authorization"));
    assert!(!is_hop_by_hop("x-custom-header"));
    assert!(!is_hop_by_hop("host"));
}

#[test]
fn test_filter_hop_by_hop_removes_all_hop_by_hop() {
    let headers = vec![
        h("content-type", "application/json"),
        h("connection", "close"),
        h("transfer-encoding", "chunked"),
        h("x-request-id", "abc-123"),
    ];
    let filtered = filter_hop_by_hop(&headers);
    let names: Vec<&str> = filtered.iter().map(|(n, _)| n.as_str()).collect();
    assert_eq!(filtered.len(), 2);
    assert!(names.contains(&"content-type"));
    assert!(names.contains(&"x-request-id"));
    assert!(!names.contains(&"connection"));
    assert!(!names.contains(&"transfer-encoding"));
}

#[test]
fn test_filter_hop_by_hop_empty_headers() {
    let headers: Vec<Header> = Vec::new();
    let filtered = filter_hop_by_hop(&headers);
    assert!(filtered.is_empty());
}

#[test]
fn test_filter_hop_by_hop_keeps_all_allowed_headers() {
    let headers = vec![h("authorization", "Bearer token"), h("content-type", "text/plain")];
    let filtered = filter_hop_by_hop(&headers);
    assert_eq!(filtered.len(), 2);
}

#[test]
fn drop_named_removes_every_match_in_order() {
    let headers = vec![h("a", "1"), h("content-length", "5"), h("b", "2"), h("content-length", "6")];
    assert_eq!(drop_named(&headers, "content-length"), vec![h("a", "1"), h("b", "2")]);
}

#[test]
fn test_proxy_error_url_parse_returns_502() {
    let err = ProxyError::UrlParse("empty host".to_string());
    assert_eq!(err.status_code(), 502);
}

#[test]
fn test_proxy_error_body_collect_returns_400() {
    let err = ProxyError::BodyCollect("request body too large".to_string());
    assert_eq!(err.status_code(), 400);
}

#[test]
fn test_proxy_error_into_response_content_type() {
    let err = ProxyError::BodyCollect("failed".to_string());
    assert_eq!(err.content_type(), "text/plain; charset=utf-8");
}

#[test]
fn test_proxy_error_body_collect_body_content() {
    let err = ProxyError::BodyCollect("custom error".to_string());
    assert_eq!(err.message(), "failed to read request body");
}

#[test]
fn test_proxy_error_url_parse_body_content() {
    let err = ProxyError::UrlParse("empty host".to_string());
    assert_eq!(err.message(), "invalid worker URL");
}

#[test]
fn backend_errors_map_by_kind() {
    let t = ProxyError::BackendRequest { timeout: true, connect: false, message: "x".into() };
    assert_eq!((t.status_code(), t.message()), (504, "backend timeout"));
    let c = ProxyError::BackendRequest { timeout: false, connect: true, message: "x".into() };
    assert_eq!((c.status_code(), c.message()), (502, "backend connection failed"));
    let o = ProxyError::BackendRequest { timeout: false, connect: false, message: "x".into() };
    assert_eq!((o.status_code(), o.message()), (502, "backend error"));
    assert_eq!(ProxyError::ResponseBuild("x".into()).status_code(), 500);
    assert_eq!(ProxyError::NoHealthyWorkers.status_code(), 503);
}

#[test]
fn context_defaults_without_body_or_headers() {
    let c = extract_context(None, &Vec::new());
    assert_eq!(c.session_id, "default");
    assert_eq!(c.prefix_key, "default");
}

#[test]
fn context_prefers_header_key_then_user_then_session_id() {
    let body = obj(vec![("user", s("alice")), ("session_id", s("sess"))]);
    let hs = vec![h("x-forwarded-for", "10.1.1.1"), h("cookie", "c=1")];
    assert_eq!(extract_context(Some(&body), &hs).session_id, "10.1.1.1");
    assert_eq!(extract_context(Some(&body), &Vec::new()).session_id, "alice");
    let only_session = obj(vec![("session_id", s("sess"))]);
    assert_eq!(extract_context(Some(&only_session), &Vec::new()).session_id, "sess");
    let user_not_string = obj(vec![("user", Json::Number(JsonNumber::PosInt(3))), ("session_id", s("sess"))]);
    assert_eq!(extract_context(Some(&user_not_string), &Vec::new()).session_id, "default");
    let empty_auth = vec![h("authorization", ""), h("cookie", "c=1")];
    assert_eq!(extract_context(Some(&body), &empty_auth).session_id, "c=1");
    let empty_auth_forwarded = vec![h("authorization", ""), h("x-forwarded-for", "10.1.1.1")];
    let c = extract_context(Some(&obj(vec![])), &empty_auth_forwarded);
    assert_eq!(c.session_id, "10.1.1.1");
    assert_eq!(c.prefix_key, "default");
    let all_empty = vec![h("authorization", ""), h("x-forwarded-for", ""), h("cookie", "")];
    assert_eq!(extract_context(Some(&body), &all_empty).session_id, "alice");
    assert_eq!(extract_context(None, &hs).session_id, "10.1.1.1");
}

#[test]
fn context_prefix_prefers_system_message_and_truncates() {
    let long: String = "é".repeat(250);
    let body = obj(vec![(
        "messages",
        Json::Array(vec![
            obj(vec![("role", s("user")), ("content", s("question"))]),
            obj(vec![("role", s("system")), ("content", s(&long))]),
        ]),
    )]);
    let c = extract_context(Some(&body), &Vec::new());
    assert_eq!(c.prefix_key.chars().count(), 200);
    assert_eq!(c.prefix_key, "é".repeat(200));
    let no_system = obj(vec![("messages", Json::Array(vec![obj(vec![("role", s("user")), ("content", s("hello"))])]))]);
    assert_eq!(extract_context(Some(&no_system), &Vec::new()).prefix_key, "hello");
    let empty = obj(vec![("messages", Json::Array(vec![]))]);
    assert_eq!(extract_context(Some(&empty), &Vec::new()).prefix_key, "default");
}
