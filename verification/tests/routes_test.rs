use tokendog_router::config::PdMode;
use tokendog_router::json::{clone_json, get, Json, JsonNumber};
use tokendog_router::routes::logprobs_merge::merge_logprobs_in_json;
use tokendog_router::routes::pd::{
    check_body_len, detect_streaming_info, is_inference_path, is_prefill_writable, pd_route, sglang_body,
    vllm_decode_body, vllm_prefill_body, PdProxyError, PdRoute, MAX_BODY_SIZE,
};
use tokendog_router::routes::prefill::{
    bootstrap_params_with, build_decode_kv_transfer_params, build_prefill_kv_transfer_params,
    build_sglang_bootstrap_params, extract_bootstrap_host, prepare_prefill_request, DEFAULT_BOOTSTRAP_PORT,
};

fn s(x: &str) -> Json {
    Json::Str(x.to_string())
}

fn n(x: u64) -> Json {
    Json::Number(JsonNumber::PosInt(x))
}

fn neg(x: i64) -> Json {
    Json::Number(JsonNumber::NegInt(x))
}

fn fl(x: &str) -> Json {
    Json::Number(JsonNumber::Float(x.to_string()))
}

fn obj(members: Vec<(&str, Json)>) -> Json {
    Json::Object(members.into_iter().map(|(k, v)| (k.to_string(), v)).collect())
}

fn arr(items: Vec<Json>) -> Json {
    Json::Array(items)
}

fn at<'a>(v: &'a Json, path: &[&str]) -> Option<&'a Json> {
    let mut cur = v;
    for k in path {
        cur = get(cur, k)?;
    }
    Some(cur)
}

fn item(v: &Json, i: usize) -> &Json {
    match v {
        Json::Array(a) => &a[i],
        _ => panic!("not an array"),
    }
}

// ── prefill request shaping ──────────────────────────────────────────────

#[test]
fn test_prefill_chat_completion() {
    let req = obj(vec![
        ("model", s("m")),
        ("messages", arr(vec![obj(vec![("role", s("user")), ("content", s("hi"))])])),
        ("max_tokens", n(512)),
        ("stream", Json::Bool(true)),
    ]);
    let result = prepare_prefill_request(req, "/v1/chat/completions");
    assert_eq!(get(&result, "max_tokens"), Some(&n(1)));
    assert_eq!(get(&result, "stream"), Some(&Json::Bool(false)));
    assert!(get(&result, "stream_options").is_none());
}

#[test]
fn test_prefill_chat_completion_max_completion_tokens() {
    let req = obj(vec![("model", s("m")), ("max_tokens", n(512)), ("max_completion_tokens", n(256))]);
    let result = prepare_prefill_request(req, "/v1/chat/completions");
    assert_eq!(get(&result, "max_completion_tokens"), Some(&n(1)));
}

#[test]
fn test_prefill_clamps_min_tokens() {
    let req = obj(vec![("model", s("m")), ("max_tokens", n(512)), ("min_tokens", n(100))]);
    let result = prepare_prefill_request(req, "/v1/completions");
    assert_eq!(get(&result, "min_tokens"), Some(&n(1)));
}

#[test]
fn test_prefill_leaves_small_min_tokens() {
    let req = obj(vec![("model", s("m")), ("max_tokens", n(512)), ("min_tokens", n(0))]);
    let result = prepare_prefill_request(req, "/v1/completions");
    assert_eq!(get(&result, "min_tokens"), Some(&n(0)));
}

#[test]
fn test_prefill_generate_patches_sampling_params() {
    let req = obj(vec![
        ("token_ids", arr(vec![n(1), n(2), n(3)])),
        ("sampling_params", obj(vec![("max_tokens", n(512)), ("temperature", fl("0.7"))])),
    ]);
    let result = prepare_prefill_request(req, "/inference/v1/generate");
    assert_eq!(at(&result, &["sampling_params", "max_tokens"]), Some(&n(1)));
    assert_eq!(at(&result, &["sampling_params", "temperature"]), Some(&fl("0.7")));
    assert!(get(&result, "max_tokens").is_none());
}

#[test]
fn test_prefill_generate_clamps_min_tokens() {
    let req = obj(vec![
        ("token_ids", arr(vec![n(1)])),
        ("sampling_params", obj(vec![("max_tokens", n(512)), ("min_tokens", n(50))])),
    ]);
    let result = prepare_prefill_request(req, "/inference/v1/generate");
    assert_eq!(at(&result, &["sampling_params", "min_tokens"]), Some(&n(1)));
}

#[test]
fn test_prefill_generate_without_sampling_params() {
    let req = obj(vec![("token_ids", arr(vec![n(1)]))]);
    let result = prepare_prefill_request(req, "/inference/v1/generate");
    assert_eq!(get(&result, "stream"), Some(&Json::Bool(false)));
    assert_eq!(at(&result, &["sampling_params", "max_tokens"]), Some(&n(1)));
    assert_eq!(at(&result, &["sampling_params", "min_tokens"]), Some(&n(1)));
}

#[test]
fn test_prefill_responses() {
    let req = obj(vec![("model", s("m")), ("input", s("hello")), ("max_output_tokens", n(1024)), ("stream", Json::Bool(true))]);
    let result = prepare_prefill_request(req, "/v1/responses");
    assert_eq!(get(&result, "max_output_tokens"), Some(&n(1)));
    assert!(get(&result, "max_tokens").is_none());
    assert_eq!(get(&result, "stream"), Some(&Json::Bool(false)));
}

#[test]
fn prefill_removes_stream_options_and_accepts_null() {
    let req = obj(vec![("stream_options", obj(vec![("include_usage", Json::Bool(true))])), ("stream", Json::Bool(true))]);
    let result = prepare_prefill_request(req, "/v1/completions");
    assert!(get(&result, "stream_options").is_none());
    let from_null = prepare_prefill_request(Json::Null, "/v1/completions");
    assert_eq!(from_null, obj(vec![("max_tokens", n(1)), ("stream", Json::Bool(false))]));
}

#[test]
fn prefill_writability_follows_body_shape() {
    assert!(is_prefill_writable(&obj(vec![]), "/v1/completions"));
    assert!(is_prefill_writable(&Json::Null, "/v1/completions"));
    assert!(!is_prefill_writable(&arr(vec![]), "/v1/completions"));
    let bad_sp = obj(vec![("sampling_params", n(3))]);
    assert!(!is_prefill_writable(&bad_sp, "/inference/v1/generate"));
    assert!(is_prefill_writable(&bad_sp, "/v1/completions"));
}

#[test]
fn test_build_prefill_kv_transfer_params_shape() {
    let params = build_prefill_kv_transfer_params();
    assert_eq!(get(&params, "do_remote_decode"), Some(&Json::Bool(true)));
    assert_eq!(get(&params, "do_remote_prefill"), Some(&Json::Bool(false)));
    assert_eq!(get(&params, "remote_engine_id"), Some(&Json::Null));
    assert_eq!(get(&params, "remote_block_ids"), Some(&Json::Null));
    assert_eq!(get(&params, "remote_host"), Some(&Json::Null));
    assert_eq!(get(&params, "remote_port"), Some(&Json::Null));
}

#[test]
fn test_build_decode_kv_transfer_params_extracts() {
    let resp = obj(vec![("kv_transfer_params", obj(vec![("do_remote_decode", Json::Bool(true))]))]);
    let params = build_decode_kv_transfer_params(&resp);
    assert!(params.is_some());
    assert_eq!(get(&params.unwrap(), "do_remote_decode"), Some(&Json::Bool(true)));
}

#[test]
fn test_build_decode_kv_transfer_params_missing() {
    let resp = obj(vec![("choices", arr(vec![]))]);
    assert!(build_decode_kv_transfer_params(&resp).is_none());
}

// ── SGLang bootstrap ─────────────────────────────────────────────────────

#[test]
fn bootstrap_host_from_parsed_url() {
    assert_eq!(extract_bootstrap_host("http://10.0.0.1:9000/v1"), "10.0.0.1:9000");
    assert_eq!(extract_bootstrap_host("http://prefill-0"), "prefill-0:8000");
    assert_eq!(extract_bootstrap_host("http://prefill-0:80"), "prefill-0:8000");
}

#[test]
fn bootstrap_host_of_unparsable_url_strips_scheme() {
    assert_eq!(extract_bootstrap_host("10.0.0.1:9000"), "10.0.0.1:9000");
    assert_eq!(extract_bootstrap_host("http://[bad"), "[bad");
    assert_eq!(extract_bootstrap_host("https://[::1"), "[::1");
}

#[test]
fn bootstrap_room_is_absolute_draw() {
    let (host, port, room) = bootstrap_params_with("http://10.0.0.1:9000", DEFAULT_BOOTSTRAP_PORT, -42);
    assert_eq!(host, "10.0.0.1:9000");
    assert_eq!(port, 8998);
    assert_eq!(room, 42);
    assert_eq!(bootstrap_params_with("http://h:1", 7, i64::MIN).2, 0);
    let (_, p, r) = build_sglang_bootstrap_params("http://h:1", 7);
    assert_eq!(p, 7);
    assert!(r >= 0);
}

// ── logprobs merging ─────────────────────────────────────────────────────

#[test]
fn test_merge_chat_completions_api() {
    let prefill = obj(vec![("prompt_logprobs", arr(vec![Json::Null, fl("-0.5"), fl("-1.2")]))]);
    let mut decode = obj(vec![("choices", arr(vec![obj(vec![("message", obj(vec![("content", s("hi"))]))])]))]);
    assert!(merge_logprobs_in_json(&prefill, &mut decode));
    assert_eq!(get(&decode, "prompt_logprobs"), Some(&arr(vec![Json::Null, fl("-0.5"), fl("-1.2")])));
}

#[test]
fn test_merge_completions_api() {
    let prefill = obj(vec![(
        "choices",
        arr(vec![obj(vec![
            ("prompt_logprobs", arr(vec![Json::Null, fl("-0.5"), fl("-1.2")])),
            (
                "logprobs",
                obj(vec![
                    ("token_logprobs", arr(vec![Json::Null, fl("-0.5"), fl("-1.2"), fl("-2.1")])),
                    ("tokens", arr(vec![s("Hello"), s(" world"), s(" test"), s(" extra")])),
                    ("text_offset", arr(vec![n(0), n(5), n(11), n(16)])),
                    (
                        "top_logprobs",
                        arr(vec![
                            Json::Null,
                            obj(vec![(" world", fl("-0.5"))]),
                            obj(vec![(" test", fl("-1.2"))]),
                            obj(vec![(" extra", fl("-2.1"))]),
                        ]),
                    ),
                ]),
            ),
        ])]),
    )]);
    let mut decode = obj(vec![(
        "choices",
        arr(vec![obj(vec![(
            "logprobs",
            obj(vec![
                ("token_logprobs", arr(vec![fl("-3.5"), fl("-4.2")])),
                ("tokens", arr(vec![s(" output"), s(" token")])),
                ("text_offset", arr(vec![n(0), n(7)])),
                ("top_logprobs", arr(vec![obj(vec![(" output", fl("-3.5"))]), obj(vec![(" token", fl("-4.2"))])])),
            ]),
        )])]),
    )]);
    assert!(merge_logprobs_in_json(&prefill, &mut decode));
    let choice = item(get(&decode, "choices").unwrap(), 0);
    let merged_tokens = match at(choice, &["logprobs", "tokens"]).unwrap() {
        Json::Array(a) => a.clone(),
        _ => panic!("tokens should be an array"),
    };
    assert_eq!(merged_tokens.len(), 5);
    assert_eq!(merged_tokens[0], s("Hello"));
    assert_eq!(merged_tokens[4], s(" token"));
    assert_eq!(
        at(choice, &["logprobs", "text_offset"]),
        Some(&arr(vec![n(0), n(5), n(11), n(16), n(23)]))
    );
    assert_eq!(
        at(choice, &["logprobs", "token_logprobs"]),
        Some(&arr(vec![Json::Null, fl("-0.5"), fl("-1.2"), fl("-3.5"), fl("-4.2")]))
    );
    assert_eq!(get(choice, "prompt_logprobs"), Some(&arr(vec![Json::Null, fl("-0.5"), fl("-1.2")])));
}

#[test]
fn test_merge_no_logprobs_returns_false() {
    let prefill = obj(vec![("choices", arr(vec![obj(vec![("index", n(0))])]))]);
    let mut decode = obj(vec![("choices", arr(vec![obj(vec![("text", s("hi"))])]))]);
    let before = clone_json(&decode);
    assert!(!merge_logprobs_in_json(&prefill, &mut decode));
    assert_eq!(decode, before);
}

#[test]
fn merge_generate_api_concatenates_input_logprobs() {
    let prefill = obj(vec![("meta_info", obj(vec![("input_token_logprobs", arr(vec![n(1), n(2)]))]))]);
    let mut decode = obj(vec![("meta_info", obj(vec![("input_token_logprobs", arr(vec![n(3)])), ("id", s("x"))]))]);
    assert!(merge_logprobs_in_json(&prefill, &mut decode));
    assert_eq!(at(&decode, &["meta_info", "input_token_logprobs"]), Some(&arr(vec![n(1), n(2), n(3)])));
    assert_eq!(at(&decode, &["meta_info", "id"]), Some(&s("x")));
}

#[test]
fn merge_shifts_offsets_with_negative_values() {
    let prefill = obj(vec![(
        "choices",
        arr(vec![obj(vec![
            ("prompt_logprobs", arr(vec![Json::Null])),
            ("logprobs", obj(vec![("text_offset", arr(vec![neg(-10), n(99)])), ("tokens", arr(vec![s("ab")]))])),
        ])]),
    )]);
    let mut decode = obj(vec![("choices", arr(vec![obj(vec![("logprobs", obj(vec![("text_offset", arr(vec![n(1), s("x")]))]))])]))]);
    assert!(merge_logprobs_in_json(&prefill, &mut decode));
    let choice = item(get(&decode, "choices").unwrap(), 0);
    assert_eq!(at(choice, &["logprobs", "text_offset"]), Some(&arr(vec![neg(-10), neg(-7)])));
}

// ── PD decisions ─────────────────────────────────────────────────────────

#[test]
fn inference_paths_are_recognised() {
    assert!(is_inference_path("/v1/chat/completions"));
    assert!(is_inference_path("/v1/completions"));
    assert!(is_inference_path("/v1/responses"));
    assert!(is_inference_path("/inference/v1/generate"));
    assert!(!is_inference_path("/v1/models"));
    assert!(!is_inference_path("/health"));
}

#[test]
fn pd_route_depends_on_mode_and_path() {
    assert_eq!(pd_route(Some(PdMode::Vllm), "/v1/completions"), PdRoute::Vllm);
    assert_eq!(pd_route(Some(PdMode::Sglang), "/v1/chat/completions"), PdRoute::Sglang);
    assert_eq!(pd_route(Some(PdMode::Vllm), "/v1/models"), PdRoute::Regular);
    assert_eq!(pd_route(None, "/v1/completions"), PdRoute::Regular);
}

#[test]
fn streaming_info_reads_stream_logprobs_echo() {
    let si = detect_streaming_info(&obj(vec![("stream", Json::Bool(true))]));
    assert!(si.is_streaming && !si.needs_logprobs);
    let si = detect_streaming_info(&obj(vec![("logprobs", Json::Null), ("stream", s("yes"))]));
    assert!(!si.is_streaming && si.needs_logprobs);
    let si = detect_streaming_info(&obj(vec![("echo", Json::Bool(true))]));
    assert!(si.needs_logprobs);
    let si = detect_streaming_info(&obj(vec![("echo", Json::Bool(false))]));
    assert!(!si.needs_logprobs);
}

#[test]
fn vllm_bodies_carry_kv_params() {
    let req = obj(vec![("prompt", s("p")), ("max_tokens", n(9))]);
    let body = vllm_prefill_body(&req, "/v1/completions");
    assert_eq!(get(&body, "max_tokens"), Some(&n(1)));
    assert_eq!(get(&body, "kv_transfer_params"), Some(&build_prefill_kv_transfer_params()));
    let kv = obj(vec![("remote_engine_id", s("e1"))]);
    let decode = vllm_decode_body(clone_json(&req), Some(clone_json(&kv)));
    assert_eq!(get(&decode, "kv_transfer_params"), Some(&kv));
    assert_eq!(get(&decode, "max_tokens"), Some(&n(9)));
    assert_eq!(vllm_decode_body(arr(vec![]), Some(kv)), arr(vec![]));
}

#[test]
fn sglang_body_adds_bootstrap_members() {
    let req = obj(vec![("text", s("t"))]);
    let body = sglang_body(&req, "10.0.0.1:8000", 8998, -5);
    assert_eq!(get(&body, "bootstrap_host"), Some(&s("10.0.0.1:8000")));
    assert_eq!(get(&body, "bootstrap_port"), Some(&n(8998)));
    assert_eq!(get(&body, "bootstrap_room"), Some(&neg(-5)));
    assert_eq!(sglang_body(&Json::Null, "h", 1, 1), Json::Null);
}

#[test]
fn pd_errors_map_to_status_and_body() {
    let (st, msg) = PdProxyError::PrefillRequest("http://p".into(), "refused".into()).status_and_message();
    assert_eq!(st, 502);
    assert_eq!(msg, "Prefill request to http://p failed: refused");
    assert_eq!(PdProxyError::NoWorkers("decode".into()).status_and_message(), (503, "decode".to_string()));
    assert_eq!(PdProxyError::PrefillError(429, "slow".into()).status_and_message(), (429, "slow".to_string()));
    assert_eq!(
        PdProxyError::WorkerRequest { timeout: true, message: "t".into() }.status_and_message(),
        (504, "t".to_string())
    );
    assert_eq!(
        PdProxyError::DecodeParse("eof".into()).status_and_message(),
        (502, "Failed to parse decode response JSON: eof".to_string())
    );
    assert_eq!(PdProxyError::UrlParse("bad".into()).status_and_message().0, 400);
    assert_eq!(PdProxyError::JsonSerialize("x".into()).status_and_message().0, 500);
}

#[test]
fn body_size_limit() {
    assert!(check_body_len(MAX_BODY_SIZE).is_ok());
    assert_eq!(
        check_body_len(MAX_BODY_SIZE + 1),
        Err(PdProxyError::BodyCollect("request body too large".to_string()))
    );
}
