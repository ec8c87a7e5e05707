//! Decisions of the prefill/decode pipeline: which requests take it, how
//! the bodies sent to each stage are built, and what each failure answers.

use vstd::prelude::*;
use crate::config::PdMode;
use crate::json::{Json, JsonV, jv, jv_get, jv_set, jv_as_bool, get, insert, is_object, as_bool, clone_json};
use crate::routes::prefill::{
    prefill_request, prefill_writable, prefill_kv_params, prepare_prefill_request,
    build_prefill_kv_transfer_params,
};
use crate::text::{contains_spec, str_contains, concat};

verus! {

/// Maximum request body size: 16 MB.
pub const MAX_BODY_SIZE: usize = 16 * 1024 * 1024;

/// Whether `path` names a known LLM inference endpoint.
pub open spec fn inference_path(path: Seq<char>) -> bool {
    contains_spec(path, "/v1/chat/completions"@) || contains_spec(path, "/v1/completions"@)
        || contains_spec(path, "/v1/responses"@) || contains_spec(path, "/inference/v1/generate"@)
}

/// Returns `true` if `path` targets a known LLM inference endpoint.
pub fn is_inference_path(path: &str) -> (r: bool)
    ensures
        r == inference_path(path@),
{
    str_contains(path, "/v1/chat/completions") || str_contains(path, "/v1/completions")
        || str_contains(path, "/v1/responses") || str_contains(path, "/inference/v1/generate")
}

/// Which pipeline serves a request.
#[derive(Debug, Clone, Copy, PartialEq, Eq)]
pub enum PdRoute {
    /// vLLM: prefill, then decode with the KV transfer parameters.
    Vllm,
    /// SGLang: prefill and decode dispatched together.
    Sglang,
    /// The regular reverse proxy.
    Regular,
}

/// The pipeline for a request: the PD pipeline of the configured mode for
/// inference paths, the regular proxy otherwise.
pub open spec fn route_of(mode: Option<PdMode>, path: Seq<char>) -> PdRoute {
    match mode {
        Some(PdMode::Vllm) => if inference_path(path) { PdRoute::Vllm } else { PdRoute::Regular },
        Some(PdMode::Sglang) => if inference_path(path) { PdRoute::Sglang } else { PdRoute::Regular },
        None => PdRoute::Regular,
    }
}

/// The pipeline that serves a request on `path`.
pub fn pd_route(mode: Option<PdMode>, path: &str) -> (r: PdRoute)
    ensures
        r == route_of(mode, path@),
{
    match mode {
        Some(m) => if is_inference_path(path) {
            match m {
                PdMode::Vllm => PdRoute::Vllm,
                PdMode::Sglang => PdRoute::Sglang,
            }
        } else {
            PdRoute::Regular
        },
        None => PdRoute::Regular,
    }
}

/// Whether the client asked for streaming, and whether logprobs must be
/// merged into the response.
#[derive(Debug, Clone, Copy, PartialEq, Eq)]
pub struct StreamingInfo {
    pub is_streaming: bool,
    pub needs_logprobs: bool,
}

/// `v[key]` is the boolean `true`.
pub open spec fn flag_set(v: JsonV, key: Seq<char>) -> bool {
    match jv_get(v, key) {
        Some(x) => jv_as_bool(x) == Some(true),
        None => false,
    }
}

/// Streaming when `stream` is `true`; logprobs needed when `logprobs` is
/// present or `echo` is `true`.
pub fn detect_streaming_info(request_json: &Json) -> (r: StreamingInfo)
    ensures
        r.is_streaming == flag_set(jv(*request_json), "stream"@),
        r.needs_logprobs == (jv_get(jv(*request_json), "logprobs"@) is Some || flag_set(
            jv(*request_json),
            "echo"@,
        )),
{
    let is_streaming = match get(request_json, "stream") {
        Some(v) => match as_bool(v) {
            Some(b) => b,
            None => false,
        },
        None => false,
    };
    let echo = match get(request_json, "echo") {
        Some(v) => match as_bool(v) {
            Some(b) => b,
            None => false,
        },
        None => false,
    };
    StreamingInfo { is_streaming, needs_logprobs: get(request_json, "logprobs").is_some() || echo }
}

/// Whether `prepare_prefill_request` can write to `request` on `path`:
/// the request, and on the generate API its `sampling_params`, are
/// objects or `null`.
pub fn is_prefill_writable(request: &Json, path: &str) -> (r: bool)
    ensures
        r == prefill_writable(jv(*request), path@),
{
    let top = match request {
        Json::Object(_) => true,
        Json::Null => true,
        _ => false,
    };
    if !top {
        return false;
    }
    if str_contains(path, "inference/v1/generate") {
        match get(request, "sampling_params") {
            Some(sp) => match sp {
                Json::Object(_) => true,
                Json::Null => true,
                _ => false,
            },
            None => true,
        }
    } else {
        true
    }
}

/// The body of the vLLM prefill request.
pub open spec fn vllm_prefill_spec(req: JsonV, path: Seq<char>) -> JsonV {
    jv_set(prefill_request(req, path), "kv_transfer_params"@, prefill_kv_params())
}

/// The body of the vLLM decode request.
pub open spec fn vllm_decode_spec(req: JsonV, kv: Option<JsonV>) -> JsonV {
    match kv {
        Some(p) => if req is Object {
            jv_set(req, "kv_transfer_params"@, p)
        } else {
            req
        },
        None => req,
    }
}

/// The body of the vLLM prefill request: the prefill variant of the
/// request with the KV transfer parameters of a remote decode.
pub fn vllm_prefill_body(request: &Json, path: &str) -> (r: Json)
    requires
        prefill_writable(jv(*request), path@),
    ensures
        jv(r) == vllm_prefill_spec(jv(*request), path@),
{
    let prepared = prepare_prefill_request(clone_json(request), path);
    insert(prepared, "kv_transfer_params", build_prefill_kv_transfer_params())
}

/// The body of the vLLM decode request: the original request, with the
/// prefill's KV transfer parameters where there are some and the request
/// is an object.
pub fn vllm_decode_body(request: Json, kv_transfer_params: Option<Json>) -> (r: Json)
    ensures
        jv(r) == vllm_decode_spec(
            jv(request),
            match kv_transfer_params {
                Some(p) => Some(jv(p)),
                None => None,
            },
        ),
{
    match kv_transfer_params {
        Some(p) => if is_object(&request) {
            insert(request, "kv_transfer_params", p)
        } else {
            request
        },
        None => request,
    }
}

/// The SGLang bootstrap members added to an object request.
pub open spec fn with_bootstrap(req: JsonV, host: Seq<char>, port: u16, room: i64) -> JsonV {
    if req is Object {
        jv_set(
            jv_set(jv_set(req, "bootstrap_host"@, JsonV::Str(host)), "bootstrap_port"@, crate::json::jv_uint(port as u64)),
            "bootstrap_room"@,
            crate::json::jv_int(room),
        )
    } else {
        req
    }
}

/// The body sent to an SGLang worker: the request with `bootstrap_host`,
/// `bootstrap_port` and `bootstrap_room`, where it is an object.
pub fn sglang_body(request: &Json, host: &str, port: u16, room: i64) -> (r: Json)
    ensures
        jv(r) == with_bootstrap(jv(*request), host@, port, room),
{
    let body = clone_json(request);
    if !is_object(&body) {
        return body;
    }
    let body = insert(body, "bootstrap_host", Json::Str(host.to_owned()));
    let body = insert(body, "bootstrap_port", crate::json::uint(port as u64));
    insert(body, "bootstrap_room", crate::json::signed(room))
}

/// Errors of the two-stage pipeline. Failures of the HTTP client are
/// kept by whether they were a timeout and their message.
#[derive(Debug, Clone, PartialEq, Eq)]
pub enum PdProxyError {
    BodyCollect(String),
    JsonParse(String),
    NoWorkers(String),
    PrefillRequest(String, String),
    PrefillError(u16, String),
    PrefillResponse(String),
    PrefillParse(String),
    DecodeRequest(String, String),
    DecodeResponse(String),
    DecodeParse(String),
    JsonSerialize(String),
    WorkerRequest { timeout: bool, message: String },
    UrlParse(String),
    ResponseBuild(String),
}

/// The status and body that answer each failure.
pub open spec fn pd_error_response(e: PdProxyError) -> (u16, Seq<char>) {
    match e {
        PdProxyError::BodyCollect(m) => (400, m@),
        PdProxyError::JsonParse(m) => (400, m@),
        PdProxyError::NoWorkers(m) => (503, m@),
        PdProxyError::PrefillRequest(url, m) => (502, "Prefill request to "@ + url@ + " failed: "@ + m@),
        PdProxyError::PrefillError(s, m) => (s, m@),
        PdProxyError::PrefillResponse(m) => (502, "Failed to read prefill response: "@ + m@),
        PdProxyError::PrefillParse(m) => (502, "Failed to parse prefill response JSON: "@ + m@),
        PdProxyError::DecodeRequest(url, m) => (502, "Decode request to "@ + url@ + " failed: "@ + m@),
        PdProxyError::DecodeResponse(m) => (502, "Failed to read decode response: "@ + m@),
        PdProxyError::DecodeParse(m) => (502, "Failed to parse decode response JSON: "@ + m@),
        PdProxyError::JsonSerialize(m) => (500, m@),
        PdProxyError::WorkerRequest { timeout, message } => (if timeout { 504 } else { 502 }, message@),
        PdProxyError::UrlParse(m) => (400, m@),
        PdProxyError::ResponseBuild(m) => (500, m@),
    }
}

impl PdProxyError {
    /// The HTTP status and body of the error response.
    pub fn status_and_message(&self) -> (r: (u16, String))
        ensures
            r.0 == pd_error_response(*self).0,
            r.1@ == pd_error_response(*self).1,
    {
        match self {
            PdProxyError::BodyCollect(m) => (400, m.clone()),
            PdProxyError::JsonParse(m) => (400, m.clone()),
            PdProxyError::NoWorkers(m) => (503, m.clone()),
            PdProxyError::PrefillRequest(url, m) => {
                let a = concat("Prefill request to ", url.as_str());
                let b = concat(a.as_str(), " failed: ");
                (502, concat(b.as_str(), m.as_str()))
            },
            PdProxyError::PrefillError(s, m) => (*s, m.clone()),
            PdProxyError::PrefillResponse(m) => (502, concat("Failed to read prefill response: ", m.as_str())),
            PdProxyError::PrefillParse(m) => (502, concat("Failed to parse prefill response JSON: ", m.as_str())),
            PdProxyError::DecodeRequest(url, m) => {
                let a = concat("Decode request to ", url.as_str());
                let b = concat(a.as_str(), " failed: ");
                (502, concat(b.as_str(), m.as_str()))
            },
            PdProxyError::DecodeResponse(m) => (502, concat("Failed to read decode response: ", m.as_str())),
            PdProxyError::DecodeParse(m) => (502, concat("Failed to parse decode response JSON: ", m.as_str())),
            PdProxyError::JsonSerialize(m) => (500, m.clone()),
            PdProxyError::WorkerRequest { timeout, message } => (if *timeout { 504 } else { 502 }, message.clone()),
            PdProxyError::UrlParse(m) => (400, m.clone()),
            PdProxyError::ResponseBuild(m) => (500, m.clone()),
        }
    }
}

/// A request body is accepted up to `MAX_BODY_SIZE` bytes.
pub fn check_body_len(len: usize) -> (r: Result<(), PdProxyError>)
    ensures
        match r {
            Ok(()) => len <= MAX_BODY_SIZE,
            Err(e) => len > MAX_BODY_SIZE && (e matches PdProxyError::BodyCollect(m) && m@
                == "request body too large"@),
        },
{
    if len > MAX_BODY_SIZE {
        Err(PdProxyError::BodyCollect("request body too large".to_owned()))
    } else {
        Ok(())
    }
}

/// Only inference endpoints enter the PD pipeline: any other path is
/// served by the regular proxy in every PD mode, without a PD mode every
/// path is, and an inference endpoint takes the pipeline of the mode.
pub proof fn law_pd_route_inference_only(m: Option<PdMode>, p: Seq<char>)
    ensures
        !inference_path(p) ==> route_of(m, p) == PdRoute::Regular,
        route_of(None, p) == PdRoute::Regular,
        inference_path(p) ==> route_of(Some(PdMode::Vllm), p) == PdRoute::Vllm,
        inference_path(p) ==> route_of(Some(PdMode::Sglang), p) == PdRoute::Sglang,
{
}

} // verus!
