//! The steps of the request pipelines, between the network calls that the
//! HTTP layer makes: each step takes the outcome of the last call and the
//! state, updates the policies, and says what to send next or how the
//! request fails.

use vstd::prelude::*;
use crate::json::{Json, JsonV, jv, jv_get, clone_json};
use crate::net::{build_target_url, target_text, url_parse_outcome};
use crate::policies::{LoadBalancer, RequestContext};
use crate::proxy::context::{extract_context, implicit_key, prefix_key, session_key};
use crate::proxy::error::ProxyError;
use crate::proxy::header::{Header, drop_named, headers_view, without_name};
use crate::routes::pd::{
    MAX_BODY_SIZE, PdProxyError, StreamingInfo, vllm_prefill_body, vllm_prefill_spec, vllm_decode_body,
    vllm_decode_spec, with_bootstrap, sglang_body,
};
use crate::routes::prefill::{
    prefill_writable, build_decode_kv_transfer_params, build_sglang_bootstrap_params, bootstrap_host,
    room_of, DEFAULT_BOOTSTRAP_PORT,
};
use crate::server::{
    lemma_balanced_trans, lemma_completed_kept, lemma_finished_kept, lemma_same_policy_refl, lemma_finished_from_same, lemma_same_policy_balanced,
    lemma_same_policy_trans, lemma_setup_capacity, lemma_started_from_same, lemma_started_kept, law_start_then_end_balanced,
    picked_from, policy_balanced, request_answered, request_completed, request_finished, request_recorded,
    request_started, AppState, PolicySlot,
};
use crate::worker::Worker;

verus! {

/// A request to send to a worker: the worker's index and URL, the target
/// URL, and the JSON body.
pub struct Dispatch {
    pub worker: usize,
    pub url: String,
    pub target: String,
    pub body: Json,
}

/// `d` goes to a worker picked from `pool`, at the parsed target of
/// `path` on that worker, with body `body`.
pub open spec fn dispatched(d: Dispatch, pool: Seq<Worker>, cap: nat, path: Seq<char>, body: JsonV) -> bool {
    &&& picked_from(pool, cap, Some((d.worker, d.url)))
    &&& url_parse_outcome(target_text(d.url@, path)) matches Ok(p)
    &&& d.target@ == url_parse_outcome(target_text(d.url@, path))->Ok_0.0
    &&& jv(d.body) == body
}

/// How a dispatch to a pool fails: `NoWorkers(stage)` when no worker can
/// be picked, `UrlParse` when the picked worker's target does not parse.
pub open spec fn dispatch_failed(
    e: PdProxyError,
    has_policy: bool,
    pool: Seq<Worker>,
    cap: nat,
    path: Seq<char>,
    stage: Seq<char>,
) -> bool {
    match e {
        PdProxyError::NoWorkers(m) => m@ == stage && (!has_policy || picked_from(pool, cap, None)),
        PdProxyError::UrlParse(m) => has_policy && exists|w: usize, u: String|
            #![trigger picked_from(pool, cap, Some((w, u)))]
            picked_from(pool, cap, Some((w, u))) && url_parse_outcome(target_text(u@, path)) == Err::<
                (Seq<char>, Option<Seq<char>>, Option<u16>),
                Seq<char>,
            >(m@),
        _ => false,
    }
}

/// Aim `body` at `path` on a picked worker.
fn dispatch_to(picked: Option<(usize, String)>, path: &str, body: Json, stage: &str) -> (r: Result<Dispatch, PdProxyError>)
    ensures
        match picked {
            None => r == Err::<Dispatch, PdProxyError>(PdProxyError::NoWorkers(r->Err_0->NoWorkers_0))
                && r->Err_0->NoWorkers_0@ == stage@,
            Some((w, u)) => match r {
                Ok(d) => d.worker == w && d.url == u && (url_parse_outcome(target_text(u@, path@)) matches Ok(
                    p,
                )) && d.target@ == url_parse_outcome(target_text(u@, path@))->Ok_0.0 && jv(d.body) == jv(body),
                Err(e) => e matches PdProxyError::UrlParse(m) && url_parse_outcome(target_text(u@, path@))
                    == Err::<(Seq<char>, Option<Seq<char>>, Option<u16>), Seq<char>>(m@),
            },
        },
{
    match picked {
        None => Err(PdProxyError::NoWorkers(stage.to_owned())),
        Some((w, u)) => match build_target_url(u.as_str(), path) {
            Ok(t) => Ok(Dispatch { worker: w, url: u, target: t, body }),
            Err(m) => Err(PdProxyError::UrlParse(m)),
        },
    }
}

/// vLLM, stage 1: pick a prefill worker and build the prefill request.
pub fn vllm_start<B: LoadBalancer>(state: &mut AppState<B>, request: &Json, path: &str, ctx: &RequestContext) -> (r: Result<Dispatch, PdProxyError>)
    requires
        prefill_writable(jv(*request), path@),
    ensures
        final(state).same_pools(old(state)),
        match r {
            Ok(d) => old(state).has_prefill_policy() && dispatched(
                d,
                old(state).prefill_pool(),
                old(state).prefill_capacity(),
                path@,
                vllm_prefill_spec(jv(*request), path@),
            ),
            Err(e) => dispatch_failed(
                e,
                old(state).has_prefill_policy(),
                old(state).prefill_pool(),
                old(state).prefill_capacity(),
                path@,
                "prefill"@,
            ),
        },
        match r {
            Ok(d) => request_started(*old(state), *final(state), PolicySlot::Prefill, d.worker),
            Err(_) => policy_balanced(*old(state), *final(state), PolicySlot::Prefill),
        },
        final(state).same_policy(old(state), PolicySlot::Decode),
        final(state).same_policy(old(state), PolicySlot::Regular),
{
    let ghost s0 = *state;
    let picked = state.next_prefill_worker(ctx);
    let ghost s1 = *state;
    let picked_worker: Option<usize> = match &picked {
        Some(p) => Some(p.0),
        None => None,
    };
    let body = vllm_prefill_body(request, path);
    let r = dispatch_to(picked, path, body, "prefill");
    match picked_worker {
        Some(w) => {
            if r.is_err() {
                state.finish_prefill_request(w);
                proof {
                    lemma_setup_capacity(s0, s1, PolicySlot::Prefill);
                    law_start_then_end_balanced(s0, s1, *state, PolicySlot::Prefill, w);
                    lemma_same_policy_trans(s0, s1, *state, PolicySlot::Decode);
                    lemma_same_policy_trans(s0, s1, *state, PolicySlot::Regular);
                }
            }
        },
        None => {
            proof {
                lemma_same_policy_balanced(s0, s1, PolicySlot::Prefill);
            }
        },
    }
    r
}

/// Whether an HTTP status is a success (2xx).
pub open spec fn success_status(s: u16) -> bool {
    200 <= s < 300
}

/// vLLM, after sending the prefill request: a failed send ends the prefill
/// request at its worker and fails the request; a non-success status ends
/// the prefill request and asks for the error body (`Some(status)`);
/// success asks for the response body (`None`), leaving the request open.
pub fn vllm_prefill_status<B: LoadBalancer>(state: &mut AppState<B>, worker: usize, url: &str, sent: Result<u16, String>) -> (r: Result<
    Option<u16>,
    PdProxyError,
>)
    ensures
        final(state).same_pools(old(state)),
        match sent {
            Err(m) => r == Err::<Option<u16>, PdProxyError>(PdProxyError::PrefillRequest(
                r->Err_0->PrefillRequest_0,
                m,
            )) && r->Err_0->PrefillRequest_0@ == url@,
            Ok(s) => r == Ok::<Option<u16>, PdProxyError>(if success_status(s) { None } else { Some(s) }),
        },
        match sent {
            Ok(s) => if success_status(s) {
                final(state).same_policy(old(state), PolicySlot::Prefill)
            } else {
                request_finished(*old(state), *final(state), PolicySlot::Prefill, worker)
            },
            Err(_) => request_finished(*old(state), *final(state), PolicySlot::Prefill, worker),
        },
        final(state).same_policy(old(state), PolicySlot::Decode),
        final(state).same_policy(old(state), PolicySlot::Regular),
{
    match sent {
        Err(m) => {
            state.finish_prefill_request(worker);
            Err(PdProxyError::PrefillRequest(url.to_owned(), m))
        },
        Ok(s) => if 200 <= s && s < 300 {
            proof {
                lemma_same_policy_refl(*state);
            }
            Ok(None)
        } else {
            state.finish_prefill_request(worker);
            Ok(Some(s))
        },
    }
}

/// vLLM, when the prefill answer could not be read or parsed: the prefill
/// request ends at its worker and the request fails with `e`.
pub fn vllm_prefill_unusable<B: LoadBalancer>(state: &mut AppState<B>, worker: usize, e: PdProxyError) -> (r:
    PdProxyError)
    ensures
        r == e,
        final(state).same_pools(old(state)),
        request_finished(*old(state), *final(state), PolicySlot::Prefill, worker),
        final(state).same_policy(old(state), PolicySlot::Decode),
        final(state).same_policy(old(state), PolicySlot::Regular),
{
    state.finish_prefill_request(worker);
    e
}

/// vLLM, stage 2: the prefill response came back as `prefill_json`; end
/// and record the prefill request, pick a decode worker, and build the
/// decode request with the prefill's KV transfer parameters. A decode
/// target that does not parse ends the request at the picked worker.
pub fn vllm_decode_stage<B: LoadBalancer>(
    state: &mut AppState<B>,
    request: &Json,
    path: &str,
    ctx: &RequestContext,
    prefill_worker: usize,
    prefill_json: &Json,
) -> (r: Result<Dispatch, PdProxyError>)
    ensures
        final(state).same_pools(old(state)),
        match r {
            Ok(d) => old(state).has_decode_policy() && dispatched(
                d,
                old(state).decode_pool(),
                old(state).decode_capacity(),
                path@,
                vllm_decode_spec(jv(*request), jv_get(jv(*prefill_json), "kv_transfer_params"@)),
            ),
            Err(e) => dispatch_failed(
                e,
                old(state).has_decode_policy(),
                old(state).decode_pool(),
                old(state).decode_capacity(),
                path@,
                "decode"@,
            ),
        },
        request_completed(*old(state), *final(state), PolicySlot::Prefill, *ctx, prefill_worker),
        match r {
            Ok(d) => request_started(*old(state), *final(state), PolicySlot::Decode, d.worker),
            Err(_) => policy_balanced(*old(state), *final(state), PolicySlot::Decode),
        },
        final(state).same_policy(old(state), PolicySlot::Regular),
{
    let ghost s0 = *state;
    state.finish_prefill_request(prefill_worker);
    let ghost s1 = *state;
    state.record_prefill_request(ctx, prefill_worker);
    let ghost s2 = *state;
    assert(request_finished(s0, s1, PolicySlot::Prefill, prefill_worker) && request_recorded(
        s1,
        s2,
        PolicySlot::Prefill,
        *ctx,
        prefill_worker,
    ));
    proof {
        lemma_same_policy_trans(s0, s1, s2, PolicySlot::Decode);
        lemma_same_policy_trans(s0, s1, s2, PolicySlot::Regular);
    }
    let kv = build_decode_kv_transfer_params(prefill_json);
    let picked = state.next_decode_worker(ctx);
    let ghost s3 = *state;
    proof {
        lemma_completed_kept(s0, s2, s3, PolicySlot::Prefill, *ctx, prefill_worker);
        lemma_same_policy_trans(s0, s2, s3, PolicySlot::Regular);
    }
    let picked_worker: Option<usize> = match &picked {
        Some(p) => Some(p.0),
        None => None,
    };
    let body = vllm_decode_body(clone_json(request), kv);
    let r = dispatch_to(picked, path, body, "decode");
    match picked_worker {
        Some(w) => {
            if r.is_err() {
                state.finish_decode_request(w);
                proof {
                    let s4 = *state;
                    lemma_setup_capacity(s2, s3, PolicySlot::Decode);
                    law_start_then_end_balanced(s2, s3, s4, PolicySlot::Decode, w);
                    lemma_same_policy_balanced(s0, s2, PolicySlot::Decode);
                    lemma_balanced_trans(s0, s2, s4, PolicySlot::Decode);
                    lemma_completed_kept(s0, s3, s4, PolicySlot::Prefill, *ctx, prefill_worker);
                    lemma_same_policy_trans(s0, s3, s4, PolicySlot::Regular);
                }
            } else {
                proof {
                    lemma_started_from_same(s0, s2, s3, PolicySlot::Decode, w);
                }
            }
        },
        None => {
            proof {
                lemma_same_policy_trans(s0, s2, s3, PolicySlot::Decode);
                lemma_same_policy_balanced(s0, s3, PolicySlot::Decode);
            }
        },
    }
    r
}

/// vLLM, after sending the decode request: a failed send ends the decode
/// request and fails the request; otherwise the decode request is ended
/// and recorded.
pub fn vllm_decode_sent<B: LoadBalancer>(
    state: &mut AppState<B>,
    worker: usize,
    url: &str,
    ctx: &RequestContext,
    sent: Result<(), String>,
) -> (r: Result<(), PdProxyError>)
    ensures
        final(state).same_pools(old(state)),
        match sent {
            Err(m) => r == Err::<(), PdProxyError>(PdProxyError::DecodeRequest(r->Err_0->DecodeRequest_0, m))
                && r->Err_0->DecodeRequest_0@ == url@,
            Ok(()) => r is Ok,
        },
        match sent {
            Ok(()) => request_completed(*old(state), *final(state), PolicySlot::Decode, *ctx, worker),
            Err(_) => request_finished(*old(state), *final(state), PolicySlot::Decode, worker),
        },
        final(state).same_policy(old(state), PolicySlot::Prefill),
        final(state).same_policy(old(state), PolicySlot::Regular),
{
    let ghost s0 = *state;
    match sent {
        Err(m) => {
            state.finish_decode_request(worker);
            Err(PdProxyError::DecodeRequest(url.to_owned(), m))
        },
        Ok(()) => {
            state.finish_decode_request(worker);
            let ghost s1 = *state;
            state.record_decode_request(ctx, worker);
            assert(request_finished(s0, s1, PolicySlot::Decode, worker) && request_recorded(
                s1,
                *state,
                PolicySlot::Decode,
                *ctx,
                worker,
            ));
            proof {
                lemma_same_policy_trans(s0, s1, *state, PolicySlot::Prefill);
                lemma_same_policy_trans(s0, s1, *state, PolicySlot::Regular);
            }
            Ok(())
        },
    }
}

/// How the decode response reaches the client.
#[derive(Debug, Clone, Copy, PartialEq, Eq)]
pub enum ReplyPlan {
    /// Stream the decode body as it arrives.
    Stream,
    /// Read the decode body, merge the prefill logprobs into it.
    Merge,
    /// Pass the decode body through.
    Raw,
}

/// Streaming requests are streamed; others that need logprobs are merged;
/// the rest pass through.
pub fn reply_plan(si: StreamingInfo) -> (r: ReplyPlan)
    ensures
        r == if si.is_streaming {
            ReplyPlan::Stream
        } else if si.needs_logprobs {
            ReplyPlan::Merge
        } else {
            ReplyPlan::Raw
        },
{
    if si.is_streaming {
        ReplyPlan::Stream
    } else if si.needs_logprobs {
        ReplyPlan::Merge
    } else {
        ReplyPlan::Raw
    }
}

/// SGLang: pick a prefill and a decode worker and build both requests,
/// each carrying the same bootstrap host (the prefill worker's), port and
/// random room.
pub fn sglang_start<B: LoadBalancer>(state: &mut AppState<B>, request: &Json, path: &str, ctx: &RequestContext) -> (r: Result<
    (Dispatch, Dispatch),
    PdProxyError,
>)
    ensures
        final(state).same_pools(old(state)),
        match r {
            Ok((p, d)) => {
                &&& old(state).has_prefill_policy()
                &&& old(state).has_decode_policy()
                &&& exists|room: i64|
                    #![trigger with_bootstrap(jv(*request), bootstrap_host(url_parse_outcome(p.url@), p.url@), DEFAULT_BOOTSTRAP_PORT, room)]
                    (exists|draw: i64| room == room_of(draw)) && dispatched(
                        p,
                        old(state).prefill_pool(),
                        old(state).prefill_capacity(),
                        path@,
                        with_bootstrap(
                            jv(*request),
                            bootstrap_host(url_parse_outcome(p.url@), p.url@),
                            DEFAULT_BOOTSTRAP_PORT,
                            room,
                        ),
                    ) && dispatched(
                        d,
                        old(state).decode_pool(),
                        old(state).decode_capacity(),
                        path@,
                        with_bootstrap(
                            jv(*request),
                            bootstrap_host(url_parse_outcome(p.url@), p.url@),
                            DEFAULT_BOOTSTRAP_PORT,
                            room,
                        ),
                    )
            },
            Err(e) => dispatch_failed(
                e,
                old(state).has_prefill_policy(),
                old(state).prefill_pool(),
                old(state).prefill_capacity(),
                path@,
                "prefill"@,
            ) || dispatch_failed(
                e,
                old(state).has_decode_policy(),
                old(state).decode_pool(),
                old(state).decode_capacity(),
                path@,
                "decode"@,
            ),
        },
        match r {
            Ok((p, d)) => request_started(*old(state), *final(state), PolicySlot::Prefill, p.worker)
                && request_started(*old(state), *final(state), PolicySlot::Decode, d.worker),
            Err(_) => policy_balanced(*old(state), *final(state), PolicySlot::Prefill) && policy_balanced(
                *old(state),
                *final(state),
                PolicySlot::Decode,
            ),
        },
        final(state).same_policy(old(state), PolicySlot::Regular),
{
    let ghost s0 = *state;
    let prefill = match state.next_prefill_worker(ctx) {
        Some(p) => p,
        None => {
            proof {
                lemma_same_policy_balanced(s0, *state, PolicySlot::Prefill);
                lemma_same_policy_balanced(s0, *state, PolicySlot::Decode);
            }
            return Err(PdProxyError::NoWorkers("prefill".to_owned()));
        },
    };
    let ghost s1 = *state;
    let pw = prefill.0;
    let decode = match state.next_decode_worker(ctx) {
        Some(d) => d,
        None => {
            let ghost s2 = *state;
            state.finish_prefill_request(pw);
            proof {
                lemma_started_kept(s0, s1, s2, PolicySlot::Prefill, pw);
                lemma_setup_capacity(s0, s2, PolicySlot::Prefill);
                law_start_then_end_balanced(s0, s2, *state, PolicySlot::Prefill, pw);
                lemma_same_policy_trans(s0, s1, s2, PolicySlot::Decode);
                lemma_same_policy_trans(s0, s2, *state, PolicySlot::Decode);
                lemma_same_policy_balanced(s0, *state, PolicySlot::Decode);
                lemma_same_policy_trans(s0, s1, s2, PolicySlot::Regular);
                lemma_same_policy_trans(s0, s2, *state, PolicySlot::Regular);
            }
            return Err(PdProxyError::NoWorkers("decode".to_owned()));
        },
    };
    let ghost s2 = *state;
    let dw = decode.0;
    proof {
        lemma_started_kept(s0, s1, s2, PolicySlot::Prefill, pw);
        lemma_started_from_same(s0, s1, s2, PolicySlot::Decode, dw);
        lemma_setup_capacity(s0, s2, PolicySlot::Prefill);
        lemma_setup_capacity(s0, s2, PolicySlot::Decode);
        lemma_same_policy_trans(s0, s1, s2, PolicySlot::Regular);
    }
    let (host, port, room) = build_sglang_bootstrap_params(prefill.1.as_str(), DEFAULT_BOOTSTRAP_PORT);
    let prefill_body = sglang_body(request, host.as_str(), port, room);
    let decode_body = sglang_body(request, host.as_str(), port, room);
    let ghost pu = prefill.1;
    let p = match dispatch_to(Some(prefill), path, prefill_body, "prefill") {
        Ok(p) => p,
        Err(e) => {
            release_both(state, pw, dw);
            proof {
                law_start_then_end_balanced(s0, s2, *state, PolicySlot::Prefill, pw);
                law_start_then_end_balanced(s0, s2, *state, PolicySlot::Decode, dw);
                lemma_same_policy_trans(s0, s2, *state, PolicySlot::Regular);
            }
            return Err(e);
        },
    };
    let d = match dispatch_to(Some(decode), path, decode_body, "decode") {
        Ok(d) => d,
        Err(e) => {
            release_both(state, pw, dw);
            proof {
                law_start_then_end_balanced(s0, s2, *state, PolicySlot::Prefill, pw);
                law_start_then_end_balanced(s0, s2, *state, PolicySlot::Decode, dw);
                lemma_same_policy_trans(s0, s2, *state, PolicySlot::Regular);
            }
            return Err(e);
        },
    };
    assert(p.url == pu);
    Ok((p, d))
}

/// End both requests of an SGLang pair that was started at `pw` and `dw`.
fn release_both<B: LoadBalancer>(state: &mut AppState<B>, pw: usize, dw: usize)
    ensures
        request_finished(*old(state), *final(state), PolicySlot::Prefill, pw),
        request_finished(*old(state), *final(state), PolicySlot::Decode, dw),
        final(state).same_policy(old(state), PolicySlot::Regular),
        final(state).same_pools(old(state)),
{
    let ghost s0 = *state;
    state.finish_prefill_request(pw);
    let ghost s1 = *state;
    state.finish_decode_request(dw);
    proof {
        lemma_same_policy_trans(s0, s1, *state, PolicySlot::Regular);
        lemma_finished_from_same(s0, s1, *state, PolicySlot::Decode, dw);
        lemma_finished_kept(s0, s1, *state, PolicySlot::Prefill, pw);
    }
}

/// SGLang, when sending the pair failed: both requests end, nothing is
/// recorded.
pub fn sglang_send_failed<B: LoadBalancer>(state: &mut AppState<B>, prefill_worker: usize, decode_worker: usize)
    ensures
        final(state).same_pools(old(state)),
        request_finished(*old(state), *final(state), PolicySlot::Prefill, prefill_worker),
        request_finished(*old(state), *final(state), PolicySlot::Decode, decode_worker),
        final(state).same_policy(old(state), PolicySlot::Regular),
{
    release_both(state, prefill_worker, decode_worker);
}

/// SGLang, after both requests were sent: end and record both.
pub fn sglang_sent<B: LoadBalancer>(state: &mut AppState<B>, prefill_worker: usize, decode_worker: usize, ctx: &RequestContext)
    ensures
        final(state).same_pools(old(state)),
        request_completed(*old(state), *final(state), PolicySlot::Prefill, *ctx, prefill_worker),
        request_completed(*old(state), *final(state), PolicySlot::Decode, *ctx, decode_worker),
        final(state).same_policy(old(state), PolicySlot::Regular),
{
    let ghost s0 = *state;
    state.finish_prefill_request(prefill_worker);
    let ghost s1 = *state;
    state.record_prefill_request(ctx, prefill_worker);
    let ghost s2 = *state;
    assert(request_finished(s0, s1, PolicySlot::Prefill, prefill_worker) && request_recorded(
        s1,
        s2,
        PolicySlot::Prefill,
        *ctx,
        prefill_worker,
    ));
    state.finish_decode_request(decode_worker);
    let ghost s3 = *state;
    state.record_decode_request(ctx, decode_worker);
    proof {
        let s4 = *state;
        lemma_same_policy_trans(s2, s3, s4, PolicySlot::Prefill);
        lemma_completed_kept(s0, s2, s4, PolicySlot::Prefill, *ctx, prefill_worker);
        lemma_same_policy_trans(s0, s1, s2, PolicySlot::Decode);
        lemma_finished_from_same(s0, s2, s3, PolicySlot::Decode, decode_worker);
        assert(request_finished(s0, s3, PolicySlot::Decode, decode_worker) && request_recorded(
            s3,
            s4,
            PolicySlot::Decode,
            *ctx,
            decode_worker,
        ));
        lemma_same_policy_trans(s0, s1, s2, PolicySlot::Regular);
        lemma_same_policy_trans(s0, s2, s3, PolicySlot::Regular);
        lemma_same_policy_trans(s0, s3, s4, PolicySlot::Regular);
    }
}

/// A request that the regular proxy forwards: the worker's index and URL,
/// the target URL, the routing context, and the headers to send.
pub struct Forward {
    pub worker: usize,
    pub url: String,
    pub target: String,
    pub ctx: RequestContext,
    pub headers: Vec<Header>,
}

/// The regular proxy: check the body size, extract the routing context,
/// pick a worker with it, and aim the request at the worker (without its
/// `host` header). A target that does not parse ends the request at the
/// picked worker.
pub fn proxy_start<B: LoadBalancer>(
    state: &mut AppState<B>,
    body_len: usize,
    body: Option<&Json>,
    headers: &Vec<Header>,
    path_and_query: &str,
) -> (r: Result<Forward, ProxyError>)
    ensures
        final(state).same_pools(old(state)),
        body_len > MAX_BODY_SIZE ==> (r matches Err(ProxyError::BodyCollect(m)) && m@ == "request body too large"@),
        body_len <= MAX_BODY_SIZE ==> match r {
            Ok(f) => {
                &&& old(state).serves_regular()
                &&& picked_from(old(state).pool(), old(state).balancer_capacity(), Some((f.worker, f.url)))
                &&& url_parse_outcome(target_text(f.url@, path_and_query@)) matches Ok(p)
                &&& f.target@ == url_parse_outcome(target_text(f.url@, path_and_query@))->Ok_0.0
                &&& f.ctx.session_id@ == session_key(
                    implicit_key(headers_view(headers@)),
                    match body {
                        Some(b) => Some(jv(*b)),
                        None => None,
                    },
                )
                &&& f.ctx.prefix_key@ == prefix_key(
                    match body {
                        Some(b) => Some(jv(*b)),
                        None => None,
                    },
                )
                &&& headers_view(f.headers@) == without_name(headers_view(headers@), "host"@)
            },
            Err(ProxyError::NoHealthyWorkers) => !old(state).serves_regular() || picked_from(
                old(state).pool(),
                old(state).balancer_capacity(),
                None,
            ),
            Err(ProxyError::UrlParse(m)) => exists|w: usize, u: String|
                #![trigger picked_from(old(state).pool(), old(state).balancer_capacity(), Some((w, u)))]
                picked_from(old(state).pool(), old(state).balancer_capacity(), Some((w, u)))
                    && url_parse_outcome(target_text(u@, path_and_query@)) == Err::<
                    (Seq<char>, Option<Seq<char>>, Option<u16>),
                    Seq<char>,
                >(m@),
            Err(_) => false,
        },
        body_len > MAX_BODY_SIZE ==> *final(state) == *old(state),
        body_len <= MAX_BODY_SIZE ==> match r {
            Ok(f) => request_started(*old(state), *final(state), PolicySlot::Regular, f.worker),
            Err(_) => policy_balanced(*old(state), *final(state), PolicySlot::Regular),
        },
        final(state).same_policy(old(state), PolicySlot::Prefill),
        final(state).same_policy(old(state), PolicySlot::Decode),
{
    if body_len > MAX_BODY_SIZE {
        proof {
            lemma_same_policy_refl(*state);
        }
        return Err(ProxyError::BodyCollect("request body too large".to_owned()));
    }
    let ghost s0 = *state;
    let ctx = extract_context(body, headers);
    let forwarded = drop_named(headers, "host");
    let (w, u) = match state.next_worker_with_context(&ctx) {
        Some(p) => p,
        None => {
            proof {
                lemma_same_policy_balanced(s0, *state, PolicySlot::Regular);
            }
            return Err(ProxyError::NoHealthyWorkers);
        },
    };
    let ghost s1 = *state;
    match build_target_url(u.as_str(), path_and_query) {
        Ok(t) => Ok(Forward { worker: w, url: u, target: t, ctx, headers: forwarded }),
        Err(m) => {
            state.finish_request(w);
            proof {
                lemma_setup_capacity(s0, s1, PolicySlot::Regular);
                law_start_then_end_balanced(s0, s1, *state, PolicySlot::Regular, w);
                lemma_same_policy_trans(s0, s1, *state, PolicySlot::Prefill);
                lemma_same_policy_trans(s0, s1, *state, PolicySlot::Decode);
            }
            Err(ProxyError::UrlParse(m))
        },
    }
}

/// The regular proxy, once the worker answered (or failed): a routing
/// decision that got an answer is recorded, and the request is ended at
/// its worker either way.
pub fn proxy_complete<B: LoadBalancer>(state: &mut AppState<B>, forward: &Forward, answered: bool)
    ensures
        final(state).same_pools(old(state)),
        answered ==> request_answered(*old(state), *final(state), PolicySlot::Regular, forward.ctx, forward.worker),
        !answered ==> request_finished(*old(state), *final(state), PolicySlot::Regular, forward.worker),
        final(state).same_policy(old(state), PolicySlot::Prefill),
        final(state).same_policy(old(state), PolicySlot::Decode),
{
    let ghost s0 = *state;
    if answered {
        state.record_request(&forward.ctx, forward.worker);
    }
    let ghost s1 = *state;
    state.finish_request(forward.worker);
    proof {
        let s2 = *state;
        if answered {
            assert(request_recorded(s0, s1, PolicySlot::Regular, forward.ctx, forward.worker) && request_finished(
                s1,
                s2,
                PolicySlot::Regular,
                forward.worker,
            ));
            lemma_same_policy_trans(s0, s1, s2, PolicySlot::Prefill);
            lemma_same_policy_trans(s0, s1, s2, PolicySlot::Decode);
        }
    }
}

} // verus!
