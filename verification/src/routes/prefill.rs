//! Prefill request construction for vLLM and SGLang PD separation.

use vstd::prelude::*;
use crate::json::{
    keys_distinct, lemma_get_set_same, lemma_get_set_other, lemma_set_keeps_distinct, lemma_get_remove_same,
    lemma_get_remove_other,
    Json, JsonV, jv, jv_get, jv_set, jv_remove, jv_as_u64, jv_uint, settable, clone_json, get, insert,
    remove, as_u64,
};
use crate::text::{contains_spec, str_contains, decimal, u16_to_string};
use crate::net::{UrlParts, outcome_view, parse_url, trim_start_all, trim_start_matches, url_parse_outcome};

verus! {

/// Whether a member holds an unsigned integer above one.
pub open spec fn above_one(v: Option<JsonV>) -> bool {
    match v {
        Some(x) => match jv_as_u64(x) {
            Some(u) => u > 1,
            None => false,
        },
        None => false,
    }
}

/// `v[key] = 1` when `v[key]` is an unsigned integer above one.
pub open spec fn clamp_min_tokens(v: JsonV) -> JsonV {
    if above_one(jv_get(v, "min_tokens"@)) {
        jv_set(v, "min_tokens"@, jv_uint(1))
    } else {
        v
    }
}

/// Sampling parameters that allow exactly one token.
pub open spec fn one_token_sampling() -> JsonV {
    JsonV::Object(seq![("max_tokens"@, jv_uint(1)), ("min_tokens"@, jv_uint(1))])
}

/// The token limits of a request once it may produce a single token.
pub open spec fn limit_tokens(req: JsonV, path: Seq<char>) -> JsonV {
    if contains_spec(path, "inference/v1/generate"@) {
        match jv_get(req, "sampling_params"@) {
            Some(sp) => jv_set(
                req,
                "sampling_params"@,
                clamp_min_tokens(jv_set(sp, "max_tokens"@, jv_uint(1))),
            ),
            None => jv_set(req, "sampling_params"@, one_token_sampling()),
        }
    } else if contains_spec(path, "/v1/responses"@) {
        jv_set(req, "max_output_tokens"@, jv_uint(1))
    } else {
        let r1 = jv_set(req, "max_tokens"@, jv_uint(1));
        let r2 = if jv_get(r1, "max_completion_tokens"@) is Some {
            jv_set(r1, "max_completion_tokens"@, jv_uint(1))
        } else {
            r1
        };
        clamp_min_tokens(r2)
    }
}

/// The prefill-stage variant of a request: one token, no streaming.
pub open spec fn prefill_request(req: JsonV, path: Seq<char>) -> JsonV {
    jv_remove(jv_set(limit_tokens(req, path), "stream"@, JsonV::Bool(false)), "stream_options"@)
}

/// What `prepare_prefill_request` needs to write its members: the
/// request, and on the generate API its `sampling_params`, must be
/// objects (or `null`).
pub open spec fn prefill_writable(req: JsonV, path: Seq<char>) -> bool {
    &&& settable(req)
    &&& contains_spec(path, "inference/v1/generate"@) ==> match jv_get(req, "sampling_params"@) {
        Some(sp) => settable(sp),
        None => true,
    }
}

/// `v[key] = 1` when `v[key]` is an unsigned integer above one.
fn clamp_min(v: Json) -> (r: Json)
    requires
        settable(jv(v)),
    ensures
        jv(r) == clamp_min_tokens(jv(v)),
{
    let above = match get(&v, "min_tokens") {
        Some(m) => match as_u64(m) {
            Some(u) => u > 1,
            None => false,
        },
        None => false,
    };
    if above {
        insert(v, "min_tokens", crate::json::uint(1))
    } else {
        v
    }
}

/// Modify `request` so that the worker only runs the prefill phase.
///
/// The API is told apart by `path`: the generate API gets its
/// `sampling_params` limited to one token, the responses API its
/// `max_output_tokens`, and the OpenAI chat/completions APIs their
/// `max_tokens` (and `max_completion_tokens`, where given); a `min_tokens`
/// above one is lowered to one. Streaming is always turned off and
/// `stream_options` removed.
pub fn prepare_prefill_request(request: Json, path: &str) -> (r: Json)
    requires
        prefill_writable(jv(request), path@),
    ensures
        jv(r) == prefill_request(jv(request), path@),
{
    let limited = if str_contains(path, "inference/v1/generate") {
        let sp = match get(&request, "sampling_params") {
            Some(s) => Some(clone_json(s)),
            None => None,
        };
        match sp {
            Some(s) => {
                let s1 = insert(s, "max_tokens", crate::json::uint(1));
                let s2 = clamp_min(s1);
                insert(request, "sampling_params", s2)
            },
            None => {
                let first = insert(Json::Null, "max_tokens", crate::json::uint(1));
                let fresh = insert(first, "min_tokens", crate::json::uint(1));
                proof {
                    reveal_strlit("max_tokens");
                    reveal_strlit("min_tokens");
                    let f1 = seq![("max_tokens"@, jv_uint(1))];
                    assert(f1.drop_last().len() == 0);
                    assert("max_tokens"@[1] != "min_tokens"@[1]);
                    assert(f1.last().0 != "min_tokens"@);
                    assert(crate::json::fields_index(f1.drop_last(), "min_tokens"@) is None);
                    assert(crate::json::fields_index(f1, "min_tokens"@) is None);
                    assert(jv(first) == JsonV::Object(f1));
                    assert(f1.push(("min_tokens"@, jv_uint(1))) =~= seq![("max_tokens"@, jv_uint(1)), ("min_tokens"@, jv_uint(1))]);
                    assert(jv(fresh) == one_token_sampling());
                }
                insert(request, "sampling_params", fresh)
            },
        }
    } else if str_contains(path, "/v1/responses") {
        insert(request, "max_output_tokens", crate::json::uint(1))
    } else {
        let r1 = insert(request, "max_tokens", crate::json::uint(1));
        let r2 = if get(&r1, "max_completion_tokens").is_some() {
            insert(r1, "max_completion_tokens", crate::json::uint(1))
        } else {
            r1
        };
        clamp_min(r2)
    };
    let streamless = insert(limited, "stream", Json::Bool(false));
    remove(streamless, "stream_options")
}

/// The KV-transfer parameters that tell a prefill worker to keep its KV
/// cache for a remote decode.
pub open spec fn prefill_kv_params() -> JsonV {
    JsonV::Object(
        seq![
            ("do_remote_decode"@, JsonV::Bool(true)),
            ("do_remote_prefill"@, JsonV::Bool(false)),
            ("remote_engine_id"@, JsonV::Null),
            ("remote_block_ids"@, JsonV::Null),
            ("remote_host"@, JsonV::Null),
            ("remote_port"@, JsonV::Null),
        ],
    )
}

/// Build the Nixl KV transfer params for the prefill request.
pub fn build_prefill_kv_transfer_params() -> (r: Json)
    ensures
        jv(r) == prefill_kv_params(),
{
    let mut f: Vec<(String, Json)> = Vec::new();
    f.push(("do_remote_decode".to_owned(), Json::Bool(true)));
    f.push(("do_remote_prefill".to_owned(), Json::Bool(false)));
    f.push(("remote_engine_id".to_owned(), Json::Null));
    f.push(("remote_block_ids".to_owned(), Json::Null));
    f.push(("remote_host".to_owned(), Json::Null));
    f.push(("remote_port".to_owned(), Json::Null));
    proof {
        crate::json::lemma_fields(f@, f@.len());
        assert(crate::json::fields_view(f@) =~= prefill_kv_params()->Object_0);
    }
    Json::Object(f)
}

/// The `kv_transfer_params` that a prefill response carries, for the
/// decode request (`None` where the member is absent).
pub fn build_decode_kv_transfer_params(prefill_response: &Json) -> (r: Option<Json>)
    ensures
        match r {
            Some(p) => jv_get(jv(*prefill_response), "kv_transfer_params"@) == Some(jv(p)),
            None => jv_get(jv(*prefill_response), "kv_transfer_params"@) is None,
        },
{
    match get(prefill_response, "kv_transfer_params") {
        Some(p) => Some(clone_json(p)),
        None => None,
    }
}

/// Default bootstrap port for SGLang disaggregation.
pub const DEFAULT_BOOTSTRAP_PORT: u16 = 8998;

/// `host:port`, with `127.0.0.1` for a missing host and `8000` for a
/// missing port.
pub open spec fn authority(host: Option<Seq<char>>, port: Option<u16>) -> Seq<char> {
    let h = match host {
        Some(h) => h,
        None => "127.0.0.1"@,
    };
    let p: nat = match port {
        Some(p) => p as nat,
        None => 8000,
    };
    h + ":"@ + decimal(p)
}

/// The bootstrap host for a worker URL, given what the URL parser made of
/// it: `host:port` of a parsed URL, else the text without its
/// `http://` / `https://` prefixes.
pub open spec fn bootstrap_host(outcome: Result<(Seq<char>, Option<Seq<char>>, Option<u16>), Seq<char>>, url: Seq<char>) -> Seq<char> {
    match outcome {
        Ok(p) => authority(p.1, p.2),
        Err(_) => trim_start_all(trim_start_all(url, "http://"@), "https://"@),
    }
}

/// The bootstrap host for `worker_url` from the parser's outcome on it.
pub fn bootstrap_host_from(parsed: &Result<UrlParts, String>, worker_url: &str) -> (r: String)
    ensures
        r@ == bootstrap_host(outcome_view(*parsed), worker_url@),
{
    match parsed {
        Ok(p) => {
            let host = match &p.1 {
                Some(h) => h.clone(),
                None => "127.0.0.1".to_owned(),
            };
            let port = match p.2 {
                Some(port) => port,
                None => 8000u16,
            };
            let with_colon = crate::text::concat(host.as_str(), ":");
            let digits = u16_to_string(port);
            crate::text::concat(with_colon.as_str(), digits.as_str())
        },
        Err(_) => {
            let a = trim_start_matches(worker_url, "http://");
            trim_start_matches(a.as_str(), "https://")
        },
    }
}

/// Extract `host:port` from a worker URL for SGLang bootstrap; the URL
/// without its scheme prefix where it does not parse.
pub fn extract_bootstrap_host(worker_url: &str) -> (r: String)
    ensures
        r@ == bootstrap_host(url_parse_outcome(worker_url@), worker_url@),
{
    let parsed = parse_url(worker_url);
    bootstrap_host_from(&parsed, worker_url)
}

/// The bootstrap room of a random draw: its absolute value, with
/// `i64::MIN` (which has none in `i64`) giving 0, so a room is never
/// negative.
pub open spec fn room_of(draw: i64) -> i64 {
    if draw >= 0 {
        draw
    } else if draw == i64::MIN {
        0
    } else {
        (-draw) as i64
    }
}

/// The bootstrap parameters for a given random draw.
pub fn bootstrap_params_with(prefill_url: &str, port: u16, draw: i64) -> (r: (String, u16, i64))
    ensures
        r.0@ == bootstrap_host(url_parse_outcome(prefill_url@), prefill_url@),
        r.1 == port,
        r.2 == room_of(draw),
        r.2 >= 0,
{
    let host = extract_bootstrap_host(prefill_url);
    let room = if draw >= 0 {
        draw
    } else if draw == i64::MIN {
        0
    } else {
        -draw
    };
    (host, port, room)
}

/// Build SGLang bootstrap params `(bootstrap_host, bootstrap_port,
/// bootstrap_room)`; the room is the absolute value of a random `i64` (0
/// for `i64::MIN`), pairing the prefill and decode sessions.
pub fn build_sglang_bootstrap_params(prefill_url: &str, port: u16) -> (r: (String, u16, i64))
    ensures
        r.0@ == bootstrap_host(url_parse_outcome(prefill_url@), prefill_url@),
        r.1 == port,
        exists|draw: i64| r.2 == room_of(draw),
        r.2 >= 0,
{
    let draw = crate::policies::rng::random_i64();
    bootstrap_params_with(prefill_url, port, draw)
}

/// `limit_tokens` gives an object whose member names stay distinct.
proof fn lemma_limit_tokens_object(req: JsonV, path: Seq<char>)
    requires
        prefill_writable(req, path),
        keys_distinct(req),
    ensures
        limit_tokens(req, path) is Object,
        keys_distinct(limit_tokens(req, path)),
{
    let one = jv_uint(1);
    if contains_spec(path, "inference/v1/generate"@) {
        match jv_get(req, "sampling_params"@) {
            Some(sp) => {
                lemma_set_keeps_distinct(req, "sampling_params"@, clamp_min_tokens(jv_set(sp, "max_tokens"@, one)));
            },
            None => {
                lemma_set_keeps_distinct(req, "sampling_params"@, one_token_sampling());
            },
        }
    } else if contains_spec(path, "/v1/responses"@) {
        lemma_set_keeps_distinct(req, "max_output_tokens"@, one);
    } else {
        let r1 = jv_set(req, "max_tokens"@, one);
        lemma_set_keeps_distinct(req, "max_tokens"@, one);
        let r2 = if jv_get(r1, "max_completion_tokens"@) is Some {
            jv_set(r1, "max_completion_tokens"@, one)
        } else {
            r1
        };
        lemma_set_keeps_distinct(r1, "max_completion_tokens"@, one);
        lemma_set_keeps_distinct(r2, "min_tokens"@, one);
    }
}

/// The prefill request never streams: its `stream` is `false` and it has
/// no `stream_options`, whatever the client asked for.
pub proof fn law_prefill_never_streams(req: JsonV, path: Seq<char>)
    requires
        prefill_writable(req, path),
        keys_distinct(req),
    ensures
        jv_get(prefill_request(req, path), "stream"@) == Some(JsonV::Bool(false)),
        jv_get(prefill_request(req, path), "stream_options"@) is None,
{
    reveal_strlit("stream");
    reveal_strlit("stream_options");
    let l = limit_tokens(req, path);
    lemma_limit_tokens_object(req, path);
    let st = jv_set(l, "stream"@, JsonV::Bool(false));
    lemma_get_set_same(l, "stream"@, JsonV::Bool(false));
    lemma_set_keeps_distinct(l, "stream"@, JsonV::Bool(false));
    assert("stream"@.len() != "stream_options"@.len());
    lemma_get_remove_other(st, "stream_options"@, "stream"@);
    lemma_get_remove_same(st, "stream_options"@);
}

/// On the chat/completions APIs the prefill request asks for exactly one
/// token.
pub proof fn law_prefill_single_token(req: JsonV, path: Seq<char>)
    requires
        prefill_writable(req, path),
        !contains_spec(path, "inference/v1/generate"@),
        !contains_spec(path, "/v1/responses"@),
    ensures
        jv_get(prefill_request(req, path), "max_tokens"@) == Some(jv_uint(1)),
{
    reveal_strlit("max_tokens");
    reveal_strlit("max_completion_tokens");
    reveal_strlit("min_tokens");
    reveal_strlit("stream");
    reveal_strlit("stream_options");
    let one = jv_uint(1);
    let r1 = jv_set(req, "max_tokens"@, one);
    lemma_get_set_same(req, "max_tokens"@, one);
    assert("max_tokens"@.len() != "max_completion_tokens"@.len());
    assert("max_tokens"@[1] != "min_tokens"@[1]);
    assert("max_tokens"@.len() != "stream"@.len());
    assert("max_tokens"@.len() != "stream_options"@.len());
    let r2 = if jv_get(r1, "max_completion_tokens"@) is Some {
        jv_set(r1, "max_completion_tokens"@, one)
    } else {
        r1
    };
    lemma_get_set_other(r1, "max_completion_tokens"@, one, "max_tokens"@);
    let r3 = clamp_min_tokens(r2);
    lemma_get_set_other(r2, "min_tokens"@, one, "max_tokens"@);
    let st = jv_set(r3, "stream"@, JsonV::Bool(false));
    lemma_get_set_other(r3, "stream"@, JsonV::Bool(false), "max_tokens"@);
    lemma_get_remove_other(st, "stream_options"@, "max_tokens"@);
}

} // verus!
