//! Merging of prompt logprobs from the prefill response into the decode
//! response, so that the client receives logprobs that cover both the
//! prompt and the generated tokens.

use vstd::prelude::*;
use crate::json::{
    lemma_get_set_same, lemma_get_set_other,
    Json, JsonV, jv, jv_get, jv_set, jv_as_array, jv_as_i64, jv_as_str, jv_int, arr_of, items_view,
    lemma_items, clone_json, clone_items, get, get_array, insert, is_object, as_i64, as_str, signed,
};

verus! {

/// The first `min(n, len)` items of `a`: the part that covers the prompt.
pub open spec fn prompt_part(a: Seq<JsonV>, n: nat) -> Seq<JsonV> {
    if n <= a.len() {
        a.take(n as int)
    } else {
        a
    }
}

/// Step 1, the generate API: `meta_info.input_token_logprobs` of the
/// prefill followed by that of the decode (`None` where either is not an
/// array).
pub open spec fn merge_generate(p: JsonV, d: JsonV) -> Option<JsonV> {
    match (jv_get(p, "meta_info"@), jv_get(d, "meta_info"@)) {
        (Some(pm), Some(dm)) => match (arr_of(pm, "input_token_logprobs"@), arr_of(dm, "input_token_logprobs"@)) {
            (Some(pa), Some(da)) => Some(
                jv_set(d, "meta_info"@, jv_set(dm, "input_token_logprobs"@, JsonV::Array(pa + da))),
            ),
            _ => None,
        },
        _ => None,
    }
}

/// Step 2, the chat completions API: the prefill's top-level
/// `prompt_logprobs` copied into a decode object.
pub open spec fn merge_chat(p: JsonV, d: JsonV) -> Option<JsonV> {
    match jv_get(p, "prompt_logprobs"@) {
        Some(ppl) => if d is Object {
            Some(jv_set(d, "prompt_logprobs"@, ppl))
        } else {
            None
        },
        None => None,
    }
}

/// `d[key]` becomes the prompt part of `p[key]` followed by `d[key]`,
/// where both are arrays.
pub open spec fn splice(p: JsonV, d: JsonV, key: Seq<char>, n: nat) -> Option<JsonV> {
    match (arr_of(p, key), arr_of(d, key)) {
        (Some(pa), Some(da)) => Some(jv_set(d, key, JsonV::Array(prompt_part(pa, n) + da))),
        _ => None,
    }
}

/// Each integer offset of `s` moved by `base` (wrapping as release
/// builds do); items that are not integers are dropped.
pub open spec fn shifted(s: Seq<JsonV>, base: i64) -> Seq<JsonV>
    decreases s.len(),
{
    if s.len() == 0 {
        Seq::empty()
    } else {
        let rest = shifted(s.drop_last(), base);
        match jv_as_i64(s.last()) {
            Some(o) => rest.push(jv_int(o.wrapping_add(base))),
            None => rest,
        }
    }
}

/// The byte length of the last prompt token, as `i64` (0 where there is
/// no such token or it is not a string).
pub open spec fn last_token_len(tokens: Option<Seq<JsonV>>, n: nat) -> i64 {
    match tokens {
        Some(t) => {
            let m: int = if n <= t.len() { n as int } else { t.len() as int };
            let idx: int = if m >= 1 { m - 1 } else { 0 };
            if idx < t.len() {
                match jv_as_str(t[idx]) {
                    Some(s) => (vstd::utf8::encode_utf8(s).len() as usize) as i64,
                    None => 0,
                }
            } else {
                0
            }
        },
        None => 0,
    }
}

/// The merged `text_offset` array: the prompt offsets of the prefill,
/// then the decode offsets moved past the end of the last prompt token.
pub open spec fn merged_offsets(po: Seq<JsonV>, dof: Seq<JsonV>, tokens: Option<Seq<JsonV>>, n: nat) -> Seq<JsonV> {
    let pre = prompt_part(po, n);
    if pre.len() == 0 {
        dof
    } else {
        let last_offset: i64 = match jv_as_i64(pre.last()) {
            Some(x) => x,
            None => 0,
        };
        pre + shifted(dof, last_offset.wrapping_add(last_token_len(tokens, n)))
    }
}

/// Step 3.2 on the `logprobs` objects of one choice: token logprobs,
/// tokens, text offsets and top logprobs, each where both sides hold an
/// array. The flag tells whether any of them was merged.
pub open spec fn merge_lp(plp: JsonV, dlp: JsonV, n: nat) -> (JsonV, bool) {
    let a = splice(plp, dlp, "token_logprobs"@, n);
    let da = match a { Some(x) => x, None => dlp };
    let b = splice(plp, da, "tokens"@, n);
    let db = match b { Some(x) => x, None => da };
    let c = match (arr_of(plp, "text_offset"@), arr_of(db, "text_offset"@)) {
        (Some(po), Some(dof)) => Some(
            jv_set(db, "text_offset"@, JsonV::Array(merged_offsets(po, dof, arr_of(plp, "tokens"@), n))),
        ),
        _ => None,
    };
    let dc = match c { Some(x) => x, None => db };
    let d = splice(plp, dc, "top_logprobs"@, n);
    let dd = match d { Some(x) => x, None => dc };
    (dd, a is Some || b is Some || c is Some || d is Some)
}

/// How many prompt logprobs the prefill choice carries.
pub open spec fn num_prompt(pc: JsonV) -> nat {
    match arr_of(pc, "prompt_logprobs"@) {
        Some(a) => a.len(),
        None => 0,
    }
}

/// Step 3 on one choice: copy the prefill's `prompt_logprobs`, then merge
/// the `logprobs` objects.
pub open spec fn merge_choice(pc: JsonV, dc: JsonV) -> (JsonV, bool) {
    if pc is Object && dc is Object {
        let ppl = jv_get(pc, "prompt_logprobs"@);
        let dc1 = match ppl {
            Some(x) => jv_set(dc, "prompt_logprobs"@, x),
            None => dc,
        };
        match (jv_get(pc, "logprobs"@), jv_get(dc1, "logprobs"@)) {
            (Some(plp), Some(dlp)) => if plp is Object && dlp is Object {
                let m = merge_lp(plp, dlp, num_prompt(pc));
                (jv_set(dc1, "logprobs"@, m.0), ppl is Some || m.1)
            } else {
                (dc1, ppl is Some)
            },
            _ => (dc1, ppl is Some),
        }
    } else {
        (dc, false)
    }
}

/// The decode choices after merging, pairwise with the prefill choices.
pub open spec fn merged_choices(pcs: Seq<JsonV>, dcs: Seq<JsonV>) -> Seq<JsonV> {
    Seq::new(dcs.len(), |k: int| if k < pcs.len() { merge_choice(pcs[k], dcs[k]).0 } else { dcs[k] })
}

/// Whether any pair of choices merged something.
pub open spec fn any_choice_merged(pcs: Seq<JsonV>, dcs: Seq<JsonV>) -> bool {
    exists|k: int| 0 <= k < dcs.len() && k < pcs.len() && #[trigger] merge_choice(pcs[k], dcs[k]).1
}

/// Step 3, the completions API, over all choices.
pub open spec fn merge_completions(p: JsonV, d: JsonV) -> (JsonV, bool) {
    match (arr_of(d, "choices"@), arr_of(p, "choices"@)) {
        (Some(dcs), Some(pcs)) => (
            jv_set(d, "choices"@, JsonV::Array(merged_choices(pcs, dcs))),
            any_choice_merged(pcs, dcs),
        ),
        _ => (d, false),
    }
}

/// The decode response after merging, and whether anything was merged.
pub open spec fn merge_logprobs(p: JsonV, d: JsonV) -> (JsonV, bool) {
    let g = merge_generate(p, d);
    let d1 = match g { Some(x) => x, None => d };
    let c = merge_chat(p, d1);
    let d2 = match c { Some(x) => x, None => d1 };
    let m = merge_completions(p, d2);
    (m.0, g is Some || c is Some || m.1)
}

/// A JSON array: the first `min(n, len)` items of `a`, then `b`.
fn prefix_then(a: &Vec<Json>, n: usize, b: &Vec<Json>) -> (r: Json)
    ensures
        jv(r) == JsonV::Array(prompt_part(items_view(a@), n as nat) + items_view(b@)),
{
    let m = if n <= a.len() { n } else { a.len() };
    let mut out: Vec<Json> = Vec::new();
    let mut i: usize = 0;
    while i < m
        invariant
            m <= a@.len(),
            i <= m,
            out@.len() == i,
            forall|k: int| 0 <= k < i ==> jv(#[trigger] out@[k]) == jv(a@[k]),
        decreases m - i,
    {
        out.push(clone_json(&a[i]));
        i = i + 1;
    }
    let mut j: usize = 0;
    while j < b.len()
        invariant
            m <= a@.len(),
            out@.len() == m + j,
            j <= b@.len(),
            forall|k: int| 0 <= k < m ==> jv(#[trigger] out@[k]) == jv(a@[k]),
            forall|k: int| 0 <= k < j ==> jv(#[trigger] out@[m + k]) == jv(b@[k]),
        decreases b@.len() - j,
    {
        out.push(clone_json(&b[j]));
        j = j + 1;
    }
    proof {
        lemma_items(out@, out@.len());
        lemma_items(a@, a@.len());
        lemma_items(b@, b@.len());
        let want = prompt_part(items_view(a@), n as nat) + items_view(b@);
        assert forall|k: int| 0 <= k < out@.len() implies #[trigger] items_view(out@)[k] == want[k] by {
            if k >= m {
                assert(jv(out@[m + (k - m)]) == jv(b@[k - m]));
            }
        }
        assert(items_view(out@) =~= want);
    }
    Json::Array(out)
}

/// `d[key]` becomes the prompt part of `p[key]` followed by `d[key]`,
/// where both are arrays; `None` otherwise.
fn splice_exec(p: &Json, d: Json, key: &str, n: usize) -> (r: Result<Json, Json>)
    ensures
        match r {
            Ok(x) => splice(jv(*p), jv(d), key@, n as nat) == Some(jv(x)),
            Err(x) => splice(jv(*p), jv(d), key@, n as nat) is None && x == d,
        },
{
    let merged = match (get_array(p, key), get_array(&d, key)) {
        (Some(pa), Some(da)) => Some(prefix_then(pa, n, da)),
        _ => None,
    };
    match merged {
        Some(m) => Ok(insert(d, key, m)),
        None => Err(d),
    }
}

/// Each integer offset moved by `base`; other items dropped.
fn shift_offsets(s: &Vec<Json>, base: i64) -> (r: Vec<Json>)
    ensures
        items_view(r@) == shifted(items_view(s@), base),
{
    let ghost sv = items_view(s@);
    proof {
        lemma_items(s@, s@.len());
    }
    let mut out: Vec<Json> = Vec::new();
    let mut i: usize = 0;
    proof {
        lemma_items(out@, out@.len());
        assert(sv.take(0).len() == 0);
        assert(items_view(out@) =~= shifted(sv.take(0), base));
    }
    while i < s.len()
        invariant
            i <= s@.len(),
            sv == items_view(s@),
            sv.len() == s@.len(),
            forall|k: int| 0 <= k < s@.len() ==> #[trigger] sv[k] == jv(s@[k]),
            items_view(out@) == shifted(sv.take(i as int), base),
        decreases s@.len() - i,
    {
        let ghost before = out@;
        proof {
            assert(sv.take(i + 1).drop_last() =~= sv.take(i as int));
            assert(sv.take(i + 1).last() == jv(s@[i as int]));
        }
        match as_i64(&s[i]) {
            Some(o) => {
                let ghost prev = items_view(out@);
                out.push(signed(o.wrapping_add(base)));
                proof {
                    lemma_items(before, before.len());
                    lemma_items(out@, out@.len());
                    assert(items_view(out@) =~= prev.push(jv_int(o.wrapping_add(base))));
                }
            },
            None => {},
        }
        i = i + 1;
    }
    proof {
        assert(sv.take(s@.len() as int) =~= sv);
    }
    out
}

/// The byte length of the last prompt token, as `i64`.
fn last_token_len_exec(tokens: Option<&Vec<Json>>, n: usize) -> (r: i64)
    ensures
        r == last_token_len(
            match tokens {
                Some(t) => Some(items_view(t@)),
                None => None,
            },
            n as nat,
        ),
{
    match tokens {
        Some(t) => {
            proof {
                lemma_items(t@, t@.len());
            }
            let m = if n <= t.len() { n } else { t.len() };
            let idx = if m >= 1 { m - 1 } else { 0 };
            if idx < t.len() {
                match as_str(&t[idx]) {
                    Some(s) => s.as_str().len() as i64,
                    None => 0,
                }
            } else {
                0
            }
        },
        None => 0,
    }
}

/// The merged `text_offset` array.
fn offsets_exec(po: &Vec<Json>, dof: &Vec<Json>, tokens: Option<&Vec<Json>>, n: usize) -> (r: Json)
    ensures
        jv(r) == JsonV::Array(
            merged_offsets(
                items_view(po@),
                items_view(dof@),
                match tokens {
                    Some(t) => Some(items_view(t@)),
                    None => None,
                },
                n as nat,
            ),
        ),
{
    proof {
        lemma_items(po@, po@.len());
    }
    let m = if n <= po.len() { n } else { po.len() };
    if m == 0 {
        return Json::Array(clone_items(dof));
    }
    let last_offset = match as_i64(&po[m - 1]) {
        Some(x) => x,
        None => 0,
    };
    let base = last_offset.wrapping_add(last_token_len_exec(tokens, n));
    let shifted_part = shift_offsets(dof, base);
    let pre = prefix_then(po, n, &shifted_part);
    proof {
        let pv = items_view(po@);
        assert(prompt_part(pv, n as nat).last() == pv[m - 1]);
    }
    pre
}

/// Step 3.2 on the `logprobs` objects of one choice.
fn merge_lp_exec(plp: &Json, dlp: Json, n: usize) -> (r: (Json, bool))
    ensures
        jv(r.0) == merge_lp(jv(*plp), jv(dlp), n as nat).0,
        r.1 == merge_lp(jv(*plp), jv(dlp), n as nat).1,
{
    let (da, ma) = match splice_exec(plp, dlp, "token_logprobs", n) {
        Ok(x) => (x, true),
        Err(x) => (x, false),
    };
    let (db, mb) = match splice_exec(plp, da, "tokens", n) {
        Ok(x) => (x, true),
        Err(x) => (x, false),
    };
    let offsets = match (get_array(plp, "text_offset"), get_array(&db, "text_offset")) {
        (Some(po), Some(dof)) => Some(offsets_exec(po, dof, get_array(plp, "tokens"), n)),
        _ => None,
    };
    let (dc, mc) = match offsets {
        Some(o) => (insert(db, "text_offset", o), true),
        None => (db, false),
    };
    let (dd, md) = match splice_exec(plp, dc, "top_logprobs", n) {
        Ok(x) => (x, true),
        Err(x) => (x, false),
    };
    (dd, ma || mb || mc || md)
}

/// Step 3 on one choice.
fn merge_choice_exec(pc: &Json, dc: Json) -> (r: (Json, bool))
    ensures
        jv(r.0) == merge_choice(jv(*pc), jv(dc)).0,
        r.1 == merge_choice(jv(*pc), jv(dc)).1,
{
    if !(is_object(pc) && is_object(&dc)) {
        return (dc, false);
    }
    let (dc1, copied) = match get(pc, "prompt_logprobs") {
        Some(ppl) => (insert(dc, "prompt_logprobs", clone_json(ppl)), true),
        None => (dc, false),
    };
    let dlp = match get(&dc1, "logprobs") {
        Some(x) => Some(clone_json(x)),
        None => None,
    };
    match (get(pc, "logprobs"), dlp) {
        (Some(plp), Some(dlp)) => {
            if is_object(plp) && is_object(&dlp) {
                let n = match get_array(pc, "prompt_logprobs") {
                    Some(a) => {
                        proof {
                            lemma_items(a@, a@.len());
                        }
                        a.len()
                    },
                    None => 0,
                };
                let (merged, m) = merge_lp_exec(plp, dlp, n);
                (insert(dc1, "logprobs", merged), copied || m)
            } else {
                (dc1, copied)
            }
        },
        _ => (dc1, copied),
    }
}

/// Step 3 over all choices.
fn merge_completions_exec(p: &Json, d: Json) -> (r: (Json, bool))
    ensures
        jv(r.0) == merge_completions(jv(*p), jv(d)).0,
        r.1 == merge_completions(jv(*p), jv(d)).1,
{
    let new_choices = match (get_array(&d, "choices"), get_array(p, "choices")) {
        (Some(dcs), Some(pcs)) => {
            let ghost dv = items_view(dcs@);
            let ghost pv = items_view(pcs@);
            proof {
                lemma_items(dcs@, dcs@.len());
                lemma_items(pcs@, pcs@.len());
            }
            let mut out: Vec<Json> = Vec::new();
            let mut any = false;
            let mut k: usize = 0;
            while k < dcs.len()
                invariant
                    k <= dcs@.len(),
                    dv == items_view(dcs@),
                    pv == items_view(pcs@),
                    dv.len() == dcs@.len(),
                    pv.len() == pcs@.len(),
                    forall|i: int| 0 <= i < dcs@.len() ==> #[trigger] dv[i] == jv(dcs@[i]),
                    forall|i: int| 0 <= i < pcs@.len() ==> #[trigger] pv[i] == jv(pcs@[i]),
                    out@.len() == k,
                    forall|i: int| 0 <= i < k ==> jv(#[trigger] out@[i]) == merged_choices(pv, dv)[i],
                    any == exists|i: int| 0 <= i < k && i < pv.len() && #[trigger] merge_choice(pv[i], dv[i]).1,
                decreases dcs@.len() - k,
            {
                let dc = clone_json(&dcs[k]);
                if k < pcs.len() {
                    let (c, m) = merge_choice_exec(&pcs[k], dc);
                    out.push(c);
                    proof {
                        if m {
                            assert(merge_choice(pv[k as int], dv[k as int]).1);
                        }
                    }
                    any = any || m;
                } else {
                    out.push(dc);
                }
                k = k + 1;
            }
            proof {
                lemma_items(out@, out@.len());
                assert(items_view(out@) =~= merged_choices(pv, dv));
            }
            Some((Json::Array(out), any))
        },
        _ => None,
    };
    match new_choices {
        Some((c, any)) => (insert(d, "choices", c), any),
        None => (d, false),
    }
}

/// Merge prompt logprobs from the prefill response into the decode
/// response.
///
/// Handles three API shapes: the generate API (`meta_info.input_token_logprobs`
/// are concatenated), chat completions (top-level `prompt_logprobs` is
/// copied), and completions (per choice, `prompt_logprobs` is copied and
/// the prompt part of `token_logprobs`, `tokens`, `text_offset` and
/// `top_logprobs` is put in front, decode offsets moved past the prompt).
/// Returns whether anything was merged.
pub fn merge_logprobs_in_json(prefill_json: &Json, decode_json: &mut Json) -> (r: bool)
    ensures
        jv(*final(decode_json)) == merge_logprobs(jv(*prefill_json), jv(*old(decode_json))).0,
        r == merge_logprobs(jv(*prefill_json), jv(*old(decode_json))).1,
{
    let mut d = Json::Null;
    std::mem::swap(&mut d, decode_json);
    // 1. Generate API.
    let generated = match (get(prefill_json, "meta_info"), get(&d, "meta_info")) {
        (Some(pm), Some(dm)) => match (get_array(pm, "input_token_logprobs"), get_array(dm, "input_token_logprobs")) {
            (Some(pa), Some(da)) => {
                let joined = prefix_then(pa, pa.len(), da);
                proof {
                    assert(prompt_part(items_view(pa@), pa@.len() as nat) =~= items_view(pa@)) by {
                        lemma_items(pa@, pa@.len());
                    }
                }
                Some(insert(clone_json(dm), "input_token_logprobs", joined))
            },
            _ => None,
        },
        _ => None,
    };
    let (d1, m1) = match generated {
        Some(meta) => (insert(d, "meta_info", meta), true),
        None => (d, false),
    };
    // 2. Chat completions API.
    let (d2, m2) = match get(prefill_json, "prompt_logprobs") {
        Some(ppl) => if is_object(&d1) {
            (insert(d1, "prompt_logprobs", clone_json(ppl)), true)
        } else {
            (d1, false)
        },
        None => (d1, false),
    };
    // 3. Completions API.
    let (d3, m3) = merge_completions_exec(prefill_json, d2);
    *decode_json = d3;
    m1 || m2 || m3
}

/// Chat completions: the prefill's top-level `prompt_logprobs` reaches a
/// decode object unchanged, and the merge reports it.
pub proof fn law_prompt_logprobs_copied(p: JsonV, d: JsonV)
    requires
        jv_get(p, "prompt_logprobs"@) is Some,
        d is Object,
    ensures
        jv_get(merge_logprobs(p, d).0, "prompt_logprobs"@) == jv_get(p, "prompt_logprobs"@),
        merge_logprobs(p, d).1,
{
    reveal_strlit("prompt_logprobs");
    reveal_strlit("choices");
    let g = merge_generate(p, d);
    let d1 = match g { Some(x) => x, None => d };
    let ppl = jv_get(p, "prompt_logprobs"@)->Some_0;
    let d2 = jv_set(d1, "prompt_logprobs"@, ppl);
    lemma_get_set_same(d1, "prompt_logprobs"@, ppl);
    assert("prompt_logprobs"@.len() != "choices"@.len());
    match (arr_of(d2, "choices"@), arr_of(p, "choices"@)) {
        (Some(dcs), Some(pcs)) => {
            lemma_get_set_other(d2, "choices"@, JsonV::Array(merged_choices(pcs, dcs)), "prompt_logprobs"@);
        },
        _ => {},
    }
}

/// Setting another member of an object keeps `key` and objecthood.
proof fn lemma_set_keeps(v: JsonV, other: Seq<char>, x: JsonV, key: Seq<char>)
    requires
        v is Object,
        other != key,
    ensures
        jv_set(v, other, x) is Object,
        jv_get(jv_set(v, other, x), key) == jv_get(v, key),
{
    lemma_get_set_other(v, other, x, key);
}

/// Completions, one choice: where both sides hold `top_logprobs` arrays,
/// the merged `top_logprobs` is the first `min(n, len)` prefill entries (the
/// prompt's) followed by every decode entry, in order; its length is that
/// many plus the decode's, so it lines up with the merged tokens.
pub proof fn law_top_logprobs_prompt_then_decode(plp: JsonV, dlp: JsonV, n: nat)
    requires
        arr_of(plp, "top_logprobs"@) is Some,
        arr_of(dlp, "top_logprobs"@) is Some,
    ensures
        ({
            let pa = arr_of(plp, "top_logprobs"@)->Some_0;
            let da = arr_of(dlp, "top_logprobs"@)->Some_0;
            let k: int = if n <= pa.len() { n as int } else { pa.len() as int };
            let m = arr_of(merge_lp(plp, dlp, n).0, "top_logprobs"@);
            &&& m is Some
            &&& m->Some_0.len() == k + da.len()
            &&& forall|i: int| 0 <= i < k ==> #[trigger] m->Some_0[i] == pa[i]
            &&& forall|i: int| 0 <= i < da.len() ==> #[trigger] m->Some_0[k + i] == da[i]
        }),
{
    reveal_strlit("top_logprobs");
    reveal_strlit("token_logprobs");
    reveal_strlit("tokens");
    reveal_strlit("text_offset");
    let top = "top_logprobs"@;
    assert(top != "token_logprobs"@ && top != "tokens"@ && top != "text_offset"@) by {
        assert(top.len() != "token_logprobs"@.len());
        assert(top.len() != "tokens"@.len());
        assert(top.len() != "text_offset"@.len());
    }
    let pa = arr_of(plp, top)->Some_0;
    let da = arr_of(dlp, top)->Some_0;
    assert(dlp is Object);
    let a = splice(plp, dlp, "token_logprobs"@, n);
    let d1 = match a { Some(x) => x, None => dlp };
    match (arr_of(plp, "token_logprobs"@), arr_of(dlp, "token_logprobs"@)) {
        (Some(x), Some(y)) => {
            lemma_set_keeps(dlp, "token_logprobs"@, JsonV::Array(prompt_part(x, n) + y), top);
        },
        _ => {},
    }
    assert(d1 is Object && jv_get(d1, top) == jv_get(dlp, top));
    let b = splice(plp, d1, "tokens"@, n);
    let d2 = match b { Some(x) => x, None => d1 };
    match (arr_of(plp, "tokens"@), arr_of(d1, "tokens"@)) {
        (Some(x), Some(y)) => {
            lemma_set_keeps(d1, "tokens"@, JsonV::Array(prompt_part(x, n) + y), top);
        },
        _ => {},
    }
    assert(d2 is Object && jv_get(d2, top) == jv_get(dlp, top));
    let d3 = match (arr_of(plp, "text_offset"@), arr_of(d2, "text_offset"@)) {
        (Some(po), Some(dof)) => jv_set(d2, "text_offset"@, JsonV::Array(merged_offsets(po, dof, arr_of(plp, "tokens"@), n))),
        _ => d2,
    };
    match (arr_of(plp, "text_offset"@), arr_of(d2, "text_offset"@)) {
        (Some(po), Some(dof)) => {
            lemma_set_keeps(d2, "text_offset"@, JsonV::Array(merged_offsets(po, dof, arr_of(plp, "tokens"@), n)), top);
        },
        _ => {},
    }
    assert(d3 is Object && jv_get(d3, top) == jv_get(dlp, top));
    let merged = JsonV::Array(prompt_part(pa, n) + da);
    lemma_get_set_same(d3, top, merged);
    assert(merge_lp(plp, dlp, n).0 == jv_set(d3, top, merged));
}

} // verus!
