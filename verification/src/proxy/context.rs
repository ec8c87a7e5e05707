//! Request context extraction from the JSON body and the HTTP headers.

use vstd::prelude::*;
use crate::json::{Json, JsonV, jv, jv_get, jv_as_str, jv_as_array, items_view, lemma_items, get, as_str, as_array};
use crate::policies::RequestContext;
use crate::proxy::header::{Header, headers_view};
use crate::text::str_eq;
use vstd::string::StrSliceExecFns;

verus! {

/// Index of the first header named `name`.
pub open spec fn header_index(hs: Seq<(Seq<char>, Seq<u8>)>, name: Seq<char>) -> Option<int>
    decreases hs.len(),
{
    if hs.len() == 0 {
        None
    } else {
        match header_index(hs.drop_last(), name) {
            Some(i) => Some(i),
            None => if hs.last().0 == name {
                Some(hs.len() - 1)
            } else {
                None
            },
        }
    }
}

pub proof fn lemma_header_index(hs: Seq<(Seq<char>, Seq<u8>)>, name: Seq<char>)
    ensures
        header_index(hs, name) matches Some(i) ==> 0 <= i < hs.len() && hs[i].0 == name && forall|j: int|
            0 <= j < i ==> (#[trigger] hs[j]).0 != name,
        header_index(hs, name) is None ==> forall|j: int| 0 <= j < hs.len() ==> (#[trigger] hs[j]).0 != name,
    decreases hs.len(),
{
    if hs.len() > 0 {
        lemma_header_index(hs.drop_last(), name);
        assert forall|j: int| 0 <= j < hs.len() - 1 implies #[trigger] hs[j] == hs.drop_last()[j] by {}
    }
}

/// The value of the first header named `name`.
pub open spec fn header_value(hs: Seq<(Seq<char>, Seq<u8>)>, name: Seq<char>) -> Option<Seq<u8>> {
    match header_index(hs, name) {
        Some(i) => Some(hs[i].1),
        None => None,
    }
}

/// Visible ASCII (and tab): the values that have a text form.
pub open spec fn visible_ascii(b: Seq<u8>) -> bool {
    forall|i: int| 0 <= i < b.len() ==> (32 <= #[trigger] b[i] < 127 || b[i] == 9)
}

/// The characters of an ASCII byte string.
pub open spec fn ascii_text(b: Seq<u8>) -> Seq<char> {
    Seq::new(b.len(), |i: int| b[i] as char)
}

/// The text of a header value that can serve as a routing key: non-empty
/// visible ASCII.
pub open spec fn usable_key(v: Option<Seq<u8>>) -> Option<Seq<char>> {
    match v {
        Some(b) => if visible_ascii(b) && b.len() > 0 {
            Some(ascii_text(b))
        } else {
            None
        },
        None => None,
    }
}

/// The routing key that stable headers give: the first usable value of
/// `authorization`, `x-forwarded-for` and `cookie`, in that order.
pub open spec fn implicit_key(hs: Seq<(Seq<char>, Seq<u8>)>) -> Option<Seq<char>> {
    match usable_key(header_value(hs, "authorization"@)) {
        Some(k) => Some(k),
        None => match usable_key(header_value(hs, "x-forwarded-for"@)) {
            Some(k) => Some(k),
            None => usable_key(header_value(hs, "cookie"@)),
        },
    }
}

/// Whether a message has the `system` role.
pub open spec fn is_system(m: JsonV) -> bool {
    match jv_get(m, "role"@) {
        Some(r) => jv_as_str(r) == Some("system"@),
        None => false,
    }
}

/// Index of the first `system` message.
pub open spec fn first_system(msgs: Seq<JsonV>) -> Option<int>
    decreases msgs.len(),
{
    if msgs.len() == 0 {
        None
    } else {
        match first_system(msgs.drop_last()) {
            Some(i) => Some(i),
            None => if is_system(msgs.last()) {
                Some(msgs.len() - 1)
            } else {
                None
            },
        }
    }
}

pub proof fn lemma_first_system(msgs: Seq<JsonV>)
    ensures
        first_system(msgs) matches Some(i) ==> 0 <= i < msgs.len() && is_system(msgs[i]) && forall|j: int|
            0 <= j < i ==> !is_system(#[trigger] msgs[j]),
        first_system(msgs) is None ==> forall|j: int| 0 <= j < msgs.len() ==> !is_system(#[trigger] msgs[j]),
    decreases msgs.len(),
{
    if msgs.len() > 0 {
        lemma_first_system(msgs.drop_last());
        assert forall|j: int| 0 <= j < msgs.len() - 1 implies #[trigger] msgs[j] == msgs.drop_last()[j] by {}
    }
}

/// The message whose content keys prefix affinity: the first `system`
/// message, else the first message.
pub open spec fn keyed_message(msgs: Seq<JsonV>) -> Option<JsonV> {
    match first_system(msgs) {
        Some(i) => Some(msgs[i]),
        None => if msgs.len() > 0 {
            Some(msgs[0])
        } else {
            None
        },
    }
}

/// The first 200 characters of `s`.
pub open spec fn first_200(s: Seq<char>) -> Seq<char> {
    if s.len() <= 200 {
        s
    } else {
        s.take(200)
    }
}

/// The session key: the header key, else the body's `user` (or, where
/// that is absent, `session_id`) string, else `default`.
pub open spec fn session_key(implicit: Option<Seq<char>>, body: Option<JsonV>) -> Seq<char> {
    match implicit {
        Some(k) => k,
        None => match body {
            Some(v) => {
                let field = match jv_get(v, "user"@) {
                    Some(x) => Some(x),
                    None => jv_get(v, "session_id"@),
                };
                match field {
                    Some(x) => match jv_as_str(x) {
                        Some(s) => s,
                        None => "default"@,
                    },
                    None => "default"@,
                }
            },
            None => "default"@,
        },
    }
}

/// The prefix key: the first 200 characters of the keyed message's
/// `content` string, else `default`.
pub open spec fn prefix_key(body: Option<JsonV>) -> Seq<char> {
    match body {
        Some(v) => match jv_get(v, "messages"@) {
            Some(m) => match jv_as_array(m) {
                Some(msgs) => match keyed_message(msgs) {
                    Some(msg) => match jv_get(msg, "content"@) {
                        Some(c) => match jv_as_str(c) {
                            Some(s) => first_200(s),
                            None => "default"@,
                        },
                        None => "default"@,
                    },
                    None => "default"@,
                },
                None => "default"@,
            },
            None => "default"@,
        },
        None => "default"@,
    }
}

/// Calls `String::from_utf8_lossy` on visible ASCII bytes, which are
/// valid one-byte UTF-8 characters; the contract claims the string holds
/// exactly those characters.
#[verifier::external_body]
pub(crate) fn ascii_string(bytes: &Vec<u8>) -> (s: String)
    requires
        visible_ascii(bytes@),
    ensures
        s@ == ascii_text(bytes@),
{
    String::from_utf8_lossy(bytes.as_slice()).into_owned()
}

/// The value of the first header named `name`.
pub(crate) fn find_header<'a>(headers: &'a Vec<Header>, name: &str) -> (r: Option<&'a Vec<u8>>)
    ensures
        match r {
            Some(v) => header_value(headers_view(headers@), name@) == Some(v@),
            None => header_value(headers_view(headers@), name@) is None,
        },
{
    let ghost hv = headers_view(headers@);
    proof {
        lemma_header_index(hv, name@);
    }
    let mut i: usize = 0;
    while i < headers.len()
        invariant
            i <= headers@.len(),
            hv == headers_view(headers@),
            forall|k: int| 0 <= k < i ==> (#[trigger] hv[k]).0 != name@,
            header_index(hv, name@) matches Some(x) ==> 0 <= x < hv.len() && hv[x].0 == name@
                && forall|j: int| 0 <= j < x ==> (#[trigger] hv[j]).0 != name@,
            header_index(hv, name@) is None ==> forall|j: int| 0 <= j < hv.len() ==> (#[trigger] hv[j]).0 != name@,
        decreases headers@.len() - i,
    {
        if str_eq(headers[i].0.as_str(), name) {
            proof {
                assert(hv[i as int].0 == name@);
            }
            return Some(&headers[i].1);
        }
        i = i + 1;
    }
    None
}

/// Whether every byte is visible ASCII.
pub(crate) fn is_visible_ascii(b: &Vec<u8>) -> (r: bool)
    ensures
        r == visible_ascii(b@),
{
    let mut i: usize = 0;
    while i < b.len()
        invariant
            i <= b@.len(),
            forall|k: int| 0 <= k < i ==> (32 <= #[trigger] b@[k] < 127 || b@[k] == 9),
        decreases b@.len() - i,
    {
        let c = b[i];
        if !((32 <= c && c < 127) || c == 9) {
            return false;
        }
        i = i + 1;
    }
    true
}

/// The routing key that one header gives, if its value is usable.
fn header_key(headers: &Vec<Header>, name: &str) -> (r: Option<String>)
    ensures
        match r {
            Some(k) => usable_key(header_value(headers_view(headers@), name@)) == Some(k@),
            None => usable_key(header_value(headers_view(headers@), name@)) is None,
        },
{
    match find_header(headers, name) {
        Some(b) => if is_visible_ascii(b) && b.len() > 0 {
            Some(ascii_string(b))
        } else {
            None
        },
        None => None,
    }
}

/// The routing key from stable headers, if any: the first usable value of
/// `authorization`, `x-forwarded-for` and `cookie`.
pub fn header_routing_key(headers: &Vec<Header>) -> (r: Option<String>)
    ensures
        match r {
            Some(k) => implicit_key(headers_view(headers@)) == Some(k@),
            None => implicit_key(headers_view(headers@)) is None,
        },
{
    match header_key(headers, "authorization") {
        Some(k) => Some(k),
        None => match header_key(headers, "x-forwarded-for") {
            Some(k) => Some(k),
            None => header_key(headers, "cookie"),
        },
    }
}

/// The session key of a request.
fn session_of(implicit: &Option<String>, body: Option<&Json>) -> (r: String)
    ensures
        r@ == session_key(
            match *implicit {
                Some(k) => Some(k@),
                None => None,
            },
            match body {
                Some(b) => Some(jv(*b)),
                None => None,
            },
        ),
{
    match implicit {
        Some(k) => k.clone(),
        None => match body {
            Some(v) => {
                let field = match get(v, "user") {
                    Some(x) => Some(x),
                    None => get(v, "session_id"),
                };
                match field {
                    Some(x) => match as_str(x) {
                        Some(s) => s.clone(),
                        None => "default".to_owned(),
                    },
                    None => "default".to_owned(),
                }
            },
            None => "default".to_owned(),
        },
    }
}

/// Whether a message has the `system` role.
fn is_system_exec(m: &Json) -> (r: bool)
    ensures
        r == is_system(jv(*m)),
{
    match get(m, "role") {
        Some(r) => match as_str(r) {
            Some(s) => str_eq(s.as_str(), "system"),
            None => false,
        },
        None => false,
    }
}

/// The message whose content keys prefix affinity.
fn keyed_message_exec(msgs: &Vec<Json>) -> (r: Option<&Json>)
    ensures
        match r {
            Some(m) => keyed_message(items_view(msgs@)) == Some(jv(*m)),
            None => keyed_message(items_view(msgs@)) is None,
        },
{
    let ghost mv = items_view(msgs@);
    proof {
        lemma_items(msgs@, msgs@.len());
        lemma_first_system(mv);
    }
    let mut i: usize = 0;
    while i < msgs.len()
        invariant
            i <= msgs@.len(),
            mv == items_view(msgs@),
            mv.len() == msgs@.len(),
            forall|k: int| 0 <= k < msgs@.len() ==> #[trigger] mv[k] == jv(msgs@[k]),
            forall|k: int| 0 <= k < i ==> !is_system(#[trigger] mv[k]),
            first_system(mv) matches Some(x) ==> 0 <= x < mv.len() && is_system(mv[x]) && forall|j: int|
                0 <= j < x ==> !is_system(#[trigger] mv[j]),
            first_system(mv) is None ==> forall|j: int| 0 <= j < mv.len() ==> !is_system(#[trigger] mv[j]),
        decreases msgs@.len() - i,
    {
        if is_system_exec(&msgs[i]) {
            proof {
                assert(is_system(mv[i as int]));
            }
            return Some(&msgs[i]);
        }
        i = i + 1;
    }
    if msgs.len() > 0 {
        Some(&msgs[0])
    } else {
        None
    }
}

/// The prefix key of a request.
fn prefix_of(body: Option<&Json>) -> (r: String)
    ensures
        r@ == prefix_key(
            match body {
                Some(b) => Some(jv(*b)),
                None => None,
            },
        ),
{
    let content = match body {
        Some(v) => match get(v, "messages") {
            Some(m) => match as_array(m) {
                Some(msgs) => match keyed_message_exec(msgs) {
                    Some(msg) => match get(msg, "content") {
                        Some(c) => as_str(c),
                        None => None,
                    },
                    None => None,
                },
                None => None,
            },
            None => None,
        },
        None => None,
    };
    match content {
        Some(s) => {
            let n = s.as_str().unicode_len();
            let m = if n <= 200 { n } else { 200 };
            proof {
                assert(s@.subrange(0, n as int) =~= s@);
            }
            s.as_str().substring_char(0, m).to_owned()
        },
        None => "default".to_owned(),
    }
}

/// Extract the routing context of a request from its parsed JSON body
/// (`None` where the body is not JSON) and its headers.
///
/// The session key is, in this order: the first non-empty text value of
/// the `authorization`, `x-forwarded-for` and `cookie` headers, the body's
/// `user` field (or its
/// `session_id` where `user` is absent), or `default`. The prefix key is
/// the first 200 characters of the content of the first `system` message
/// (else the first message), or `default`.
pub fn extract_context(body: Option<&Json>, headers: &Vec<Header>) -> (r: RequestContext)
    ensures
        r.session_id@ == session_key(
            implicit_key(headers_view(headers@)),
            match body {
                Some(b) => Some(jv(*b)),
                None => None,
            },
        ),
        r.prefix_key@ == prefix_key(
            match body {
                Some(b) => Some(jv(*b)),
                None => None,
            },
        ),
{
    let implicit = header_routing_key(headers);
    let session_id = session_of(&implicit, body);
    let prefix_key = prefix_of(body);
    RequestContext { session_id, prefix_key }
}

/// The prefix key never holds more than 200 characters.
pub proof fn law_prefix_key_bounded(body: Option<JsonV>)
    ensures
        prefix_key(body).len() <= 200,
{
    reveal_strlit("default");
}

/// A routing key in the headers decides the session, whatever the body
/// holds.
pub proof fn law_header_key_wins(hs: Seq<(Seq<char>, Seq<u8>)>, a: Option<JsonV>, b: Option<JsonV>)
    requires
        implicit_key(hs) is Some,
    ensures
        session_key(implicit_key(hs), a) == session_key(implicit_key(hs), b),
        session_key(implicit_key(hs), a) == implicit_key(hs)->Some_0,
{
}

/// When the first `authorization` header holds non-empty visible ASCII,
/// that value is the routing key and the session, whatever the
/// `x-forwarded-for` and `cookie` headers and the body hold.
pub proof fn law_authorization_first(hs: Seq<(Seq<char>, Seq<u8>)>, i: int, body: Option<JsonV>)
    requires
        0 <= i < hs.len(),
        hs[i].0 == "authorization"@,
        forall|j: int| 0 <= j < i ==> (#[trigger] hs[j]).0 != "authorization"@,
        hs[i].1.len() > 0,
        visible_ascii(hs[i].1),
    ensures
        implicit_key(hs) == Some(ascii_text(hs[i].1)),
        session_key(implicit_key(hs), body) == ascii_text(hs[i].1),
{
    lemma_header_index(hs, "authorization"@);
    match header_index(hs, "authorization"@) {
        Some(k) => {
            if k < i {
                assert(hs[k].0 != "authorization"@);
            }
            if i < k {
                assert(hs[i].0 != "authorization"@);
            }
            assert(k == i);
        },
        None => {
            assert(hs[i].0 != "authorization"@);
        },
    }
}

} // verus!
