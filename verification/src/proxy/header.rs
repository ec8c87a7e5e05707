//! Hop-by-hop header filtering (RFC 2616 section 13.5.1): headers that an
//! intermediary must not forward.

use vstd::prelude::*;
use crate::text::str_eq;

verus! {

/// A header as plain values: its (lower-case) name and its raw value.
pub type Header = (String, Vec<u8>);

/// The plain view of a header list.
pub open spec fn headers_view(hs: Seq<Header>) -> Seq<(Seq<char>, Seq<u8>)> {
    Seq::new(hs.len(), |i: int| (hs[i].0@, hs[i].1@))
}

/// The headers that must not be forwarded from a backend response.
pub open spec fn hop_by_hop(name: Seq<char>) -> bool {
    name == "connection"@ || name == "keep-alive"@ || name == "proxy-authenticate"@
        || name == "proxy-authorization"@ || name == "te"@ || name == "trailers"@
        || name == "transfer-encoding"@ || name == "upgrade"@
}

/// Check whether a header name is a hop-by-hop header that should not be
/// forwarded.
pub fn is_hop_by_hop(name: &str) -> (r: bool)
    ensures
        r == hop_by_hop(name@),
{
    str_eq(name, "connection") || str_eq(name, "keep-alive") || str_eq(name, "proxy-authenticate")
        || str_eq(name, "proxy-authorization") || str_eq(name, "te") || str_eq(name, "trailers")
        || str_eq(name, "transfer-encoding") || str_eq(name, "upgrade")
}

/// The headers of `hs` whose name is not hop-by-hop, in order.
pub open spec fn end_to_end(hs: Seq<(Seq<char>, Seq<u8>)>) -> Seq<(Seq<char>, Seq<u8>)>
    decreases hs.len(),
{
    if hs.len() == 0 {
        Seq::empty()
    } else if hop_by_hop(hs.last().0) {
        end_to_end(hs.drop_last())
    } else {
        end_to_end(hs.drop_last()).push(hs.last())
    }
}

/// Return a filtered copy of backend response headers, excluding
/// hop-by-hop headers.
pub fn filter_hop_by_hop(headers: &Vec<Header>) -> (r: Vec<Header>)
    ensures
        headers_view(r@) == end_to_end(headers_view(headers@)),
{
    let ghost hv = headers_view(headers@);
    let mut out: Vec<Header> = Vec::new();
    let mut i: usize = 0;
    while i < headers.len()
        invariant
            i <= headers@.len(),
            hv == headers_view(headers@),
            headers_view(out@) == end_to_end(hv.take(i as int)),
        decreases headers@.len() - i,
    {
        proof {
            assert(hv.take(i + 1).drop_last() =~= hv.take(i as int));
            assert(hv.take(i + 1).last() == (headers@[i as int].0@, headers@[i as int].1@));
        }
        if !is_hop_by_hop(headers[i].0.as_str()) {
            let ghost before = headers_view(out@);
            out.push((headers[i].0.clone(), headers[i].1.clone()));
            proof {
                assert(headers_view(out@) =~= before.push((headers@[i as int].0@, headers@[i as int].1@)));
            }
        }
        i = i + 1;
    }
    proof {
        assert(hv.take(headers@.len() as int) =~= hv);
    }
    out
}

/// The headers of `hs` not named `name`, in order.
pub open spec fn without_name(hs: Seq<(Seq<char>, Seq<u8>)>, name: Seq<char>) -> Seq<(Seq<char>, Seq<u8>)>
    decreases hs.len(),
{
    if hs.len() == 0 {
        Seq::empty()
    } else if hs.last().0 == name {
        without_name(hs.drop_last(), name)
    } else {
        without_name(hs.drop_last(), name).push(hs.last())
    }
}

/// A copy of `headers` without those named `name`: the request headers
/// forwarded without `host` (the client sets it from the target URL), and
/// response headers copied onto a rebuilt body without `content-length`.
pub fn drop_named(headers: &Vec<Header>, name: &str) -> (r: Vec<Header>)
    ensures
        headers_view(r@) == without_name(headers_view(headers@), name@),
{
    let ghost hv = headers_view(headers@);
    let mut out: Vec<Header> = Vec::new();
    let mut i: usize = 0;
    while i < headers.len()
        invariant
            i <= headers@.len(),
            hv == headers_view(headers@),
            headers_view(out@) == without_name(hv.take(i as int), name@),
        decreases headers@.len() - i,
    {
        proof {
            assert(hv.take(i + 1).drop_last() =~= hv.take(i as int));
            assert(hv.take(i + 1).last() == (headers@[i as int].0@, headers@[i as int].1@));
        }
        if !str_eq(headers[i].0.as_str(), name) {
            let ghost before = headers_view(out@);
            out.push((headers[i].0.clone(), headers[i].1.clone()));
            proof {
                assert(headers_view(out@) =~= before.push((headers@[i as int].0@, headers@[i as int].1@)));
            }
        }
        i = i + 1;
    }
    proof {
        assert(hv.take(headers@.len() as int) =~= hv);
    }
    out
}

/// A list with no hop-by-hop header passes the filter unchanged.
proof fn lemma_end_to_end_fixed(hs: Seq<(Seq<char>, Seq<u8>)>)
    requires
        forall|i: int| 0 <= i < hs.len() ==> !hop_by_hop((#[trigger] hs[i]).0),
    ensures
        end_to_end(hs) == hs,
    decreases hs.len(),
{
    if hs.len() > 0 {
        lemma_end_to_end_fixed(hs.drop_last());
        assert(hs.drop_last().push(hs.last()) =~= hs);
    }
}

/// The filter's output holds no hop-by-hop header.
proof fn lemma_end_to_end_clean(hs: Seq<(Seq<char>, Seq<u8>)>)
    ensures
        forall|i: int| 0 <= i < end_to_end(hs).len() ==> !hop_by_hop((#[trigger] end_to_end(hs)[i]).0),
    decreases hs.len(),
{
    if hs.len() > 0 {
        lemma_end_to_end_clean(hs.drop_last());
        let r = end_to_end(hs.drop_last());
        if !hop_by_hop(hs.last().0) {
            assert forall|i: int| 0 <= i < end_to_end(hs).len() implies !hop_by_hop((#[trigger] end_to_end(hs)[i]).0) by {
                if i < r.len() {
                    assert(end_to_end(hs)[i] == r[i]);
                }
            }
        }
    }
}

/// Filtering hop-by-hop headers twice is filtering them once, and what is
/// left holds no hop-by-hop header.
pub proof fn law_hop_filter_idempotent(hs: Seq<(Seq<char>, Seq<u8>)>)
    ensures
        end_to_end(end_to_end(hs)) == end_to_end(hs),
        forall|i: int| 0 <= i < end_to_end(hs).len() ==> !hop_by_hop((#[trigger] end_to_end(hs)[i]).0),
{
    lemma_end_to_end_clean(hs);
    lemma_end_to_end_fixed(end_to_end(hs));
}

/// A header that is not hop-by-hop is kept.
pub proof fn law_end_to_end_kept(hs: Seq<(Seq<char>, Seq<u8>)>, i: int)
    requires
        0 <= i < hs.len(),
        !hop_by_hop(hs[i].0),
    ensures
        end_to_end(hs).contains(hs[i]),
    decreases hs.len(),
{
    if i < hs.len() - 1 {
        law_end_to_end_kept(hs.drop_last(), i);
        let r = end_to_end(hs.drop_last());
        let k = choose|k: int| 0 <= k < r.len() && r[k] == hs.drop_last()[i];
        if !hop_by_hop(hs.last().0) {
            assert(end_to_end(hs)[k] == r[k]);
        }
    } else {
        assert(end_to_end(hs).last() == hs[i]);
    }
}

} // verus!
