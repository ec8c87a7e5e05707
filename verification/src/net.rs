//! Worker URLs: parsing through the `url` crate, and the string shaping
//! around it.

use vstd::prelude::*;
use crate::text::chars_of;

verus! {

/// What `url::Url::parse` gives for an input: on success the URL's
/// serialization, its host and its explicit (non-default) port; on
/// failure the error's message.
pub uninterp spec fn url_parse_outcome(input: Seq<char>) -> Result<(Seq<char>, Option<Seq<char>>, Option<u16>), Seq<char>>;

/// A parsed URL as plain values: serialization, host, explicit port.
pub type UrlParts = (String, Option<String>, Option<u16>);

pub open spec fn opt_str_view(o: Option<String>) -> Option<Seq<char>> {
    match o {
        Some(s) => Some(s@),
        None => None,
    }
}

/// The plain view of parsed URL parts.
pub open spec fn parts_view(p: UrlParts) -> (Seq<char>, Option<Seq<char>>, Option<u16>) {
    (p.0@, opt_str_view(p.1), p.2)
}

/// The plain view of a parse outcome.
pub open spec fn outcome_view(r: Result<UrlParts, String>) -> Result<(Seq<char>, Option<Seq<char>>, Option<u16>), Seq<char>> {
    match r {
        Ok(p) => Ok(parts_view(p)),
        Err(e) => Err(e@),
    }
}

/// Calls `url::Url::parse` and reads `as_str`, `host_str` and `port` of
/// the result, or the `Display` text of the `ParseError`. The contract
/// claims only that the outcome is a function of the input, named
/// `url_parse_outcome`; what that function is (the WHATWG URL grammar)
/// is left unstated.
#[verifier::external_body]
pub(crate) fn parse_url(input: &str) -> (r: Result<UrlParts, String>)
    ensures
        outcome_view(r) == url_parse_outcome(input@),
{
    match url::Url::parse(input) {
        Ok(u) => Ok((u.as_str().to_string(), u.host_str().map(str::to_string), u.port())),
        Err(e) => Err(e.to_string()),
    }
}

/// `s` with every leading repetition of `p` removed (`trim_start_matches`).
pub open spec fn trim_start_all(s: Seq<char>, p: Seq<char>) -> Seq<char>
    decreases s.len(),
{
    if p.len() > 0 && p.len() <= s.len() && s.take(p.len() as int) == p {
        trim_start_all(s.skip(p.len() as int), p)
    } else {
        s
    }
}

/// `s` with every trailing `c` removed (`trim_end_matches`).
pub open spec fn trim_end_char(s: Seq<char>, c: char) -> Seq<char>
    decreases s.len(),
{
    if s.len() > 0 && s.last() == c {
        trim_end_char(s.drop_last(), c)
    } else {
        s
    }
}

/// `s` with every leading repetition of `p` removed.
pub fn trim_start_matches(s: &str, p: &str) -> (r: String)
    ensures
        r@ == trim_start_all(s@, p@),
{
    let h = chars_of(s);
    let n = chars_of(p);
    let len = h.len();
    let plen = n.len();
    let mut i: usize = 0;
    assert(s@.skip(0) =~= s@);
    while plen > 0 && plen <= len - i && crate::text::occurs_at_exec(&h, &n, i)
        invariant
            h@ == s@,
            n@ == p@,
            len == s@.len(),
            plen == p@.len(),
            i <= len,
            trim_start_all(s@, p@) == trim_start_all(s@.skip(i as int), p@),
        decreases len - i,
    {
        proof {
            let rest = s@.skip(i as int);
            assert(rest.take(plen as int) =~= s@.subrange(i as int, i + plen));
            assert(rest.skip(plen as int) =~= s@.skip(i + plen));
        }
        i = i + plen;
    }
    proof {
        let rest = s@.skip(i as int);
        if plen > 0 && plen <= len - i {
            assert(rest.take(plen as int) =~= s@.subrange(i as int, i + plen));
        }
        assert(s@.subrange(i as int, len as int) =~= rest);
    }
    s.substring_char(i, len).to_owned()
}

/// `s` with every trailing `c` removed.
pub fn trim_end_matches(s: &str, c: char) -> (r: String)
    ensures
        r@ == trim_end_char(s@, c),
{
    let h = chars_of(s);
    let mut end: usize = h.len();
    assert(s@.take(end as int) =~= s@);
    while end > 0 && h[end - 1] == c
        invariant
            h@ == s@,
            end <= s@.len(),
            trim_end_char(s@, c) == trim_end_char(s@.take(end as int), c),
        decreases end,
    {
        proof {
            let t = s@.take(end as int);
            assert(t.drop_last() =~= s@.take(end - 1));
        }
        end = end - 1;
    }
    s.substring_char(0, end).to_owned()
}

/// The text that `build_target_url` hands to the URL parser.
pub open spec fn target_text(worker_url: Seq<char>, path: Seq<char>) -> Seq<char> {
    trim_end_char(worker_url, '/') + path
}

/// The URL of `path` on a worker: the worker URL without trailing
/// slashes, followed by `path`, as the URL parser serializes it; or the
/// parser's error message.
pub fn build_target_url(worker_url: &str, path: &str) -> (r: Result<String, String>)
    ensures
        match r {
            Ok(t) => url_parse_outcome(target_text(worker_url@, path@)) matches Ok(p) && t@ == p.0,
            Err(e) => url_parse_outcome(target_text(worker_url@, path@)) == Err::<(Seq<char>, Option<Seq<char>>, Option<u16>), Seq<char>>(e@),
        },
{
    let base = trim_end_matches(worker_url, '/');
    let text = crate::text::concat(base.as_str(), path);
    match parse_url(text.as_str()) {
        Ok(parts) => Ok(parts.0),
        Err(e) => Err(e),
    }
}

} // verus!
