//! Data-plane API key authentication.
//!
//! API keys are SHA-256 hashed when the configuration is built and never
//! kept in plain text; a Bearer token is hashed and compared with each key
//! hash in constant time.

use vstd::prelude::*;
use sha2::{Digest, Sha256};
use subtle::ConstantTimeEq;
use vstd::string::StrSliceExecFns;
use crate::proxy::context::{ascii_string, ascii_text, find_header, header_value, is_visible_ascii, visible_ascii};
use crate::proxy::header::{Header, headers_view};
use crate::text::{str_eq, str_starts_with};

verus! {

/// The SHA-256 digest of a byte string.
pub uninterp spec fn sha256_digest(data: Seq<u8>) -> Seq<u8>;

/// Calls `Sha256::digest` (crate `sha2`). The contract claims only that
/// the digest is a function of the input bytes, named `sha256_digest`;
/// the hash function itself is left unstated.
#[verifier::external_body]
fn sha256(data: &[u8]) -> (r: Vec<u8>)
    ensures
        r@ == sha256_digest(data@),
{
    Sha256::digest(data).to_vec()
}

/// Calls `ConstantTimeEq::ct_eq` (crate `subtle`) on two byte slices and
/// reads the resulting `Choice`, which the crate documents as 1 exactly
/// when the slices are equal; the contract claims that.
#[verifier::external_body]
fn ct_equal(a: &[u8], b: &[u8]) -> (r: bool)
    ensures
        r == (a@ == b@),
{
    a.ct_eq(b).unwrap_u8() == 1
}

/// The hash kept for an API key: SHA-256 of its UTF-8 bytes.
pub open spec fn key_hash(key: Seq<char>) -> Seq<u8> {
    sha256_digest(vstd::utf8::encode_utf8(key))
}

/// The hash kept for an API key: SHA-256 of its UTF-8 bytes.
pub fn hash_api_key(key: &str) -> (r: Vec<u8>)
    ensures
        r@ == key_hash(key@),
{
    sha256(key.as_bytes())
}

/// Pre-computed SHA-256 hashes of the valid API keys.
pub struct AuthConfig {
    api_key_hashes: Option<Vec<Vec<u8>>>,
}

impl AuthConfig {
    /// The key hashes, if keys were configured.
    pub closed spec fn hashes(&self) -> Option<Seq<Seq<u8>>> {
        match self.api_key_hashes {
            Some(v) => Some(Seq::new(v@.len(), |i: int| v@[i]@)),
            None => None,
        }
    }

    /// Create a configuration from plain-text API keys, hashing each one.
    /// An empty list or `None` disables authentication.
    pub fn new(api_keys: Option<Vec<String>>) -> (r: Self)
        ensures
            r.hashes() == match api_keys {
                Some(ks) => Some(Seq::new(ks@.len(), |i: int| key_hash(ks@[i]@))),
                None => None,
            },
    {
        match api_keys {
            Some(keys) => {
                let mut hashes: Vec<Vec<u8>> = Vec::new();
                let mut i: usize = 0;
                while i < keys.len()
                    invariant
                        i <= keys@.len(),
                        hashes@.len() == i,
                        forall|k: int| 0 <= k < i ==> (#[trigger] hashes@[k])@ == key_hash(keys@[k]@),
                    decreases keys@.len() - i,
                {
                    hashes.push(hash_api_key(keys[i].as_str()));
                    i = i + 1;
                }
                let r = AuthConfig { api_key_hashes: Some(hashes) };
                assert(r.hashes()->0 =~= Seq::new(keys@.len(), |i: int| key_hash(keys@[i]@)));
                r
            },
            None => AuthConfig { api_key_hashes: None },
        }
    }

    /// Whether a request for `path` with `headers` may pass.
    pub fn authorize(&self, path: &str, headers: &Vec<Header>) -> (r: bool)
        ensures
            r == auth_allows(self.hashes(), path@, headers_view(headers@)),
    {
        if str_eq(path, "/health") {
            return true;
        }
        match &self.api_key_hashes {
            None => true,
            Some(expected) => {
                if expected.len() == 0 {
                    return true;
                }
                let token = bearer_token_exec(headers);
                match token {
                    None => false,
                    Some(t) => {
                        let digest = hash_api_key(t.as_str());
                        let mut i: usize = 0;
                        while i < expected.len()
                            invariant
                                i <= expected@.len(),
                                self.api_key_hashes == Some(*expected),
                                digest@ == key_hash(t@),
                                bearer_token(headers_view(headers@)) == Some(t@),
                                path@ != "/health"@,
                                forall|k: int| 0 <= k < i ==> (#[trigger] expected@[k])@ != digest@,
                            decreases expected@.len() - i,
                        {
                            if ct_equal(digest.as_slice(), expected[i].as_slice()) {
                                proof {
                                    assert(self.hashes()->0[i as int] == key_hash(t@));
                                    assert(self.hashes()->0.contains(key_hash(t@)));
                                    }
                                return true;
                            }
                            i = i + 1;
                        }
                        proof {
                            let hs = self.hashes()->0;
                            assert forall|k: int| 0 <= k < hs.len() implies hs[k] != key_hash(t@) by {
                                assert(hs[k] == expected@[k]@);
                            }
                        }
                        false
                    },
                }
            },
        }
    }
}

/// The Bearer token of the `authorization` header: its text after
/// `Bearer `, where the value is visible ASCII.
pub open spec fn bearer_token(hs: Seq<(Seq<char>, Seq<u8>)>) -> Option<Seq<char>> {
    match header_value(hs, "authorization"@) {
        Some(b) => if visible_ascii(b) {
            let t = ascii_text(b);
            if 7 <= t.len() && t.take(7) == "Bearer "@ {
                Some(t.skip(7))
            } else {
                None
            }
        } else {
            None
        },
        None => None,
    }
}

/// Whether a request passes authentication: `/health` always does; so
/// does every request when no keys (or an empty list) are configured;
/// otherwise the Bearer token's hash must be one of the key hashes.
pub open spec fn auth_allows(hashes: Option<Seq<Seq<u8>>>, path: Seq<char>, hs: Seq<(Seq<char>, Seq<u8>)>) -> bool {
    if path == "/health"@ {
        true
    } else {
        match hashes {
            None => true,
            Some(h) => h.len() == 0 || match bearer_token(hs) {
                Some(t) => h.contains(key_hash(t)),
                None => false,
            },
        }
    }
}

/// The Bearer token of a request, if any.
fn bearer_token_exec(headers: &Vec<Header>) -> (r: Option<String>)
    ensures
        match r {
            Some(t) => bearer_token(headers_view(headers@)) == Some(t@),
            None => bearer_token(headers_view(headers@)) is None,
        },
{
    match find_header(headers, "authorization") {
        Some(b) => if is_visible_ascii(b) {
            let text = ascii_string(b);
            if str_starts_with(text.as_str(), "Bearer ") {
                let n = text.as_str().unicode_len();
                proof {
                    reveal_strlit("Bearer ");
                }
                Some(text.as_str().substring_char(7, n).to_owned())
            } else {
                proof {
                    reveal_strlit("Bearer ");
                }
                None
            }
        } else {
            None
        },
        None => None,
    }
}

/// The status and body that answer a request that fails authentication.
pub fn rejection() -> (r: (u16, &'static str))
    ensures
        r.0 == 401,
        r.1@ == "Unauthorized"@,
{
    (401, "Unauthorized")
}

/// `/health` is always reachable, with or without credentials.
pub proof fn law_health_always_allowed(hashes: Option<Seq<Seq<u8>>>, hs: Seq<(Seq<char>, Seq<u8>)>)
    ensures
        auth_allows(hashes, "/health"@, hs),
{
}

/// Without configured keys (none, or an empty list) every request passes.
pub proof fn law_no_keys_allow_all(path: Seq<char>, hs: Seq<(Seq<char>, Seq<u8>)>)
    ensures
        auth_allows(None, path, hs),
        auth_allows(Some(Seq::empty()), path, hs),
{
}

/// A request bearing any configured key passes.
pub proof fn law_configured_key_accepted(keys: Seq<Seq<char>>, i: int, path: Seq<char>, hs: Seq<(Seq<char>, Seq<u8>)>)
    requires
        0 <= i < keys.len(),
        bearer_token(hs) == Some(keys[i]),
    ensures
        auth_allows(Some(Seq::new(keys.len(), |j: int| key_hash(keys[j]))), path, hs),
{
    let h = Seq::new(keys.len(), |j: int| key_hash(keys[j]));
    assert(h[i] == key_hash(keys[i]));
}

/// With keys configured, a request without a Bearer token is refused
/// (except `/health`).
pub proof fn law_missing_token_refused(hashes: Seq<Seq<u8>>, path: Seq<char>, hs: Seq<(Seq<char>, Seq<u8>)>)
    requires
        hashes.len() > 0,
        path != "/health"@,
        bearer_token(hs) is None,
    ensures
        !auth_allows(Some(hashes), path, hs),
{
}

} // verus!
