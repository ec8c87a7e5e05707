//! Errors of the reverse proxy and the responses that answer them. Each
//! maps to an HTTP status without leaking internal details.

use vstd::prelude::*;

verus! {

/// Errors that can occur while proxying a request. Failures of the HTTP
/// client are kept by whether they were a timeout or a connection failure.
#[derive(Debug, Clone, PartialEq, Eq)]
pub enum ProxyError {
    /// The worker URL could not be parsed.
    UrlParse(String),
    /// The request to the worker failed.
    BackendRequest { timeout: bool, connect: bool, message: String },
    /// The incoming request body could not be collected.
    BodyCollect(String),
    /// The outgoing response could not be built.
    ResponseBuild(String),
    /// No healthy worker could take the request.
    NoHealthyWorkers,
}

/// The status and body that answer each error.
pub open spec fn proxy_error_response(e: ProxyError) -> (u16, Seq<char>) {
    match e {
        ProxyError::UrlParse(_) => (502, "invalid worker URL"@),
        ProxyError::BackendRequest { timeout, connect, .. } => if timeout {
            (504, "backend timeout"@)
        } else if connect {
            (502, "backend connection failed"@)
        } else {
            (502, "backend error"@)
        },
        ProxyError::BodyCollect(_) => (400, "failed to read request body"@),
        ProxyError::ResponseBuild(_) => (500, "internal error"@),
        ProxyError::NoHealthyWorkers => (503, "no healthy workers available"@),
    }
}

/// The content type of every error response.
pub open spec fn error_content_type() -> Seq<char> {
    "text/plain; charset=utf-8"@
}

impl ProxyError {
    /// The HTTP status code of the error response.
    pub fn status_code(&self) -> (r: u16)
        ensures
            r == proxy_error_response(*self).0,
    {
        match self {
            ProxyError::UrlParse(_) => 502,
            ProxyError::BackendRequest { timeout, connect, .. } => if *timeout {
                504
            } else {
                502
            },
            ProxyError::BodyCollect(_) => 400,
            ProxyError::ResponseBuild(_) => 500,
            ProxyError::NoHealthyWorkers => 503,
        }
    }

    /// The plain-text body of the error response.
    pub fn message(&self) -> (r: &'static str)
        ensures
            r@ == proxy_error_response(*self).1,
    {
        match self {
            ProxyError::UrlParse(_) => "invalid worker URL",
            ProxyError::BackendRequest { timeout, connect, .. } => if *timeout {
                "backend timeout"
            } else if *connect {
                "backend connection failed"
            } else {
                "backend error"
            },
            ProxyError::BodyCollect(_) => "failed to read request body",
            ProxyError::ResponseBuild(_) => "internal error",
            ProxyError::NoHealthyWorkers => "no healthy workers available",
        }
    }

    /// The `Content-Type` of the error response.
    pub fn content_type(&self) -> (r: &'static str)
        ensures
            r@ == error_content_type(),
    {
        "text/plain; charset=utf-8"
    }
}

} // verus!
