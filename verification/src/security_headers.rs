//! The headers that every response carries to harden browsers against
//! common attacks.

use vstd::prelude::*;

verus! {

/// The headers and their values, in the order they are set.
pub open spec fn hardening_headers() -> Seq<(Seq<char>, Seq<char>)> {
    seq![
        ("strict-transport-security"@, "max-age=31536000; includeSubDomains"@),
        ("x-frame-options"@, "DENY"@),
        ("x-content-type-options"@, "nosniff"@),
        ("content-security-policy"@, "default-src 'none'; frame-ancestors 'none'"@),
        ("referrer-policy"@, "strict-origin-when-cross-origin"@),
        ("permissions-policy"@, "geolocation=(), microphone=(), camera=()"@),
    ]
}

/// Names and values as pairs of character sequences.
pub open spec fn header_views(headers: Seq<(&'static str, &'static str)>) -> Seq<(Seq<char>, Seq<char>)> {
    headers.map_values(|h: (&'static str, &'static str)| (h.0@, h.1@))
}

/// The policy: which headers are set.
#[derive(Debug, Clone, Copy, PartialEq, Eq, Structural)]
pub struct SecurityHeaders;

impl SecurityHeaders {
    /// The headers to set on every response.
    pub fn headers(&self) -> (headers: Vec<(&'static str, &'static str)>)
        ensures
            header_views(headers@) == hardening_headers(),
    {
        let mut headers: Vec<(&'static str, &'static str)> = Vec::new();
        headers.push(("strict-transport-security", "max-age=31536000; includeSubDomains"));
        headers.push(("x-frame-options", "DENY"));
        headers.push(("x-content-type-options", "nosniff"));
        headers.push(("content-security-policy", "default-src 'none'; frame-ancestors 'none'"));
        headers.push(("referrer-policy", "strict-origin-when-cross-origin"));
        headers.push(("permissions-policy", "geolocation=(), microphone=(), camera=()"));
        proof {
            assert(header_views(headers@) =~= hardening_headers());
        }
        headers
    }

    /// Wraps a service so that its responses get the headers.
    pub fn new_transform<S>(&self, service: S) -> (wrapped: SecurityHeadersMiddleware<S>)
        ensures
            wrapped.service == service,
    {
        SecurityHeadersMiddleware { service }
    }
}

/// A service whose responses get the headers of `SecurityHeaders`.
pub struct SecurityHeadersMiddleware<S> {
    pub service: S,
}

impl<S> SecurityHeadersMiddleware<S> {
    /// The headers to set on a response of the wrapped service.
    pub fn headers(&self) -> (headers: Vec<(&'static str, &'static str)>)
        ensures
            header_views(headers@) == hardening_headers(),
    {
        SecurityHeaders.headers()
    }
}

} // verus!
