//! HTTP Reverse Proxy: the rewrite applied to one inbound request before it
//! is sent to the fixed backend, and the pass-through of the backend's
//! response. Method, path, query and every header are forwarded verbatim;
//! only the authority and scheme are substituted. The bodies are streamed
//! by the transport outside this crate and never buffered here. A
//! transport-level failure is surfaced to the original caller as a bare
//! internal server error: a status code and nothing else.

use vstd::prelude::*;

verus! {

/// The scheme an outbound request is sent over.
#[derive(Clone, Copy, Debug, PartialEq, Eq)]
pub enum Scheme {
    Http,
}

/// An inbound request as the proxy sees it: method, path, optional query
/// and headers, all as bytes. The body is a stream owned by the transport
/// and attached outside this crate.
#[derive(Clone, Debug, PartialEq, Eq)]
pub struct InboundRequest {
    pub method: Vec<u8>,
    pub path: Vec<u8>,
    pub query: Option<Vec<u8>>,
    pub headers: Vec<(Vec<u8>, Vec<u8>)>,
}

/// The request the proxy sends onward: the inbound request's parts behind
/// the backend's scheme and authority.
#[derive(Clone, Debug, PartialEq, Eq)]
pub struct OutboundRequest {
    pub scheme: Scheme,
    pub authority: Vec<u8>,
    pub method: Vec<u8>,
    pub path: Vec<u8>,
    pub query: Option<Vec<u8>>,
    pub headers: Vec<(Vec<u8>, Vec<u8>)>,
}

/// A response's routable parts: status code and headers. The body is a
/// stream owned by the transport.
#[derive(Clone, Debug, PartialEq, Eq)]
pub struct ResponseParts {
    pub status: u16,
    pub headers: Vec<(Vec<u8>, Vec<u8>)>,
}

/// Failure classes of the proxy layer. Each carries the failing
/// transport's message as bytes; none of it reaches the original caller.
#[derive(Clone, Debug, PartialEq, Eq)]
pub enum Error {
    Http(Vec<u8>),
    InvalidUriParts(Vec<u8>),
    Reqwest(Vec<u8>),
    Tungstenite(Vec<u8>),
    Url(Vec<u8>),
}

impl Error {
    /// Every proxy failure is surfaced to the original caller as a bare
    /// internal-server-error status, whatever its class: no detail beyond
    /// the code leaks out.
    pub fn response_status(&self) -> (r: u16)
        ensures
            r == 500,
    {
        match self {
            Error::Http(_) => 500,
            Error::InvalidUriParts(_) => 500,
            Error::Reqwest(_) => 500,
            Error::Tungstenite(_) => 500,
            Error::Url(_) => 500,
        }
    }
}

/// Rewrites one inbound request for the backend: method, path, query and
/// the whole header set are kept verbatim; only the authority and scheme
/// are substituted. This is the proxy's entire transformation — it neither
/// drops nor adds a header.
pub fn rewrite_for_backend(req: InboundRequest, authority: Vec<u8>) -> (r: OutboundRequest)
    ensures
        r.scheme is Http,
        r.authority == authority,
        r.method == req.method,
        r.path == req.path,
        r.query == req.query,
        r.headers == req.headers,
{
    let InboundRequest { method, path, query, headers } = req;
    OutboundRequest { scheme: Scheme::Http, authority, method, path, query, headers }
}

/// What the original caller receives once the outbound request has run:
/// the backend's status and headers unmodified on success; on any
/// transport failure a bare internal server error, with the error's
/// detail replaced by an empty header set so nothing internal leaks.
pub fn response_to_caller(outcome: Result<ResponseParts, Error>) -> (r: ResponseParts)
    ensures
        match outcome {
            Ok(backend) => r == backend,
            Err(_) => r.status == 500 && r.headers@.len() == 0,
        },
{
    match outcome {
        Ok(backend) => backend,
        Err(e) => ResponseParts { status: e.response_status(), headers: Vec::new() },
    }
}

/// Law: the proxy is transparent on success — the caller sees exactly the
/// backend's status — and opaque on failure: whichever error class the
/// transport hit, the caller sees status 500 and no headers.
pub proof fn lemma_no_partial_response(outcome: Result<ResponseParts, Error>, r: ResponseParts)
    requires
        call_ensures(response_to_caller, (outcome,), r),
    ensures
        outcome is Ok ==> r == outcome->Ok_0,
        outcome is Err ==> r.status == 500 && r.headers@.len() == 0,
{
}

} // verus!
