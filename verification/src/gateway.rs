use crate::limiter::RateLimiter;
use vstd::prelude::*;
use vstd::string::StrSliceExecFns;
use vstd::string::StringExecFns;

verus! {

/// The fixed browser-like `User-Agent` value sent on every outbound request,
/// masking the proxy's identity from the upstream.
pub const USER_AGENT: &'static str = "Mozilla/5.0 (Macintosh; Intel Mac OS X 10_15_7) AppleWebKit/537.36 (KHTML, like Gecko) Chrome/110.0.0.0 Safari/537.36 Edg/110.0.1587.50";

/// What the gateway reads from one inbound request; the body is not part of
/// the decision and is streamed through unchanged by the caller.
pub struct InboundRequest {
    pub method: String,
    pub path_and_query: String,
    pub x_forwarded_for: Option<String>,
    pub remote_addr: String,
    pub authorization: Option<String>,
    pub content_type: Option<String>,
}

/// The outbound request the gateway forwards to the upstream; the inbound
/// body is attached to it unchanged by the caller.
pub struct UpstreamRequest {
    pub method: String,
    pub uri: String,
    pub user_agent: String,
    pub authorization: String,
    pub content_type: String,
}

/// A response the gateway writes itself (a rejection or a gateway error).
pub struct GatewayResponse {
    pub status: u16,
    pub content_type: String,
    pub body: String,
}

/// The admission gate's outcome for one inbound request.
pub enum Decision {
    /// Denied: answer immediately with this response; no upstream call.
    Reject(GatewayResponse),
    /// Admitted: forward this request to the upstream.
    Forward(UpstreamRequest),
}

/// What the caller observed of the upstream call.
pub enum UpstreamOutcome {
    /// The upstream answered with this status and `Content-Type` header.
    Response { status: u16, content_type: Option<String> },
    /// The call failed (network error, malformed URI, no response).
    TransportFailure,
}

/// How to answer the client after the upstream call.
pub enum ResponsePlan {
    /// Relay the upstream response: its status, its `Content-Type`, and its
    /// body streamed through unchanged by the caller.
    RelayUpstream { status: u16, content_type: String },
    /// Answer with a locally written gateway-error response.
    GatewayError(GatewayResponse),
}

/// The rewritten form of a path-and-query string: a leading `/backend-api`
/// prefix becomes `/api`; any other path passes through unchanged.
pub open spec fn spec_rewrite(path: Seq<char>) -> Seq<char> {
    if path.len() >= 12 && path.subrange(0, 12) == "/backend-api"@ {
        "/api"@ + path.skip(12)
    } else {
        path
    }
}

fn str_eq(a: &str, b: &str) -> (r: bool)
    ensures
        r == (a@ == b@),
{
    let x = a.to_owned();
    let y = b.to_owned();
    x == y
}

/// Rewrite the inbound path-and-query for the upstream: replace a leading
/// `/backend-api` prefix by `/api`, and leave every other path unchanged.
pub fn rewrite_path(path_and_query: &str) -> (r: String)
    ensures
        r@ == spec_rewrite(path_and_query@),
{
    let n = path_and_query.unicode_len();
    if n >= 12 {
        let prefix = path_and_query.substring_char(0, 12);
        if str_eq(prefix, "/backend-api") {
            let rest = path_and_query.substring_char(12, n);
            let mut out = String::from_str("/api");
            out.append(rest);
            proof {
                assert(path_and_query@.subrange(12, n as int) =~= path_and_query@.skip(12));
            }
            return out;
        }
    }
    path_and_query.to_owned()
}

/// The client identity of a request: the `X-Forwarded-For` value taken
/// verbatim when present and non-empty, otherwise the connection's remote
/// address.
pub open spec fn spec_identity(x_forwarded_for: Option<String>, remote_addr: String) -> Seq<char> {
    match x_forwarded_for {
        Some(v) => if v@.len() > 0 {
            v@
        } else {
            remote_addr@
        },
        None => remote_addr@,
    }
}

/// Derive the rate-limit identity of one request.
pub fn client_identity(x_forwarded_for: Option<String>, remote_addr: String) -> (r: String)
    ensures
        r@ == spec_identity(x_forwarded_for, remote_addr),
{
    match x_forwarded_for {
        Some(v) => {
            if v.as_str().is_empty() {
                remote_addr
            } else {
                v
            }
        },
        None => remote_addr,
    }
}

/// The outbound `Authorization` value: the inbound one verbatim, or the
/// literal string `"null"` when the inbound request carried none.
pub open spec fn spec_authorization(authorization: Option<String>) -> Seq<char> {
    match authorization {
        Some(v) => v@,
        None => "null"@,
    }
}

/// Pick the `Authorization` header value for the outbound request.
pub fn authorization_value(authorization: Option<String>) -> (r: String)
    ensures
        r@ == spec_authorization(authorization),
{
    match authorization {
        Some(v) => v,
        None => String::from_str("null"),
    }
}

/// The outbound `Content-Type` value: the inbound one verbatim, or
/// `"application/json"` when the inbound request carried none.
pub open spec fn spec_content_type(content_type: Option<String>) -> Seq<char> {
    match content_type {
        Some(v) => v@,
        None => "application/json"@,
    }
}

/// Pick the `Content-Type` header value for the outbound request.
pub fn content_type_value(content_type: Option<String>) -> (r: String)
    ensures
        r@ == spec_content_type(content_type),
{
    match content_type {
        Some(v) => v,
        None => String::from_str("application/json"),
    }
}

/// Build the outbound URI: the configured upstream base URL followed by the
/// (possibly rewritten) path-and-query.
pub fn upstream_uri(base_url: &str, path_and_query: &str) -> (r: String)
    ensures
        r@ == base_url@ + spec_rewrite(path_and_query@),
{
    let mut out = base_url.to_owned();
    let rewritten = rewrite_path(path_and_query);
    out.append(rewritten.as_str());
    out
}

/// Everything the gateway promises of the outbound request it builds:
/// method preserved, URI rewritten onto the base URL, the fixed user agent,
/// and the two headers copied or defaulted.
pub open spec fn spec_upstream_request(
    r: UpstreamRequest,
    base: Seq<char>,
    method: Seq<char>,
    path_and_query: Seq<char>,
    authorization: Option<String>,
    content_type: Option<String>,
) -> bool {
    &&& r.method@ == method
    &&& r.uri@ == base + spec_rewrite(path_and_query)
    &&& r.user_agent@ == USER_AGENT@
    &&& r.authorization@ == spec_authorization(authorization)
    &&& r.content_type@ == spec_content_type(content_type)
}

/// Build the outbound request for an admitted inbound request.
pub fn build_upstream_request(
    base_url: &str,
    method: String,
    path_and_query: String,
    authorization: Option<String>,
    content_type: Option<String>,
) -> (r: UpstreamRequest)
    ensures
        spec_upstream_request(
            r,
            base_url@,
            method@,
            path_and_query@,
            authorization,
            content_type,
        ),
{
    let uri = upstream_uri(base_url, path_and_query.as_str());
    UpstreamRequest {
        method,
        uri,
        user_agent: USER_AGENT.to_owned(),
        authorization: authorization_value(authorization),
        content_type: content_type_value(content_type),
    }
}

/// The fixed rejection answer for a denied request: status 429,
/// `text/plain`, body exactly `Too Many Requests`.
pub fn rejection_response() -> (r: GatewayResponse)
    ensures
        r.status == 429,
        r.content_type@ == "text/plain"@,
        r.body@ == "Too Many Requests"@,
{
    GatewayResponse {
        status: 429,
        content_type: String::from_str("text/plain"),
        body: String::from_str("Too Many Requests"),
    }
}

/// Decide how to answer the client once the upstream call has run: relay
/// the upstream's status, `Content-Type` and body when all are there; on a
/// transport failure or a response without `Content-Type`, answer with a
/// generic 502 that leaks no internal cause.
pub fn plan_response(outcome: UpstreamOutcome) -> (r: ResponsePlan)
    ensures
        match outcome {
            UpstreamOutcome::Response { status, content_type: Some(ct) } => (r matches
                ResponsePlan::RelayUpstream { status: s, content_type: c } && s == status && c@
                == ct@),
            _ => (r matches ResponsePlan::GatewayError(resp) && resp.status == 502
                && resp.content_type@ == "text/plain"@ && resp.body@ == "Bad Gateway"@),
        },
{
    match outcome {
        UpstreamOutcome::Response { status, content_type: Some(ct) } => {
            ResponsePlan::RelayUpstream { status, content_type: ct }
        },
        _ => {
            ResponsePlan::GatewayError(
                GatewayResponse {
                    status: 502,
                    content_type: String::from_str("text/plain"),
                    body: String::from_str("Bad Gateway"),
                },
            )
        },
    }
}

/// The whole per-request pipeline, relating the admission controller's state
/// before (`pre`) and after (`post`) one inbound request to the gateway's
/// decision `d`: the identity is derived, gated at time `now`, and the
/// request is either answered with the fixed 429 rejection or rewritten for
/// the upstream.
pub open spec fn spec_handle(
    pre: RateLimiter,
    post: RateLimiter,
    base: Seq<char>,
    req: InboundRequest,
    now: u64,
    d: Decision,
) -> bool {
    let id = spec_identity(req.x_forwarded_for, req.remote_addr);
    &&& pre.spec_step(post, id, now, pre.spec_admitted(id, now))
    &&& if pre.spec_admitted(id, now) {
        d matches Decision::Forward(u) && spec_upstream_request(
            u,
            base,
            req.method@,
            req.path_and_query@,
            req.authorization,
            req.content_type,
        )
    } else {
        d matches Decision::Reject(resp) && resp.status == 429 && resp.content_type@
            == "text/plain"@ && resp.body@ == "Too Many Requests"@
    }
}

/// Run the gateway pipeline for one inbound request, with the admission
/// check evaluated at time `now` (seconds).
pub fn handle_at(
    limiter: &mut RateLimiter,
    base_url: &str,
    req: InboundRequest,
    now: u64,
) -> (d: Decision)
    requires
        old(limiter).wf(),
    ensures
        spec_handle(*old(limiter), *final(limiter), base_url@, req, now, d),
{
    let InboundRequest {
        method,
        path_and_query,
        x_forwarded_for,
        remote_addr,
        authorization,
        content_type,
    } = req;
    let identity = client_identity(x_forwarded_for, remote_addr);
    if limiter.admit_at(identity.as_str(), now) {
        Decision::Forward(
            build_upstream_request(base_url, method, path_and_query, authorization, content_type),
        )
    } else {
        Decision::Reject(rejection_response())
    }
}

/// Run the gateway pipeline for one inbound request, with the admission
/// check evaluated at the current wall-clock time: the state change and the
/// decision are those of `handle_at` for whatever time the clock returned.
pub fn handle(limiter: &mut RateLimiter, base_url: &str, req: InboundRequest) -> (d: Decision)
    requires
        old(limiter).wf(),
    ensures
        exists|t: u64| spec_handle(*old(limiter), *final(limiter), base_url@, req, t, d),
{
    let InboundRequest {
        method,
        path_and_query,
        x_forwarded_for,
        remote_addr,
        authorization,
        content_type,
    } = req;
    let identity = client_identity(x_forwarded_for, remote_addr);
    let admitted = limiter.check_rate_limit(identity.as_str());
    let d = if admitted {
        Decision::Forward(
            build_upstream_request(base_url, method, path_and_query, authorization, content_type),
        )
    } else {
        Decision::Reject(rejection_response())
    };
    proof {
        let t = choose|t: u64| old(limiter).spec_step(*limiter, identity@, t, admitted);
        assert(spec_handle(*old(limiter), *limiter, base_url@, req, t, d));
    }
    d
}

} // verus!
