use chatgpt_proxy_server::gateway::{
    authorization_value, build_upstream_request, client_identity, content_type_value, handle,
    handle_at, plan_response, rejection_response, rewrite_path, Decision, GatewayResponse,
    InboundRequest, ResponsePlan, UpstreamOutcome, USER_AGENT,
};
use chatgpt_proxy_server::RateLimiter;

fn inbound(path: &str, xff: Option<&str>, remote: &str) -> InboundRequest {
    InboundRequest {
        method: "POST".to_string(),
        path_and_query: path.to_string(),
        x_forwarded_for: xff.map(|v| v.to_string()),
        remote_addr: remote.to_string(),
        authorization: None,
        content_type: None,
    }
}

#[test]
fn prefix_is_rewritten() {
    assert_eq!(rewrite_path("/backend-api/conversation"), "/api/conversation");
    assert_eq!(rewrite_path("/backend-api"), "/api");
    assert_eq!(rewrite_path("/backend-api/a/b?c=d"), "/api/a/b?c=d");
}

#[test]
fn non_matching_path_passes_through() {
    assert_eq!(rewrite_path("/health"), "/health");
    assert_eq!(rewrite_path("/api/conversation"), "/api/conversation");
    assert_eq!(rewrite_path(""), "");
    assert_eq!(rewrite_path("/backend-ap"), "/backend-ap");
}

#[test]
fn identity_prefers_forwarded_header() {
    assert_eq!(
        client_identity(Some("9.9.9.9".to_string()), "1.2.3.4".to_string()),
        "9.9.9.9"
    );
    // The header value is taken verbatim, even a multi-hop chain.
    assert_eq!(
        client_identity(Some("9.9.9.9, 8.8.8.8".to_string()), "1.2.3.4".to_string()),
        "9.9.9.9, 8.8.8.8"
    );
}

#[test]
fn identity_falls_back_to_remote_address() {
    assert_eq!(client_identity(None, "1.2.3.4".to_string()), "1.2.3.4");
    assert_eq!(
        client_identity(Some("".to_string()), "1.2.3.4".to_string()),
        "1.2.3.4"
    );
}

#[test]
fn absent_headers_get_defaults() {
    assert_eq!(authorization_value(None), "null");
    assert_eq!(content_type_value(None), "application/json");
}

#[test]
fn present_headers_are_copied_verbatim() {
    assert_eq!(
        authorization_value(Some("Bearer abc123".to_string())),
        "Bearer abc123"
    );
    assert_eq!(
        content_type_value(Some("text/event-stream".to_string())),
        "text/event-stream"
    );
}

#[test]
fn outbound_request_is_assembled_exactly() {
    let u = build_upstream_request(
        "https://upstream.example.com",
        "POST".to_string(),
        "/backend-api/conversation?q=1".to_string(),
        None,
        Some("text/plain".to_string()),
    );
    assert_eq!(u.method, "POST");
    assert_eq!(u.uri, "https://upstream.example.com/api/conversation?q=1");
    assert_eq!(u.user_agent, USER_AGENT);
    assert!(u.user_agent.starts_with("Mozilla/5.0"));
    assert_eq!(u.authorization, "null");
    assert_eq!(u.content_type, "text/plain");
}

#[test]
fn rejection_is_bit_exact() {
    let r = rejection_response();
    assert_eq!(r.status, 429);
    assert_eq!(r.content_type, "text/plain");
    assert_eq!(r.body, "Too Many Requests");
}

#[test]
fn upstream_response_is_relayed() {
    let plan = plan_response(UpstreamOutcome::Response {
        status: 200,
        content_type: Some("application/json".to_string()),
    });
    match plan {
        ResponsePlan::RelayUpstream { status, content_type } => {
            assert_eq!(status, 200);
            assert_eq!(content_type, "application/json");
        }
        ResponsePlan::GatewayError(_) => panic!("expected a relay"),
    }
}

#[test]
fn upstream_faults_become_a_generic_gateway_error() {
    let cases = [
        plan_response(UpstreamOutcome::TransportFailure),
        plan_response(UpstreamOutcome::Response { status: 200, content_type: None }),
    ];
    for plan in cases {
        match plan {
            ResponsePlan::GatewayError(GatewayResponse { status, content_type, body }) => {
                assert_eq!(status, 502);
                assert_eq!(content_type, "text/plain");
                assert_eq!(body, "Bad Gateway");
            }
            ResponsePlan::RelayUpstream { .. } => panic!("expected a gateway error"),
        }
    }
}

#[test]
fn two_requests_forwarded_then_third_rejected() {
    let mut rl = RateLimiter::new_at(2, 0);
    let base = "https://upstream.example.com";

    // Request 1: forwarded; the upstream answers 200 `ok` and is relayed.
    match handle_at(&mut rl, base, inbound("/backend-api/conversation", None, "1.2.3.4"), 10) {
        Decision::Forward(u) => {
            assert_eq!(u.uri, "https://upstream.example.com/api/conversation");
            let plan = plan_response(UpstreamOutcome::Response {
                status: 200,
                content_type: Some("text/plain".to_string()),
            });
            match plan {
                ResponsePlan::RelayUpstream { status, .. } => assert_eq!(status, 200),
                ResponsePlan::GatewayError(_) => panic!("expected a relay"),
            }
        }
        Decision::Reject(_) => panic!("first request must be forwarded"),
    }

    // Request 2: forwarded the same way.
    match handle_at(&mut rl, base, inbound("/backend-api/conversation", None, "1.2.3.4"), 20) {
        Decision::Forward(_) => {}
        Decision::Reject(_) => panic!("second request must be forwarded"),
    }

    // Request 3: rejected with exactly 429 / `Too Many Requests`, and no
    // upstream request is built at all.
    match handle_at(&mut rl, base, inbound("/backend-api/conversation", None, "1.2.3.4"), 30) {
        Decision::Forward(_) => panic!("third request must be rejected"),
        Decision::Reject(resp) => {
            assert_eq!(resp.status, 429);
            assert_eq!(resp.content_type, "text/plain");
            assert_eq!(resp.body, "Too Many Requests");
        }
    }
}

#[test]
fn rejected_identity_does_not_block_another() {
    let mut rl = RateLimiter::new_at(1, 0);
    let base = "https://upstream.example.com";
    match handle_at(&mut rl, base, inbound("/x", Some("9.9.9.9"), "1.2.3.4"), 5) {
        Decision::Forward(_) => {}
        Decision::Reject(_) => panic!("first request must be forwarded"),
    }
    match handle_at(&mut rl, base, inbound("/x", Some("9.9.9.9"), "1.2.3.4"), 6) {
        Decision::Forward(_) => panic!("over-limit request must be rejected"),
        Decision::Reject(_) => {}
    }
    // A different forwarded identity over the same connection still passes.
    match handle_at(&mut rl, base, inbound("/x", Some("7.7.7.7"), "1.2.3.4"), 7) {
        Decision::Forward(_) => {}
        Decision::Reject(_) => panic!("other identity must be forwarded"),
    }
}

#[test]
fn wall_clock_pipeline_forwards_a_first_request() {
    let mut rl = RateLimiter::new(1);
    match handle(&mut rl, "https://upstream.example.com", inbound("/health", None, "1.2.3.4")) {
        Decision::Forward(u) => assert_eq!(u.uri, "https://upstream.example.com/health"),
        Decision::Reject(_) => panic!("first request must be forwarded"),
    }
}
