//! Which transport a remote server is reached by.

use mcp_runtime::error::{McpError, TransportKind};
use mcp_runtime::transport::{
    determine_transport, ProbeEvent, ProbeState, ProbeStep, Transport,
};

fn http_failure(error: &str) -> ProbeStep {
    ProbeStep::Fail(McpError::TransportCreation {
        transport: TransportKind::StreamableHttp,
        error: error.to_string(),
    })
}

fn preflight(code: u16, has_auth_context: bool) -> ProbeStep {
    determine_transport(ProbeState::Preflight, ProbeEvent::Status(code), has_auth_context)
}

fn authenticated_preflight(code: u16) -> ProbeStep {
    determine_transport(ProbeState::AuthenticatedPreflight, ProbeEvent::Status(code), true)
}

#[test]
fn success_means_streamable_http() {
    assert_eq!(preflight(200, false), ProbeStep::Use(Transport::Http { authenticated: false }));
    assert_eq!(preflight(200, true), ProbeStep::Use(Transport::Http { authenticated: false }));
}

#[test]
fn not_found_and_not_allowed_mean_server_sent_events() {
    for code in [404, 405] {
        assert_eq!(preflight(code, true), ProbeStep::Use(Transport::Sse { authenticated: false }));
        assert_eq!(
            authenticated_preflight(code),
            ProbeStep::Use(Transport::Sse { authenticated: true })
        );
    }
}

#[test]
fn unauthorized_asks_for_authentication() {
    assert_eq!(preflight(401, true), ProbeStep::Wait(ProbeState::Authenticating));
    assert_eq!(
        preflight(401, false),
        http_failure("Server requires authentication, which is not yet supported.")
    );
    assert_eq!(
        determine_transport(ProbeState::Authenticating, ProbeEvent::Authenticated, true),
        ProbeStep::Wait(ProbeState::AuthenticatedPreflight)
    );
    assert_eq!(
        authenticated_preflight(200),
        ProbeStep::Use(Transport::Http { authenticated: true })
    );
}

#[test]
fn other_status_codes_fail() {
    assert_eq!(
        preflight(500, true),
        http_failure("Unexpected status code: 500 Internal Server Error")
    );
    assert_eq!(
        authenticated_preflight(401),
        http_failure("Unexpected status code: 401 Unauthorized")
    );
    assert_eq!(
        preflight(999, false),
        http_failure("Unexpected status code: 999 <unknown status code>")
    );
    assert_eq!(preflight(204, false), http_failure("Unexpected status code: 204 No Content"));
}

#[test]
fn failures_are_handed_on() {
    assert_eq!(
        determine_transport(
            ProbeState::Preflight,
            ProbeEvent::RequestFailed("refused".to_string()),
            false,
        ),
        http_failure("refused")
    );
    assert_eq!(
        determine_transport(
            ProbeState::Authenticating,
            ProbeEvent::AuthenticationFailed("denied".to_string()),
            true,
        ),
        http_failure("denied")
    );
}
