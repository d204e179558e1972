//! Which transport a remote server is reached by.
//!
//! A preflight request is sent to the server. Its status code says whether the server
//! speaks streamable HTTP, only the legacy transport over server-sent events, or wants
//! authentication first; in that case the request is sent once more, authenticated.

use crate::error::{McpError, TransportKind};
use crate::text;
use vstd::prelude::*;

verus! {

/// The status code of success.
pub const STATUS_OK: u16 = 200;

/// The status code that asks for authentication.
pub const STATUS_UNAUTHORIZED: u16 = 401;

/// The status code of a server that has nothing at the URL.
pub const STATUS_NOT_FOUND: u16 = 404;

/// The status code of a server that refuses the method.
pub const STATUS_METHOD_NOT_ALLOWED: u16 = 405;

/// Whether a number is an HTTP status code: it has three digits.
pub open spec fn is_status_code(code: u16) -> bool {
    100 <= code <= 999
}

/// The canonical reason that the http crate has for a status code, or what it says of a
/// code for which it has none.
pub uninterp spec fn status_reason(code: u16) -> Seq<char>;

/// How a status code is written: the number, a space and the reason.
pub open spec fn status_display(code: u16) -> Seq<char> {
    text::decimal(code as nat) + " "@ + status_reason(code)
}

/// The `Display` of `http::StatusCode::from_u16`, which accepts numbers of three digits:
/// the number, a space and the reason. The reason depends on the number alone; the http
/// crate has a table of reasons, so the reason is named.
#[verifier::external_body]
fn status_text(code: u16) -> (shown: String)
    requires
        is_status_code(code),
    ensures
        shown@ == text::decimal(code as nat) + " "@ + status_reason(code),
{
    http::StatusCode::from_u16(code).unwrap().to_string()
}

/// The transport to reach a server by, and whether an authenticated client is used.
#[derive(Clone, Copy, Debug, PartialEq, Eq)]
pub enum Transport {
    /// Streamable HTTP.
    Http { authenticated: bool },
    /// The legacy transport over server-sent events.
    Sse { authenticated: bool },
}

/// What is being waited for while the transport is not yet known.
#[derive(Clone, Copy, Debug, PartialEq, Eq)]
pub enum ProbeState {
    /// The answer to the preflight request.
    Preflight,
    /// An authenticated client.
    Authenticating,
    /// The answer to the preflight request of the authenticated client.
    AuthenticatedPreflight,
}

/// What came of it.
#[derive(Debug, PartialEq, Eq)]
pub enum ProbeEvent {
    /// The server answered with a status code.
    Status(u16),
    /// The request could not be sent.
    RequestFailed(String),
    /// There is an authenticated client now.
    Authenticated,
    /// Authentication failed.
    AuthenticationFailed(String),
}

/// [`ProbeEvent`] by its contents.
pub enum ProbeEventView {
    Status(u16),
    RequestFailed(Seq<char>),
    Authenticated,
    AuthenticationFailed(Seq<char>),
}

impl DeepView for ProbeEvent {
    type V = ProbeEventView;

    open spec fn deep_view(&self) -> ProbeEventView {
        match self {
            ProbeEvent::Status(code) => ProbeEventView::Status(*code),
            ProbeEvent::RequestFailed(error) => ProbeEventView::RequestFailed(error@),
            ProbeEvent::Authenticated => ProbeEventView::Authenticated,
            ProbeEvent::AuthenticationFailed(error) => ProbeEventView::AuthenticationFailed(error@),
        }
    }
}

/// How things go on.
#[derive(Debug, PartialEq, Eq)]
pub enum ProbeStep {
    /// Something else is waited for.
    Wait(ProbeState),
    /// The transport is known.
    Use(Transport),
    /// The server cannot be reached.
    Fail(McpError),
}

/// [`ProbeStep`] by its contents.
pub enum ProbeStepView {
    Wait(ProbeState),
    Use(Transport),
    Fail(crate::error::McpErrorView),
}

impl DeepView for ProbeStep {
    type V = ProbeStepView;

    open spec fn deep_view(&self) -> ProbeStepView {
        match self {
            ProbeStep::Wait(state) => ProbeStepView::Wait(*state),
            ProbeStep::Use(transport) => ProbeStepView::Use(*transport),
            ProbeStep::Fail(error) => ProbeStepView::Fail(error.deep_view()),
        }
    }
}

/// The failure to create the HTTP transport for the given reason.
pub open spec fn http_failure(error: Seq<char>) -> crate::error::McpErrorView {
    crate::error::McpErrorView::TransportCreation {
        transport: crate::error::TransportKindView::StreamableHttp,
        error,
    }
}

/// The failure on a status code that decides nothing.
pub open spec fn unexpected_status(code: u16) -> crate::error::McpErrorView {
    http_failure("Unexpected status code: "@ + status_display(code))
}

/// Whether an event is one that is being waited for.
pub open spec fn probe_accepts(state: ProbeState, event: ProbeEventView) -> bool {
    match state {
        ProbeState::Authenticating => event is Authenticated || event is AuthenticationFailed,
        _ => (event matches ProbeEventView::Status(code) && is_status_code(code))
            || event is RequestFailed,
    }
}

/// What a status code decides where authentication is not at issue.
pub open spec fn transport_for_status(code: u16, authenticated: bool) -> ProbeStepView {
    if code == STATUS_OK {
        ProbeStepView::Use(Transport::Http { authenticated })
    } else if code == STATUS_NOT_FOUND || code == STATUS_METHOD_NOT_ALLOWED {
        ProbeStepView::Use(Transport::Sse { authenticated })
    } else {
        ProbeStepView::Fail(unexpected_status(code))
    }
}

/// How things go on after an event.
pub open spec fn probe_step(
    state: ProbeState,
    event: ProbeEventView,
    has_auth_context: bool,
) -> ProbeStepView {
    match event {
        ProbeEventView::Status(code) => if state == ProbeState::AuthenticatedPreflight {
            transport_for_status(code, true)
        } else if code != STATUS_UNAUTHORIZED {
            transport_for_status(code, false)
        } else if has_auth_context {
            ProbeStepView::Wait(ProbeState::Authenticating)
        } else {
            ProbeStepView::Fail(
                http_failure("Server requires authentication, which is not yet supported."@),
            )
        },
        ProbeEventView::RequestFailed(error) => ProbeStepView::Fail(http_failure(error)),
        ProbeEventView::Authenticated => ProbeStepView::Wait(ProbeState::AuthenticatedPreflight),
        ProbeEventView::AuthenticationFailed(error) => ProbeStepView::Fail(http_failure(error)),
    }
}

/// The failure to create the HTTP transport for the given reason.
fn creation_failure(error: String) -> (failure: McpError)
    ensures
        failure.deep_view() == http_failure(error@),
{
    McpError::TransportCreation { transport: TransportKind::StreamableHttp, error }
}

/// What a status code decides where authentication is not at issue.
fn decide_by_status(code: u16, authenticated: bool) -> (step: ProbeStep)
    requires
        is_status_code(code),
    ensures
        step.deep_view() == transport_for_status(code, authenticated),
{
    if code == STATUS_OK {
        ProbeStep::Use(Transport::Http { authenticated })
    } else if code == STATUS_NOT_FOUND || code == STATUS_METHOD_NOT_ALLOWED {
        ProbeStep::Use(Transport::Sse { authenticated })
    } else {
        let shown = status_text(code);
        ProbeStep::Fail(creation_failure(text::joined("Unexpected status code: ", shown.as_str())))
    }
}

/// Determines which transport to use, one event at a time.
pub fn determine_transport(state: ProbeState, event: ProbeEvent, has_auth_context: bool) -> (step:
    ProbeStep)
    requires
        probe_accepts(state, event.deep_view()),
    ensures
        step.deep_view() == probe_step(state, event.deep_view(), has_auth_context),
{
    match event {
        ProbeEvent::Status(code) => match state {
            ProbeState::AuthenticatedPreflight => decide_by_status(code, true),
            _ => if code != STATUS_UNAUTHORIZED {
                decide_by_status(code, false)
            } else if has_auth_context {
                ProbeStep::Wait(ProbeState::Authenticating)
            } else {
                ProbeStep::Fail(
                    creation_failure(
                        "Server requires authentication, which is not yet supported.".to_owned(),
                    ),
                )
            },
        },
        ProbeEvent::RequestFailed(error) => ProbeStep::Fail(creation_failure(error)),
        ProbeEvent::Authenticated => ProbeStep::Wait(ProbeState::AuthenticatedPreflight),
        ProbeEvent::AuthenticationFailed(error) => ProbeStep::Fail(creation_failure(error)),
    }
}

/// Whether a transport uses an authenticated client.
pub open spec fn is_authenticated(transport: Transport) -> bool {
    match transport {
        Transport::Http { authenticated } => authenticated,
        Transport::Sse { authenticated } => authenticated,
    }
}

/// A transport is authenticated exactly where it was decided after authentication.
pub proof fn law_authenticated_only_after_authentication(
    state: ProbeState,
    event: ProbeEventView,
    has_auth_context: bool,
)
    requires
        probe_accepts(state, event),
    ensures
        probe_step(state, event, has_auth_context) matches ProbeStepView::Use(transport)
            ==> is_authenticated(transport) == (state == ProbeState::AuthenticatedPreflight),
        probe_step(state, event, has_auth_context) == ProbeStepView::Wait(
            ProbeState::AuthenticatedPreflight,
        ) ==> state == ProbeState::Authenticating && event is Authenticated,
        probe_step(state, event, has_auth_context) == ProbeStepView::Wait(
            ProbeState::Authenticating,
        ) ==> state == ProbeState::Preflight && has_auth_context && event
            == ProbeEventView::Status(STATUS_UNAUTHORIZED),
{
}

/// How many events can still come.
pub open spec fn probe_rank(state: ProbeState) -> nat {
    match state {
        ProbeState::Preflight => 3,
        ProbeState::Authenticating => 2,
        ProbeState::AuthenticatedPreflight => 1,
    }
}

/// The transport is determined after at most three events: each one that does not decide
/// leaves fewer to come.
pub proof fn law_probe_ends(state: ProbeState, event: ProbeEventView, has_auth_context: bool)
    requires
        probe_accepts(state, event),
    ensures
        probe_step(state, event, has_auth_context) matches ProbeStepView::Wait(next) ==> probe_rank(
            next,
        ) < probe_rank(state),
{
}

/// What a status code decides. Streamable HTTP is used on success alone, the legacy
/// transport where there is nothing at the URL or the method is refused, and
/// authentication is gone through once, where the server asks for it and it is possible.
/// Every other code is a failure that names the code.
pub proof fn law_status_code_decides(state: ProbeState, code: u16, has_auth_context: bool)
    requires
        !(state is Authenticating),
        100 <= code <= 999,
    ensures
        ({
            let step = probe_step(state, ProbeEventView::Status(code), has_auth_context);
            let again = state is AuthenticatedPreflight;
            let asks = code == 401 && !again;
            &&& step == ProbeStepView::Use(Transport::Http { authenticated: again }) <==> code == 200
            &&& step == ProbeStepView::Use(Transport::Sse { authenticated: again }) <==> code == 404
                || code == 405
            &&& step is Use <==> code == 200 || code == 404 || code == 405
            &&& step == ProbeStepView::Wait(ProbeState::Authenticating) <==> asks
                && has_auth_context
            &&& step is Wait <==> asks && has_auth_context
            &&& step matches ProbeStepView::Fail(failure) ==> {
                &&& failure matches crate::error::McpErrorView::TransportCreation {
                    transport,
                    error,
                }
                &&& transport is StreamableHttp
                &&& error == if asks {
                    "Server requires authentication, which is not yet supported."@
                } else {
                    "Unexpected status code: "@ + (text::decimal(code as nat) + " "@
                        + status_reason(code))
                }
            }
        }),
{
}

/// A request that could not be sent and an authentication that failed end the search with
/// their own reason; an authentication that succeeded is followed by one more request.
pub proof fn law_other_events_decide(
    state: ProbeState,
    reason: Seq<char>,
    has_auth_context: bool,
)
    ensures
        probe_step(state, ProbeEventView::RequestFailed(reason), has_auth_context)
            == ProbeStepView::Fail(
            crate::error::McpErrorView::TransportCreation {
                transport: crate::error::TransportKindView::StreamableHttp,
                error: reason,
            },
        ),
        probe_step(state, ProbeEventView::AuthenticationFailed(reason), has_auth_context)
            == ProbeStepView::Fail(
            crate::error::McpErrorView::TransportCreation {
                transport: crate::error::TransportKindView::StreamableHttp,
                error: reason,
            },
        ),
        probe_step(state, ProbeEventView::Authenticated, has_auth_context) == ProbeStepView::Wait(
            ProbeState::AuthenticatedPreflight,
        ),
{
}

/// Each event is waited for in some states: the outcome of authentication while
/// authenticating, and what comes of a request otherwise.
pub proof fn law_events_have_their_states(state: ProbeState, code: u16, reason: Seq<char>)
    ensures
        probe_accepts(state, ProbeEventView::Authenticated) == (state is Authenticating),
        probe_accepts(state, ProbeEventView::AuthenticationFailed(reason)) == (state is
            Authenticating),
        probe_accepts(state, ProbeEventView::RequestFailed(reason)) == !(state is Authenticating),
        probe_accepts(state, ProbeEventView::Status(code)) == (!(state is Authenticating) && 100
            <= code && code <= 999),
{
}

/// A transport says itself whether it is authenticated.
pub proof fn law_transport_says_whether_it_is_authenticated(authenticated: bool)
    ensures
        is_authenticated(Transport::Http { authenticated }) == authenticated,
        is_authenticated(Transport::Sse { authenticated }) == authenticated,
{
}

/// The view of an event and of a step holds all that is in it.
pub proof fn law_probe_views_are_faithful(event: ProbeEvent, step: ProbeStep)
    ensures
        match event {
            ProbeEvent::Status(code) => event.deep_view() == ProbeEventView::Status(code),
            ProbeEvent::RequestFailed(error) => event.deep_view() == ProbeEventView::RequestFailed(
                error@,
            ),
            ProbeEvent::Authenticated => event.deep_view() == ProbeEventView::Authenticated,
            ProbeEvent::AuthenticationFailed(error) => event.deep_view()
                == ProbeEventView::AuthenticationFailed(error@),
        },
        match step {
            ProbeStep::Wait(state) => step.deep_view() == ProbeStepView::Wait(state),
            ProbeStep::Use(transport) => step.deep_view() == ProbeStepView::Use(transport),
            ProbeStep::Fail(error) => step.deep_view() == ProbeStepView::Fail(error.deep_view()),
        },
{
}

} // verus!
