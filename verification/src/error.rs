//! Failures of the MCP client and what the user is told of them.

use crate::text;
use vstd::prelude::*;
use vstd::string::*;

verus! {

/// The transport whose creation failed.
#[derive(Debug, PartialEq, Eq)]
pub enum TransportKind {
    /// A child process that speaks over its standard streams.
    ChildProcess,
    /// Streamable HTTP.
    StreamableHttp,
    /// The legacy transport over server-sent events.
    Sse,
    /// Any other transport, by the name of its type.
    Named(String),
}

/// A failure of a request to a connected server.
#[derive(Debug, PartialEq, Eq)]
pub enum RequestError {
    /// The server answered with an MCP error.
    Mcp { code: i32, message: String },
    /// The request could not be handed to the transport.
    TransportSend(String),
    /// The transport is closed.
    TransportClosed,
    /// The answer was not of the kind that was asked for.
    UnexpectedResponse,
    /// The request was cancelled.
    Cancelled { reason: Option<String> },
    /// No answer came within so many whole seconds.
    Timeout { timeout_secs: u64 },
    /// Any other failure, by its description.
    Other(String),
}

/// A failure of the MCP client.
#[derive(Debug, PartialEq, Eq)]
pub enum McpError {
    /// The client could not be initialized.
    ClientInitialize(String),
    /// The server could not be initialized.
    ServerInitialize(String),
    /// A transport could not be created.
    TransportCreation { transport: TransportKind, error: String },
    /// A task of the runtime failed.
    Runtime(String),
    /// A request failed.
    Service(RequestError),
    /// Any other failure, by its description.
    Other(String),
}

/// [`TransportKind`] by its contents.
pub enum TransportKindView {
    ChildProcess,
    StreamableHttp,
    Sse,
    Named(Seq<char>),
}

/// [`RequestError`] by its contents.
pub enum RequestErrorView {
    Mcp { code: i32, message: Seq<char> },
    TransportSend(Seq<char>),
    TransportClosed,
    UnexpectedResponse,
    Cancelled { reason: Option<Seq<char>> },
    Timeout { timeout_secs: u64 },
    Other(Seq<char>),
}

/// [`McpError`] by its contents.
pub enum McpErrorView {
    ClientInitialize(Seq<char>),
    ServerInitialize(Seq<char>),
    TransportCreation { transport: TransportKindView, error: Seq<char> },
    Runtime(Seq<char>),
    Service(RequestErrorView),
    Other(Seq<char>),
}

impl DeepView for TransportKind {
    type V = TransportKindView;

    open spec fn deep_view(&self) -> TransportKindView {
        match self {
            TransportKind::ChildProcess => TransportKindView::ChildProcess,
            TransportKind::StreamableHttp => TransportKindView::StreamableHttp,
            TransportKind::Sse => TransportKindView::Sse,
            TransportKind::Named(name) => TransportKindView::Named(name@),
        }
    }
}

impl DeepView for RequestError {
    type V = RequestErrorView;

    open spec fn deep_view(&self) -> RequestErrorView {
        match self {
            RequestError::Mcp { code, message } => RequestErrorView::Mcp {
                code: *code,
                message: message@,
            },
            RequestError::TransportSend(error) => RequestErrorView::TransportSend(error@),
            RequestError::TransportClosed => RequestErrorView::TransportClosed,
            RequestError::UnexpectedResponse => RequestErrorView::UnexpectedResponse,
            RequestError::Cancelled { reason } => RequestErrorView::Cancelled {
                reason: reason.deep_view(),
            },
            RequestError::Timeout { timeout_secs } => RequestErrorView::Timeout {
                timeout_secs: *timeout_secs,
            },
            RequestError::Other(text) => RequestErrorView::Other(text@),
        }
    }
}

impl DeepView for McpError {
    type V = McpErrorView;

    open spec fn deep_view(&self) -> McpErrorView {
        match self {
            McpError::ClientInitialize(error) => McpErrorView::ClientInitialize(error@),
            McpError::ServerInitialize(error) => McpErrorView::ServerInitialize(error@),
            McpError::TransportCreation { transport, error } => McpErrorView::TransportCreation {
                transport: transport.deep_view(),
                error: error@,
            },
            McpError::Runtime(error) => McpErrorView::Runtime(error@),
            McpError::Service(error) => McpErrorView::Service(error.deep_view()),
            McpError::Other(text) => McpErrorView::Other(text@),
        }
    }
}

/// What the user is told of a failed request.
pub open spec fn service_user_message(error: RequestErrorView) -> Seq<char> {
    match error {
        RequestErrorView::Mcp { .. } =>
            "Server returned an error. Please check server logs for details."@,
        RequestErrorView::TransportSend(_) =>
            "Failed to send data to server. Connection may have been lost."@,
        RequestErrorView::TransportClosed =>
            "Connection closed unexpectedly. The server may have crashed."@,
        RequestErrorView::UnexpectedResponse =>
            "Server sent an unexpected response. The server may be incompatible."@,
        RequestErrorView::Cancelled { reason: Some(reason) } =>
            "Operation was cancelled with reason: "@ + reason,
        RequestErrorView::Cancelled { reason: None } =>
            "Operation was cancelled with reason: "@ + "Unknown reason"@,
        RequestErrorView::Timeout { timeout_secs } =>
            "Connection timed out after "@ + text::decimal(timeout_secs as nat)
                + " seconds. The server may be unresponsive."@,
        RequestErrorView::Other(text) => "Service error: "@ + text,
    }
}

/// What the user is told of a failure.
pub open spec fn user_message(error: McpErrorView) -> Seq<char> {
    match error {
        McpErrorView::ClientInitialize(error) => "Failed to initialize client: "@ + error,
        McpErrorView::ServerInitialize(error) => "Failed to initialize server: "@ + error,
        McpErrorView::TransportCreation { error, .. } =>
            "Failed to establish connection: "@ + error,
        McpErrorView::Runtime(error) => "Runtime error: "@ + error,
        McpErrorView::Service(error) => service_user_message(error),
        McpErrorView::Other(text) => "Error: "@ + text,
    }
}

/// Says in words for the user what went wrong with a request.
fn service_error_message(error: &RequestError) -> (message: String)
    ensures
        message@ == service_user_message(error.deep_view()),
{
    match error {
        RequestError::Mcp { .. } =>
            "Server returned an error. Please check server logs for details.".to_owned(),
        RequestError::TransportSend(_) =>
            "Failed to send data to server. Connection may have been lost.".to_owned(),
        RequestError::TransportClosed =>
            "Connection closed unexpectedly. The server may have crashed.".to_owned(),
        RequestError::UnexpectedResponse =>
            "Server sent an unexpected response. The server may be incompatible.".to_owned(),
        RequestError::Cancelled { reason } => match reason {
            Some(reason) => text::joined("Operation was cancelled with reason: ", reason.as_str()),
            None => text::joined("Operation was cancelled with reason: ", "Unknown reason"),
        },
        RequestError::Timeout { timeout_secs } => {
            let secs = text::decimal_text(*timeout_secs);
            let mut message = text::joined("Connection timed out after ", secs.as_str());
            message.append(" seconds. The server may be unresponsive.");
            message
        },
        RequestError::Other(text) => text::joined("Service error: ", text.as_str()),
    }
}

/// Says in words for the user what went wrong, in the library's own terms.
pub fn failure_to_user_message(error: &McpError) -> (message: String)
    ensures
        message@ == user_message(error.deep_view()),
{
    match error {
        McpError::ClientInitialize(error) => text::joined(
            "Failed to initialize client: ",
            error.as_str(),
        ),
        McpError::ServerInitialize(error) => text::joined(
            "Failed to initialize server: ",
            error.as_str(),
        ),
        McpError::TransportCreation { error, .. } => text::joined(
            "Failed to establish connection: ",
            error.as_str(),
        ),
        McpError::Runtime(error) => text::joined("Runtime error: ", error.as_str()),
        McpError::Service(error) => service_error_message(error),
        McpError::Other(text) => text::joined("Error: ", text.as_str()),
    }
}

/// `rmcp::RmcpError`, carried as it is.
#[verifier::external_type_specification]
#[verifier::external_body]
pub struct ExRmcpError(rmcp::RmcpError);

/// `rmcp::ServiceError`, carried as it is.
#[verifier::external_type_specification]
#[verifier::external_body]
pub struct ExServiceError(rmcp::ServiceError);

/// What a failed request of rmcp is about, as far as its value alone says it.
pub enum RequestContents {
    Mcp { code: i32, message: Seq<char> },
    TransportSend,
    TransportClosed,
    UnexpectedResponse,
    Cancelled { reason: Option<Seq<char>> },
    Timeout { timeout_secs: u64 },
    Other,
}

/// What an error of rmcp is about, as far as its value alone says it.
pub enum ErrorContents {
    ClientInitialize,
    ServerInitialize,
    TransportCreation { transport: Seq<char> },
    Runtime,
    Service(rmcp::ServiceError),
    Other,
}

/// The variant of an `rmcp::ServiceError` and what it holds.
pub uninterp spec fn request_contents(error: rmcp::ServiceError) -> RequestContents;

/// The variant of an `rmcp::RmcpError` and what it holds.
pub uninterp spec fn error_contents(error: rmcp::RmcpError) -> ErrorContents;

/// What the `Display` of what is behind an `rmcp::ServiceError` can write. There may be
/// several texts: an error of the operating system is described in the language of the
/// machine.
pub uninterp spec fn request_texts(error: rmcp::ServiceError) -> Set<Seq<char>>;

/// What the `Display` of what is behind an `rmcp::RmcpError` can write; several texts as
/// in [`request_texts`].
pub uninterp spec fn error_texts(error: rmcp::RmcpError) -> Set<Seq<char>>;

/// Whether a description is one of a failed request with the given contents, with one of
/// the given texts where there is one in it.
pub open spec fn describes_request(
    described: RequestErrorView,
    contents: RequestContents,
    texts: Set<Seq<char>>,
) -> bool {
    match contents {
        RequestContents::Mcp { code, message } => described == (RequestErrorView::Mcp {
            code,
            message,
        }),
        RequestContents::TransportSend => described matches RequestErrorView::TransportSend(text)
            && texts.contains(text),
        RequestContents::TransportClosed => described is TransportClosed,
        RequestContents::UnexpectedResponse => described is UnexpectedResponse,
        RequestContents::Cancelled { reason } => described == (RequestErrorView::Cancelled {
            reason,
        }),
        RequestContents::Timeout { timeout_secs } => described == (RequestErrorView::Timeout {
            timeout_secs,
        }),
        RequestContents::Other => described matches RequestErrorView::Other(text)
            && texts.contains(text),
    }
}

/// Whether a description is one of an error with the given contents that is not a failed
/// request, with one of the given texts in it.
pub open spec fn describes_other_than_request(
    described: McpErrorView,
    contents: ErrorContents,
    texts: Set<Seq<char>>,
) -> bool {
    match contents {
        ErrorContents::ClientInitialize => described matches McpErrorView::ClientInitialize(text)
            && texts.contains(text),
        ErrorContents::ServerInitialize => described matches McpErrorView::ServerInitialize(text)
            && texts.contains(text),
        ErrorContents::TransportCreation { transport: name } => {
            &&& described matches McpErrorView::TransportCreation { transport, error: text }
            &&& transport == TransportKindView::Named(name)
            &&& texts.contains(text)
        },
        ErrorContents::Runtime => described matches McpErrorView::Runtime(text)
            && texts.contains(text),
        ErrorContents::Service(_) => false,
        ErrorContents::Other => described matches McpErrorView::Other(text) && texts.contains(text),
    }
}

/// Whether a description is one of an error of rmcp.
pub open spec fn describes(described: McpErrorView, error: rmcp::RmcpError) -> bool {
    match error_contents(error) {
        ErrorContents::Service(request) => described matches McpErrorView::Service(failed)
            && describes_request(failed, request_contents(request), request_texts(request)),
        _ => describes_other_than_request(described, error_contents(error), error_texts(error)),
    }
}

/// What an `rmcp::RmcpError` holds, with a failed request still as rmcp has it.
enum ErrorParts<'a> {
    Described(McpError),
    Request(&'a rmcp::ServiceError),
}

/// Tells the variants of `rmcp::RmcpError` apart and hands out what they hold, which is
/// named, not spelled out; what is behind a failure is described by one of the texts that
/// its `Display` can write.
#[verifier::external_body]
fn error_parts<'a>(error: &'a rmcp::RmcpError) -> (parts: ErrorParts<'a>)
    ensures
        match parts {
            ErrorParts::Described(described) => describes_other_than_request(
                described.deep_view(),
                error_contents(*error),
                error_texts(*error),
            ),
            ErrorParts::Request(request) => error_contents(*error) == ErrorContents::Service(
                *request,
            ),
        },
{
    let described = match error {
        rmcp::RmcpError::Service(request) => return ErrorParts::Request(request),
        rmcp::RmcpError::ClientInitialize(e) => McpError::ClientInitialize(e.to_string()),
        rmcp::RmcpError::ServerInitialize(e) => McpError::ServerInitialize(e.to_string()),
        rmcp::RmcpError::Runtime(e) => McpError::Runtime(e.to_string()),
        rmcp::RmcpError::TransportCreation { into_transport_type_name: name, error, .. } => {
            let transport = TransportKind::Named(name.to_string());
            McpError::TransportCreation { transport, error: error.to_string() }
        },
        other => McpError::Other(other.to_string()),
    };
    ErrorParts::Described(described)
}

/// Tells the variants of `rmcp::ServiceError` apart and hands out what they hold, which
/// is named, not spelled out; the time of a timeout is counted in whole seconds. What is
/// behind a failure to send, and what has no variant here, is described by one of the
/// texts that its `Display` can write.
#[verifier::external_body]
fn service_error_parts(error: &rmcp::ServiceError) -> (parts: RequestError)
    ensures
        describes_request(parts.deep_view(), request_contents(*error), request_texts(*error)),
{
    match error {
        rmcp::ServiceError::McpError(e) => {
            RequestError::Mcp { code: e.code.0, message: e.message.to_string() }
        },
        rmcp::ServiceError::TransportSend(e) => RequestError::TransportSend(e.to_string()),
        rmcp::ServiceError::TransportClosed => RequestError::TransportClosed,
        rmcp::ServiceError::UnexpectedResponse => RequestError::UnexpectedResponse,
        rmcp::ServiceError::Cancelled { reason: r } => RequestError::Cancelled { reason: r.clone() },
        rmcp::ServiceError::Timeout { timeout: t } => {
            RequestError::Timeout { timeout_secs: t.as_secs() }
        },
        other => RequestError::Other(other.to_string()),
    }
}

/// Puts an error of rmcp into the library's own terms.
pub fn describe_rmcp_error(error: &rmcp::RmcpError) -> (described: McpError)
    ensures
        describes(described.deep_view(), *error),
{
    match error_parts(error) {
        ErrorParts::Described(described) => described,
        ErrorParts::Request(request) => McpError::Service(service_error_parts(request)),
    }
}

/// Puts a failed request of rmcp into the library's own terms.
pub fn describe_request_error(error: &rmcp::ServiceError) -> (described: RequestError)
    ensures
        describes_request(described.deep_view(), request_contents(*error), request_texts(*error)),
{
    service_error_parts(error)
}

/// Says in words for the user what an error of rmcp is about.
pub fn error_to_user_message(error: &rmcp::RmcpError) -> (message: String)
    ensures
        exists|described: McpErrorView| #[trigger]
            describes(described, *error) && message@ == user_message(described),
{
    let described = describe_rmcp_error(error);
    failure_to_user_message(&described)
}

/// Every failure but a failed request is told by a heading of its own and then its own
/// description, whole and unchanged; of a transport the description alone.
pub proof fn law_failure_is_told_with_its_description(
    description: Seq<char>,
    transport: TransportKindView,
)
    ensures
        user_message(McpErrorView::ClientInitialize(description)) == "Failed to initialize client: "@
            + description,
        user_message(McpErrorView::ServerInitialize(description)) == "Failed to initialize server: "@
            + description,
        user_message(McpErrorView::TransportCreation { transport, error: description })
            == "Failed to establish connection: "@ + description,
        user_message(McpErrorView::Runtime(description)) == "Runtime error: "@ + description,
        user_message(McpErrorView::Other(description)) == "Error: "@ + description,
{
}

/// What is told of a failed request: the reason of a cancellation, the seconds of a timeout
/// and the description of what has no name here are told, all else is one sentence for
/// each kind of failure, whatever is behind it.
pub proof fn law_failed_request_is_told_by_its_kind(
    code: i32,
    description: Seq<char>,
    timeout_secs: u64,
)
    ensures
        user_message(McpErrorView::Service(RequestErrorView::Mcp { code, message: description }))
            == "Server returned an error. Please check server logs for details."@,
        user_message(McpErrorView::Service(RequestErrorView::TransportSend(description)))
            == "Failed to send data to server. Connection may have been lost."@,
        user_message(McpErrorView::Service(RequestErrorView::TransportClosed))
            == "Connection closed unexpectedly. The server may have crashed."@,
        user_message(McpErrorView::Service(RequestErrorView::UnexpectedResponse))
            == "Server sent an unexpected response. The server may be incompatible."@,
        user_message(
            McpErrorView::Service(RequestErrorView::Cancelled { reason: Some(description) }),
        ) == "Operation was cancelled with reason: "@ + description,
        user_message(McpErrorView::Service(RequestErrorView::Cancelled { reason: None }))
            == user_message(
            McpErrorView::Service(
                RequestErrorView::Cancelled { reason: Some("Unknown reason"@) },
            ),
        ),
        user_message(McpErrorView::Service(RequestErrorView::Timeout { timeout_secs }))
            == "Connection timed out after "@ + text::decimal(timeout_secs as nat)
            + " seconds. The server may be unresponsive."@,
        user_message(McpErrorView::Service(RequestErrorView::Other(description)))
            == "Service error: "@ + description,
{
}

/// The view of a failure holds all that is in it.
pub proof fn law_failure_views_are_faithful(
    failure: McpError,
    request: RequestError,
    transport: TransportKind,
)
    ensures
        match failure {
            McpError::ClientInitialize(error) => failure.deep_view()
                == McpErrorView::ClientInitialize(error@),
            McpError::ServerInitialize(error) => failure.deep_view()
                == McpErrorView::ServerInitialize(error@),
            McpError::TransportCreation { transport, error } => failure.deep_view() == (
            McpErrorView::TransportCreation { transport: transport.deep_view(), error: error@ }),
            McpError::Runtime(error) => failure.deep_view() == McpErrorView::Runtime(error@),
            McpError::Service(error) => failure.deep_view() == McpErrorView::Service(
                error.deep_view(),
            ),
            McpError::Other(error) => failure.deep_view() == McpErrorView::Other(error@),
        },
        match request {
            RequestError::Mcp { code, message } => request.deep_view() == (RequestErrorView::Mcp {
                code,
                message: message@,
            }),
            RequestError::TransportSend(error) => request.deep_view()
                == RequestErrorView::TransportSend(error@),
            RequestError::TransportClosed => request.deep_view()
                == RequestErrorView::TransportClosed,
            RequestError::UnexpectedResponse => request.deep_view()
                == RequestErrorView::UnexpectedResponse,
            RequestError::Cancelled { reason: Some(reason) } => request.deep_view() == (
            RequestErrorView::Cancelled { reason: Some(reason@) }),
            RequestError::Cancelled { reason: None } => request.deep_view() == (
            RequestErrorView::Cancelled { reason: None }),
            RequestError::Timeout { timeout_secs } => request.deep_view() == (
            RequestErrorView::Timeout { timeout_secs }),
            RequestError::Other(error) => request.deep_view() == RequestErrorView::Other(error@),
        },
        match transport {
            TransportKind::ChildProcess => transport.deep_view() is ChildProcess,
            TransportKind::StreamableHttp => transport.deep_view() is StreamableHttp,
            TransportKind::Sse => transport.deep_view() is Sse,
            TransportKind::Named(name) => transport.deep_view() == TransportKindView::Named(name@),
        },
{
}

/// A description has the kind of the error that it is one of, and holds what the error
/// holds: the code and message of an answer, the reason of a cancellation, the seconds of a
/// timeout.
pub proof fn law_description_keeps_the_kind(described: McpErrorView, error: rmcp::RmcpError)
    requires
        describes(described, error),
    ensures
        described is ClientInitialize <==> error_contents(error) is ClientInitialize,
        described is ServerInitialize <==> error_contents(error) is ServerInitialize,
        described is TransportCreation <==> error_contents(error) is TransportCreation,
        described is Runtime <==> error_contents(error) is Runtime,
        described is Service <==> error_contents(error) is Service,
        described is Other <==> error_contents(error) is Other,
        described matches McpErrorView::Service(failed) ==> match request_contents(
            error_contents(error)->Service_0,
        ) {
            RequestContents::Mcp { code, message } => failed == (RequestErrorView::Mcp {
                code,
                message,
            }),
            RequestContents::TransportSend => failed is TransportSend,
            RequestContents::TransportClosed => failed is TransportClosed,
            RequestContents::UnexpectedResponse => failed is UnexpectedResponse,
            RequestContents::Cancelled { reason } => failed == (RequestErrorView::Cancelled {
                reason,
            }),
            RequestContents::Timeout { timeout_secs } => failed == (RequestErrorView::Timeout {
                timeout_secs,
            }),
            RequestContents::Other => failed is Other,
        },
{
}

} // verus!
