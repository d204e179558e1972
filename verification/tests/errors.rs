//! What the user is told of failures.

use std::time::Duration;

use mcp_runtime::error::{
    describe_request_error, describe_rmcp_error, failure_to_user_message,
    error_to_user_message, McpError, RequestError, TransportKind,
};
use mcp_runtime::text::decimal_text;

fn service(error: RequestError) -> String {
    failure_to_user_message(&McpError::Service(error))
}

#[test]
fn every_failure_has_its_message() {
    assert_eq!(
        failure_to_user_message(&McpError::ClientInitialize("c".to_string())),
        "Failed to initialize client: c"
    );
    assert_eq!(
        failure_to_user_message(&McpError::ServerInitialize("s".to_string())),
        "Failed to initialize server: s"
    );
    assert_eq!(
        failure_to_user_message(&McpError::TransportCreation {
            transport: TransportKind::Sse,
            error: "t".to_string(),
        }),
        "Failed to establish connection: t"
    );
    assert_eq!(failure_to_user_message(&McpError::Runtime("r".to_string())), "Runtime error: r");
    assert_eq!(failure_to_user_message(&McpError::Other("o".to_string())), "Error: o");
}

#[test]
fn every_failed_request_has_its_message() {
    assert_eq!(
        service(RequestError::Mcp { code: -32601, message: "m".to_string() }),
        "Server returned an error. Please check server logs for details."
    );
    assert_eq!(
        service(RequestError::TransportSend("x".to_string())),
        "Failed to send data to server. Connection may have been lost."
    );
    assert_eq!(
        service(RequestError::TransportClosed),
        "Connection closed unexpectedly. The server may have crashed."
    );
    assert_eq!(
        service(RequestError::UnexpectedResponse),
        "Server sent an unexpected response. The server may be incompatible."
    );
    assert_eq!(
        service(RequestError::Cancelled { reason: Some("because".to_string()) }),
        "Operation was cancelled with reason: because"
    );
    assert_eq!(
        service(RequestError::Cancelled { reason: None }),
        "Operation was cancelled with reason: Unknown reason"
    );
    assert_eq!(
        service(RequestError::Timeout { timeout_secs: 120 }),
        "Connection timed out after 120 seconds. The server may be unresponsive."
    );
    assert_eq!(service(RequestError::Other("o".to_string())), "Service error: o");
}

#[test]
fn numbers_are_written_in_decimal() {
    assert_eq!(decimal_text(0), "0");
    assert_eq!(decimal_text(9), "9");
    assert_eq!(decimal_text(10), "10");
    assert_eq!(decimal_text(1_002), "1002");
    assert_eq!(decimal_text(u64::MAX), "18446744073709551615");
}

#[test]
fn errors_of_rmcp_are_described() {
    let error = rmcp::RmcpError::transport_creation::<u8>("no route".to_string());
    assert_eq!(
        error_to_user_message(&error),
        "Failed to establish connection: no route"
    );
    assert_eq!(
        describe_rmcp_error(&error),
        McpError::TransportCreation {
            transport: TransportKind::Named("u8".to_string()),
            error: "no route".to_string(),
        }
    );
    let error = rmcp::RmcpError::ClientInitialize(
        rmcp::service::ClientInitializeError::ConnectionClosed("gone".to_string()),
    );
    assert_eq!(
        error_to_user_message(&error),
        "Failed to initialize client: connection closed: gone"
    );
    let error = rmcp::RmcpError::ServerInitialize(
        rmcp::service::ServerInitializeError::ConnectionClosed("gone".to_string()),
    );
    assert_eq!(
        error_to_user_message(&error),
        "Failed to initialize server: connection closed: gone"
    );
    assert_eq!(
        error_to_user_message(&rmcp::RmcpError::TaskError("t".to_string())),
        "Error: Task error: t"
    );
}

#[test]
fn a_failed_task_is_a_runtime_error() {
    let runtime = tokio::runtime::Builder::new_current_thread().build().unwrap();
    let failed = runtime.block_on(async {
        let task = tokio::spawn(std::future::pending::<()>());
        task.abort();
        task.await.unwrap_err()
    });
    let message = error_to_user_message(&rmcp::RmcpError::Runtime(failed));
    assert!(message.starts_with("Runtime error: "));
    assert!(message.len() > "Runtime error: ".len());
}

#[test]
fn failed_requests_of_rmcp_are_described() {
    assert_eq!(
        describe_request_error(&rmcp::ServiceError::McpError(rmcp::model::ErrorData::new(
            rmcp::model::ErrorCode::METHOD_NOT_FOUND,
            "nothing here",
            None,
        ))),
        RequestError::Mcp { code: -32601, message: "nothing here".to_string() }
    );
    let broken = rmcp::transport::DynamicTransportError::new::<
        rmcp::transport::TokioChildProcess,
        rmcp::RoleClient,
    >(std::io::Error::other("broken pipe"));
    let described = describe_request_error(&rmcp::ServiceError::TransportSend(broken));
    assert!(
        matches!(&described, RequestError::TransportSend(text) if text.contains("broken pipe")),
        "{described:?}"
    );
    assert_eq!(
        describe_request_error(&rmcp::ServiceError::TransportClosed),
        RequestError::TransportClosed
    );
    assert_eq!(
        describe_request_error(&rmcp::ServiceError::UnexpectedResponse),
        RequestError::UnexpectedResponse
    );
    assert_eq!(
        describe_request_error(&rmcp::ServiceError::Cancelled { reason: Some("r".to_string()) }),
        RequestError::Cancelled { reason: Some("r".to_string()) }
    );
    assert_eq!(
        describe_request_error(&rmcp::ServiceError::Timeout {
            timeout: Duration::from_millis(2_900),
        }),
        RequestError::Timeout { timeout_secs: 2 }
    );
    assert_eq!(
        error_to_user_message(&rmcp::RmcpError::Service(rmcp::ServiceError::Timeout {
            timeout: Duration::from_secs(30),
        })),
        "Connection timed out after 30 seconds. The server may be unresponsive."
    );
}
