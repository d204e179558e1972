//! What is logged of messages.

use mcp_runtime::message_log::{receive, received_line, send, sending_line, sent_line};

#[test]
fn lines_carry_their_labels() {
    assert_eq!(
        sending_line(Some("{}".to_string())),
        Some("[info] MCP: Sending request: {}".to_string())
    );
    assert_eq!(sending_line(None), None);
    assert_eq!(
        sent_line(Some("broken pipe".to_string())),
        Some("[warn] MCP: Failed to send request: broken pipe".to_string())
    );
    assert_eq!(sent_line(None), None);
    assert_eq!(
        received_line(Some("{}".to_string())),
        Some("[info] MCP: Received response: {}".to_string())
    );
    assert_eq!(received_line(None), None);
}

#[test]
fn a_request_is_logged_as_json() {
    let ping = rmcp::model::ClientJsonRpcMessage::request(
        rmcp::model::ClientRequest::PingRequest(Default::default()),
        rmcp::model::RequestId::Number(7),
    );
    let line = send(&ping).unwrap();
    let json = line.strip_prefix("[info] MCP: Sending request: ").unwrap();
    let body: serde_json::Value = serde_json::from_str(json).unwrap();
    assert_eq!(body["id"], 7);
    assert_eq!(body["method"], "ping");
}

#[test]
fn a_response_is_logged_as_json() {
    let response: rmcp::model::ServerJsonRpcMessage =
        serde_json::from_str("{\"jsonrpc\":\"2.0\",\"id\":3,\"result\":{}}").unwrap();
    let line = receive(Some(&response)).unwrap();
    let json = line.strip_prefix("[info] MCP: Received response: ").unwrap();
    let body: serde_json::Value = serde_json::from_str(json).unwrap();
    assert_eq!(body["id"], 3);
    assert_eq!(receive(None), None);
}
