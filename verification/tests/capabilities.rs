//! Which lists are asked for, and what a failed list comes to.

use std::cell::Cell;
use std::sync::Arc;

use mcp_runtime::capabilities::{
    list_failure_line, query_resources_for, query_tools_for, should_query_resources, should_query_tools, ListKind,
    Resource,
    ResourcesCapability, ServerCapabilities, Tool, ToolsCapability,
};
use mcp_runtime::error::{describe_request_error, RequestError};

/// Build a `ServerCapabilities` with selected capability flags toggled on.
fn caps(tools: bool, resources: bool) -> ServerCapabilities {
    ServerCapabilities {
        tools: if tools { Some(ToolsCapability { list_changed: None }) } else { None },
        resources: if resources {
            Some(ResourcesCapability { subscribe: None, list_changed: None })
        } else {
            None
        },
    }
}

fn test_tool(name: &str) -> Tool {
    let mut schema = serde_json::Map::new();
    schema.insert("type".to_string(), serde_json::Value::from("object"));
    Tool {
        name: name.to_string(),
        title: None,
        description: Some("test tool".to_string()),
        input_schema: Arc::new(schema),
        output_schema: None,
        annotations: None,
        execution: None,
        icons: None,
        meta: None,
    }
}

fn test_resource(uri: &str) -> Resource {
    Resource {
        uri: uri.to_string(),
        name: "test resource".to_string(),
        title: None,
        description: None,
        mime_type: None,
        size: None,
        icons: None,
        meta: None,
        annotations: None,
    }
}

/// What a request that failed with this MCP error comes to.
fn mcp_error(message: &'static str) -> RequestError {
    describe_request_error(&rmcp::ServiceError::McpError(rmcp::model::ErrorData::new(
        rmcp::model::ErrorCode::METHOD_NOT_FOUND,
        message,
        None,
    )))
}

/// Each capability is queried independently of the other.
#[test]
fn each_capability_is_queried_independently() {
    for has_tools in [false, true] {
        for has_resources in [false, true] {
            let c = caps(has_tools, has_resources);
            assert_eq!(
                should_query_tools(Some(&c)),
                has_tools,
                "tools={has_tools}, resources={has_resources}",
            );
            assert_eq!(
                should_query_resources(Some(&c)),
                has_resources,
                "tools={has_tools}, resources={has_resources}",
            );
        }
    }
    assert!(!should_query_tools(None));
    assert!(!should_query_resources(None));
}

/// When `tools` is not advertised, the list call is skipped.
#[test]
fn query_tools_for_skips_listing_when_capability_not_advertised() {
    let calls: Cell<usize> = Cell::new(0);
    let no_caps = caps(false, false);
    let result = query_tools_for(Some(&no_caps), "srv", || {
        calls.set(calls.get() + 1);
        Ok(vec![test_tool("never")])
    });
    assert!(result.is_empty());
    assert_eq!(calls.get(), 0);
}

/// Skips `tools/list` when server info is absent.
#[test]
fn query_tools_for_skips_listing_when_server_info_is_none() {
    let calls: Cell<usize> = Cell::new(0);
    let result = query_tools_for(None, "srv", || {
        calls.set(calls.get() + 1);
        Ok(vec![test_tool("never")])
    });
    assert!(result.is_empty());
    assert_eq!(calls.get(), 0);
}

/// Returns listed tools when `tools` is advertised.
#[test]
fn query_tools_for_returns_listed_tools_when_capability_advertised() {
    let c = caps(true, false);
    let expected = vec![test_tool("greet"), test_tool("review")];
    let to_return = expected.clone();
    let result = query_tools_for(Some(&c), "srv", || Ok(to_return));
    assert_eq!(result, expected);
}

/// Returns an empty vector when the server lists no tools.
#[test]
fn query_tools_for_returns_empty_vec_when_server_lists_no_tools() {
    let c = caps(true, false);
    let calls: Cell<usize> = Cell::new(0);
    let result = query_tools_for(Some(&c), "srv", || {
        calls.set(calls.get() + 1);
        Ok(Vec::new())
    });
    assert!(result.is_empty());
    assert_eq!(calls.get(), 1);
}

/// A closed transport must not abort the start of a server.
#[test]
fn query_tools_for_returns_empty_on_transport_error() {
    let c = caps(true, false);
    let result = query_tools_for(Some(&c), "srv", || {
        Err(describe_request_error(&rmcp::ServiceError::TransportClosed))
    });
    assert!(result.is_empty());
}

/// MCP-protocol errors also fail soft.
#[test]
fn query_tools_for_returns_empty_on_mcp_error() {
    let c = caps(true, false);
    let result = query_tools_for(Some(&c), "srv", || Err(mcp_error("tools/list not implemented")));
    assert!(result.is_empty());
}

/// Calls the `tools/list` function exactly once per query.
#[test]
fn query_tools_for_calls_list_function_exactly_once() {
    let c = caps(true, false);
    let calls: Cell<usize> = Cell::new(0);
    let _ = query_tools_for(Some(&c), "srv", || {
        calls.set(calls.get() + 1);
        Ok(vec![test_tool("p")])
    });
    assert_eq!(calls.get(), 1);
}

/// Keeps the tools-listing decision independent of resource capability state.
#[test]
fn query_tools_for_decision_independent_of_other_capabilities() {
    let tools = vec![test_tool("x")];
    for has_tools in [false, true] {
        for has_resources in [false, true] {
            let c = caps(has_tools, has_resources);
            let to_return = tools.clone();
            let result = query_tools_for(Some(&c), "srv", || Ok(to_return));
            if has_tools {
                assert_eq!(result, tools);
            } else {
                assert!(result.is_empty());
            }
        }
    }
}

/// Skips `resources/list` when `resources` is not advertised.
#[test]
fn query_resources_for_skips_listing_when_capability_not_advertised() {
    let calls: Cell<usize> = Cell::new(0);
    let no_caps = caps(false, false);
    let result = query_resources_for(Some(&no_caps), "srv", || {
        calls.set(calls.get() + 1);
        Ok(vec![test_resource("file:///nope")])
    });
    assert!(result.is_empty());
    assert_eq!(calls.get(), 0);
}

/// Skips `resources/list` when server info is absent.
#[test]
fn query_resources_for_skips_listing_when_server_info_is_none() {
    let calls: Cell<usize> = Cell::new(0);
    let result = query_resources_for(None, "srv", || {
        calls.set(calls.get() + 1);
        Ok(vec![test_resource("file:///nope")])
    });
    assert!(result.is_empty());
    assert_eq!(calls.get(), 0);
}

/// Returns listed resources when `resources` is advertised.
#[test]
fn query_resources_for_returns_listed_resources_when_capability_advertised() {
    let c = caps(false, true);
    let expected = vec![test_resource("file:///a"), test_resource("file:///b")];
    let to_return = expected.clone();
    let result = query_resources_for(Some(&c), "srv", || Ok(to_return));
    assert_eq!(result, expected);
}

/// Fails soft when `resources/list` sees a transport error.
#[test]
fn query_resources_for_returns_empty_on_transport_error() {
    let c = caps(false, true);
    let result = query_resources_for(Some(&c), "srv", || {
        Err(describe_request_error(&rmcp::ServiceError::TransportClosed))
    });
    assert!(result.is_empty());
}

/// Fails soft when `resources/list` returns an MCP protocol error.
#[test]
fn query_resources_for_returns_empty_on_mcp_error() {
    let c = caps(false, true);
    let result =
        query_resources_for(Some(&c), "srv", || Err(mcp_error("resources/list not implemented")));
    assert!(result.is_empty());
}

/// Calls the `resources/list` function exactly once per query.
#[test]
fn query_resources_for_calls_list_function_exactly_once() {
    let c = caps(false, true);
    let calls: Cell<usize> = Cell::new(0);
    let _ = query_resources_for(Some(&c), "srv", || {
        calls.set(calls.get() + 1);
        Ok(vec![test_resource("file:///a")])
    });
    assert_eq!(calls.get(), 1);
}

/// A capability counts as advertised whatever it says of itself.
#[test]
fn flags_within_a_capability_decide_nothing() {
    let c = ServerCapabilities {
        tools: Some(ToolsCapability { list_changed: Some(false) }),
        resources: Some(ResourcesCapability { subscribe: Some(false), list_changed: Some(true) }),
    };
    assert!(should_query_tools(Some(&c)));
    assert!(should_query_resources(Some(&c)));
}

/// A list that could not be had is named with its server and the reason.
#[test]
fn a_failed_list_is_named() {
    assert_eq!(
        list_failure_line(ListKind::Tools, "srv", "Transport closed"),
        "Failed to list tools for MCP server 'srv': Transport closed"
    );
    assert_eq!(
        list_failure_line(ListKind::Resources, "", "x"),
        "Failed to list resources for MCP server '': x"
    );
}
