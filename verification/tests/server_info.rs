//! What is known of a connected server.

use std::sync::Arc;

use mcp_runtime::capabilities::{JsonObject, Resource, Tool};
use mcp_runtime::server_info::TemplatableMCPServerInfo;

fn schema(kind: &str) -> Arc<JsonObject> {
    let mut schema = serde_json::Map::new();
    schema.insert("type".to_string(), serde_json::Value::from(kind));
    Arc::new(schema)
}

fn tool(name: &str, kind: &str) -> Tool {
    Tool {
        name: name.to_string(),
        title: None,
        description: None,
        input_schema: schema(kind),
        output_schema: None,
        annotations: None,
        execution: None,
        icons: None,
        meta: None,
    }
}

fn resource(uri: &str, name: &str) -> Resource {
    Resource {
        uri: uri.to_string(),
        name: name.to_string(),
        title: None,
        description: None,
        mime_type: None,
        size: None,
        icons: None,
        meta: None,
        annotations: None,
    }
}

fn info() -> TemplatableMCPServerInfo<u8> {
    TemplatableMCPServerInfo::new(
        "server".to_string(),
        7,
        vec![resource("file:///a", "a"), resource("file:///b", "b")],
        vec![tool("greet", "object"), tool("review", "array"), tool("greet", "string")],
        uuid::Uuid::from_u128(42),
        Some("a server".to_string()),
        true,
    )
}

#[test]
fn everything_can_be_read_back() {
    let info = info();
    assert_eq!(info.name(), "server");
    assert_eq!(info.resources().len(), 2);
    assert_eq!(info.resources()[1].uri, "file:///b");
    assert_eq!(info.tools().len(), 3);
    assert_eq!(info.tools()[1].name, "review");
    assert_eq!(info.installation_id(), uuid::Uuid::from_u128(42));
    assert_eq!(info.description(), Some("a server"));
    assert!(info.is_authenticated_transport());
    assert_eq!(*info.peer(), 7);
    assert_eq!(info.into_service(), 7);
}

#[test]
fn another_handle_changes_nothing_else() {
    let info = info().with_service("handle");
    assert_eq!(*info.peer(), "handle");
    assert_eq!(info.name(), "server");
    assert_eq!(info.tools().len(), 3);
    assert_eq!(info.resources().len(), 2);
    assert!(info.is_authenticated_transport());
}

#[test]
fn a_closed_transport_has_no_peer() {
    let info = info();
    assert_eq!(info.peer_if_connected(false), Some(&7));
    assert_eq!(info.peer_if_connected(true), None);
}

#[test]
fn tools_are_found_by_name() {
    let info = info();
    assert!(info.has_tool("greet"));
    assert!(info.has_tool("review"));
    assert!(!info.has_tool("Greet"));
    assert!(!info.has_tool(""));
}

#[test]
fn the_first_tool_of_a_name_gives_the_schema() {
    let info = info();
    assert_eq!(info.tool_input_schema("greet"), Some(schema("object")));
    assert_eq!(info.tool_input_schema("review"), Some(schema("array")));
    assert_eq!(info.tool_input_schema("absent"), None);
}

#[test]
fn resources_are_found_by_uri() {
    let info = info();
    assert!(info.has_resource(&resource("file:///a", "another name")));
    assert!(!info.has_resource(&resource("file:///c", "a")));
}

#[test]
fn a_uri_goes_before_a_name() {
    let info = info();
    assert!(info.has_resource_name_or_uri("a", None));
    assert!(!info.has_resource_name_or_uri("c", None));
    assert!(info.has_resource_name_or_uri("c", Some("file:///b")));
    assert!(!info.has_resource_name_or_uri("a", Some("file:///c")));
}

#[test]
fn a_server_without_a_description_has_none() {
    let info = TemplatableMCPServerInfo::new(
        String::new(),
        (),
        Vec::new(),
        Vec::new(),
        uuid::Uuid::nil(),
        None,
        false,
    );
    assert_eq!(info.description(), None);
    assert!(!info.is_authenticated_transport());
    assert!(!info.has_tool("greet"));
    assert!(!info.has_resource_name_or_uri("a", None));
}
