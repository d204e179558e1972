//! The headers that are sent, the client that sends them, and the first request.

use mcp_runtime::client::{
    build_client_with_headers, client_or_failure, initialize_request, make_client_info,
    prepare_initialize_request, ClientCapabilities,
};
use mcp_runtime::error::{McpError, TransportKind};
use mcp_runtime::headers::{build_header_map, collect_headers, StaticHeader};

fn header(name: &str, value: &str) -> StaticHeader {
    StaticHeader { name: name.to_string(), value: value.to_string() }
}

fn no_capabilities() -> ClientCapabilities {
    ClientCapabilities {
        experimental: None,
        extensions: None,
        roots: None,
        sampling: None,
        elicitation: None,
        tasks: None,
    }
}

#[test]
fn valid_headers_are_kept() {
    let map = build_header_map(&vec![header("X-Key", "one"), header("Other", "two words")]);
    assert_eq!(map.len(), 2);
    assert_eq!(map.get("x-key").unwrap().as_bytes(), b"one");
    assert_eq!(map.get("other").unwrap().as_bytes(), b"two words");
}

#[test]
fn invalid_headers_are_skipped_and_the_others_stay() {
    let map = build_header_map(&vec![
        header("", "empty name"),
        header("with space", "x"),
        header("umlaut-\u{e4}", "x"),
        header("control", "a\nb"),
        header("delete", "a\u{7f}"),
        header("tab", "a\tb"),
        header("empty", ""),
        header("wide", "\u{e4}"),
    ]);
    assert_eq!(map.len(), 3);
    assert_eq!(map.get("tab").unwrap().as_bytes(), b"a\tb");
    assert_eq!(map.get("empty").unwrap().as_bytes(), b"");
    assert_eq!(map.get("wide").unwrap().as_bytes(), "\u{e4}".as_bytes());
}

#[test]
fn names_that_differ_in_case_share_an_entry() {
    let map = build_header_map(&vec![header("A", "1"), header("a", "2")]);
    let values: Vec<&[u8]> = map.get_all("a").iter().map(|value| value.as_bytes()).collect();
    assert_eq!(values, vec![b"1".as_slice(), b"2".as_slice()]);
}

#[test]
fn the_longest_name_is_accepted_and_a_longer_one_is_not() {
    let longest = "x".repeat(65_535);
    let longer = "x".repeat(65_536);
    let map = build_header_map(&vec![header(&longest, "1"), header(&longer, "2")]);
    assert_eq!(map.len(), 1);
    assert_eq!(map.get(longest.as_str()).unwrap().as_bytes(), b"1");
}

#[test]
fn as_many_headers_as_allowed_fit() {
    let mut headers: Vec<StaticHeader> = Vec::new();
    for i in 0..mcp_runtime::headers::MAX_HEADERS {
        headers.push(header(&format!("name-{i}"), "value"));
    }
    assert_eq!(build_header_map(&headers).len(), mcp_runtime::headers::MAX_HEADERS);
    assert!(build_client_with_headers(&headers).is_ok());
}

#[test]
fn headers_are_collected_by_name() {
    let collected = collect_headers(&vec![
        header("a", "1"),
        header("b", "2"),
        header("a", "3"),
        header("A", "4"),
    ]);
    assert_eq!(collected, vec![header("a", "3"), header("b", "2"), header("A", "4")]);
    assert!(collect_headers(&Vec::new()).is_empty());
}

#[test]
fn a_client_is_built_with_headers() {
    let client = build_client_with_headers(&vec![header("x-key", "secret-value")]).unwrap();
    let shown = format!("{client:?}");
    assert!(shown.contains("x-key"), "{shown}");
    assert!(shown.contains("secret-value"), "{shown}");
    assert!(build_client_with_headers(&vec![header("bad name", "x")]).is_ok());
}

#[test]
fn a_client_that_cannot_be_built_is_a_failed_transport() {
    assert_eq!(client_or_failure::<u8>(Ok(3)), Ok(3));
    assert_eq!(
        client_or_failure::<u8>(Err("no TLS".to_string())),
        Err(McpError::TransportCreation {
            transport: TransportKind::StreamableHttp,
            error: "Failed to build client with headers: no TLS".to_string(),
        })
    );
}

#[test]
fn the_client_says_who_it_is() {
    let info = make_client_info("dev.app".to_string(), Some("v1.2".to_string()));
    assert_eq!(info.name, "dev.app");
    assert_eq!(info.version, "v1.2");
    assert_eq!(info.capabilities, no_capabilities());
    let info = make_client_info("dev.app".to_string(), None);
    assert_eq!(info.version, "");
    assert_eq!(info.capabilities, no_capabilities());
}

#[test]
fn the_first_request_opens_a_session() {
    let info = make_client_info("dev.app".to_string(), Some("v1.2".to_string()));
    let request = initialize_request("https://example.com/mcp", &info, false);
    assert_eq!(request.url, "https://example.com/mcp");
    assert_eq!(request.accept, "text/event-stream, application/json");
    assert!(!request.bearer);
    let body: serde_json::Value = serde_json::from_str(&request.body.unwrap()).unwrap();
    assert_eq!(body["jsonrpc"], "2.0");
    assert_eq!(body["id"], 0);
    assert_eq!(body["method"], "initialize");
    assert_eq!(body["params"]["capabilities"], serde_json::Value::from(serde_json::Map::new()));
    assert_eq!(body["params"]["clientInfo"]["name"], "dev.app");
    assert_eq!(body["params"]["clientInfo"]["version"], "v1.2");
    assert!(initialize_request("https://example.com/mcp", &info, true).bearer);
}

#[test]
fn the_first_request_comes_with_the_client_that_posts_it() {
    let info = make_client_info("dev.app".to_string(), None);
    let headers = vec![header("x-key", "secret-value")];
    let prepared =
        prepare_initialize_request("https://example.com/mcp", &headers, &info, true).unwrap();
    assert!(format!("{:?}", prepared.client).contains("x-key"));
    assert_eq!(prepared.request.url, "https://example.com/mcp");
    assert!(prepared.request.bearer);
    assert!(prepared.request.body.unwrap().contains("dev.app"));
}

#[test]
fn capabilities_are_told_to_the_server() {
    let mut info = make_client_info("dev.app".to_string(), None);
    let mut vendor = std::collections::BTreeMap::new();
    vendor.insert("vendor/x".to_string(), serde_json::Map::new());
    info.capabilities.experimental = Some(vendor.clone());
    info.capabilities.extensions = Some(vendor);
    info.capabilities.roots = Some(rmcp::model::RootsCapabilities { list_changed: Some(true) });
    info.capabilities.sampling = Some(Default::default());
    info.capabilities.elicitation = Some(Default::default());
    info.capabilities.tasks = Some(Default::default());
    let request = initialize_request("https://example.com/mcp", &info, false);
    let body: serde_json::Value = serde_json::from_str(&request.body.unwrap()).unwrap();
    let told = body["params"]["capabilities"].as_object().unwrap();
    let names: Vec<&str> = told.keys().map(|name| name.as_str()).collect();
    assert_eq!(names.len(), 6, "{names:?}");
    assert_eq!(told["roots"]["listChanged"], true);
    assert!(told["extensions"]["vendor/x"].is_object());
}

#[test]
fn a_client_sends_no_other_header_but_accept() {
    let client = build_client_with_headers(&vec![header("x-key", "1")]).unwrap();
    let shown = format!("{client:?}");
    assert!(shown.contains("\"accept\": \"*/*\""), "{shown}");
    let client = build_client_with_headers(&vec![header("Accept", "text/plain")]).unwrap();
    let shown = format!("{client:?}");
    assert!(shown.contains("\"accept\": \"text/plain\""), "{shown}");
    assert!(!shown.contains("*/*"), "{shown}");
}
