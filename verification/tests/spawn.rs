//! The course of starting a server.

use std::sync::Arc;

use mcp_runtime::capabilities::{
    Resource, ResourcesCapability, ServerCapabilities, Tool, ToolsCapability,
};
use mcp_runtime::child::{CLIServer, ChildCommand, StaticEnvVar};
use mcp_runtime::error::{McpError, RequestError, TransportKind};
use mcp_runtime::headers::StaticHeader;
use mcp_runtime::server_info::TemplatableMCPServerInfo;
use mcp_runtime::spawn::{
    spawn_server, spawn_server_step, Action, ClientChoice, Event, Identity, SSEServer, Stage, Step,
    TransportType,
};
use mcp_runtime::transport::{ProbeEvent, ProbeState, Transport};

const NOTE: &str = "[note] Attention! There may be sensitive information (such as API keys) in \
                    these logs. Make sure to redact any secrets before sharing with others.";

fn identity() -> Identity {
    Identity {
        server_name: "srv".to_string(),
        description: Some("a server".to_string()),
        installation_id: uuid::Uuid::from_u128(5),
    }
}

fn header(name: &str, value: &str) -> StaticHeader {
    StaticHeader { name: name.to_string(), value: value.to_string() }
}

fn remote(headers: Vec<StaticHeader>) -> TransportType {
    TransportType::ServerSentEvents(SSEServer { url: "https://example.com".to_string(), headers })
}

fn cli() -> TransportType {
    TransportType::CLIServer(CLIServer {
        command: "npx".to_string(),
        args: vec!["server".to_string()],
        cwd_parameter: Some("/work".to_string()),
        static_env_vars: vec![
            StaticEnvVar { name: "KEY".to_string(), value: "1".to_string() },
            StaticEnvVar { name: "EMPTY".to_string(), value: String::new() },
        ],
    })
}

fn tool(name: &str) -> Tool {
    Tool {
        name: name.to_string(),
        title: None,
        description: None,
        input_schema: Arc::new(serde_json::Map::new()),
        output_schema: None,
        annotations: None,
        execution: None,
        icons: None,
        meta: None,
    }
}

fn resource(uri: &str) -> Resource {
    Resource {
        uri: uri.to_string(),
        name: "r".to_string(),
        title: None,
        description: None,
        mime_type: None,
        size: None,
        icons: None,
        meta: None,
        annotations: None,
    }
}

fn connected(tools: bool, resources: bool) -> Event {
    Event::Connected {
        server_info: "Some(info)".to_string(),
        capabilities: Some(ServerCapabilities {
            tools: if tools { Some(ToolsCapability { list_changed: None }) } else { None },
            resources: if resources {
                Some(ResourcesCapability { subscribe: None, list_changed: None })
            } else {
                None
            },
        }),
    }
}

fn after(step: Step, event: Event) -> Step {
    assert!(step.stage.is_expected(&event));
    spawn_server_step(&identity(), step.stage, event)
}

fn finished(step: Step) -> TemplatableMCPServerInfo<()> {
    assert_eq!(step.stage, Stage::Over);
    match step.action {
        Action::Finish(info) => info,
        _ => panic!("the server has not been started"),
    }
}

fn failed(step: Step) -> McpError {
    assert_eq!(step.stage, Stage::Over);
    match step.action {
        Action::Fail(error) => error,
        _ => panic!("the server has not failed"),
    }
}

fn connecting() -> Step {
    let step = spawn_server(&identity(), cli(), false, false);
    after(step, Event::ChildSpawned { pid: Some(12) })
}

#[test]
fn a_child_process_is_started_and_served() {
    let step = spawn_server(&identity(), cli(), false, false);
    assert_eq!(
        step.log,
        vec![
            NOTE.to_string(),
            "[info] MCP: Using stdio transport".to_string(),
            "[warn] MCP: Skipping empty environment variable: EMPTY".to_string(),
        ]
    );
    match &step.action {
        Action::SpawnChild(command) => assert_eq!(
            *command,
            ChildCommand {
                command: "npx".to_string(),
                args: vec!["server".to_string()],
                cwd: Some("/work".to_string()),
                env: vec![StaticEnvVar { name: "KEY".to_string(), value: "1".to_string() }],
            }
        ),
        _ => panic!("no child process is started"),
    }
    let step = after(step, Event::ChildSpawned { pid: None });
    assert_eq!(step.stage, Stage::Connecting { authenticated: false });
    assert!(matches!(&step.action, Action::ServeChild { pid } if pid == "??"));
}

#[test]
fn a_child_process_on_windows_goes_through_the_interpreter() {
    let step = spawn_server(&identity(), cli(), false, true);
    assert!(matches!(&step.action, Action::SpawnChild(command) if command.command == "cmd.exe"));
    let step = after(step, Event::ChildSpawnFailed { not_found: true, error: "e".to_string() });
    assert!(step.log[0].starts_with("[error] MCP: Failed to spawn 'srv': command 'cmd.exe' not"));
}

#[test]
fn a_child_process_that_is_not_found_is_logged() {
    let step = spawn_server(&identity(), cli(), false, false);
    let step = after(step, Event::ChildSpawnFailed { not_found: true, error: "none".to_string() });
    assert_eq!(
        step.log,
        vec!["[error] MCP: Failed to spawn 'srv': command 'npx' not found (cwd: /work). If your \
              MCP server depends on a specific working directory, set the `working_directory` \
              field in your config to override the default."
            .to_string()]
    );
    assert_eq!(
        failed(step),
        McpError::TransportCreation {
            transport: TransportKind::ChildProcess,
            error: "none".to_string(),
        }
    );
    let step = spawn_server(&identity(), cli(), false, false);
    let step = after(step, Event::ChildSpawnFailed { not_found: false, error: "x".to_string() });
    assert!(step.log.is_empty());
}

#[test]
fn a_remote_server_without_headers_gets_a_plain_client() {
    let step = spawn_server(&identity(), remote(Vec::new()), false, false);
    assert_eq!(step.log, vec![NOTE.to_string()]);
    assert!(matches!(&step.action, Action::SendInitialize { authenticated: false, .. }));
    let step = after(step, Event::Probe(ProbeEvent::Status(200)));
    assert_eq!(step.log, vec!["[info] MCP: Using Streaming HTTP transport".to_string()]);
    match &step.action {
        Action::Connect { transport, url, client } => {
            assert_eq!(*transport, Transport::Http { authenticated: false });
            assert_eq!(url, "https://example.com");
            assert_eq!(*client, ClientChoice::Plain);
        }
        _ => panic!("no connection is made"),
    }
}

#[test]
fn a_remote_server_with_headers_gets_a_client_that_sends_them() {
    let headers = vec![header("a", "1"), header("b", "2"), header("a", "3")];
    let step = spawn_server(&identity(), remote(headers), false, false);
    let collected = vec![header("a", "3"), header("b", "2")];
    assert!(matches!(&step.action, Action::SendInitialize { headers, .. } if *headers == collected));
    let step = after(step, Event::Probe(ProbeEvent::Status(404)));
    assert_eq!(
        step.log,
        vec!["[info] MCP: Using (legacy) SSE transport (due to preflight failing with a 404)"
            .to_string()]
    );
    match &step.action {
        Action::Connect { transport, client, .. } => {
            assert_eq!(*transport, Transport::Sse { authenticated: false });
            assert_eq!(*client, ClientChoice::WithHeaders(collected));
        }
        _ => panic!("no connection is made"),
    }
}

#[test]
fn authentication_is_gone_through_where_the_server_asks_for_it() {
    let step = spawn_server(&identity(), remote(vec![header("a", "1")]), true, false);
    let step = after(step, Event::Probe(ProbeEvent::Status(401)));
    match &step.action {
        Action::Authenticate { server_name, url } => {
            assert_eq!(server_name, "srv");
            assert_eq!(url, "https://example.com");
        }
        _ => panic!("no authentication is asked for"),
    }
    let step = after(step, Event::Probe(ProbeEvent::Authenticated));
    assert!(matches!(&step.action, Action::SendInitialize { authenticated: true, .. }));
    let step = after(step, Event::Probe(ProbeEvent::Status(200)));
    assert_eq!(step.stage, Stage::Connecting { authenticated: true });
    assert!(matches!(
        &step.action,
        Action::Connect { client: ClientChoice::Authenticated, .. }
    ));
    let step = after(step, connected(true, true));
    let step = after(step, Event::ResourcesListed(Ok(vec![resource("file:///a")])));
    let step = after(step, Event::ToolsListed(Ok(vec![tool("greet")])));
    let info = finished(step);
    assert!(info.is_authenticated_transport());
    assert_eq!(info.resources(), &vec![resource("file:///a")]);
    assert_eq!(info.tools(), &vec![tool("greet")]);
}

#[test]
fn a_failed_preflight_is_logged() {
    let step = spawn_server(&identity(), remote(Vec::new()), false, false);
    let step = after(step, Event::Probe(ProbeEvent::Status(503)));
    assert_eq!(
        step.log,
        vec!["[error] MCP: preflight connection to MCP server failed: Transport creation error: \
              Unexpected status code: 503 Service Unavailable"
            .to_string()]
    );
    assert_eq!(
        failed(step),
        McpError::TransportCreation {
            transport: TransportKind::StreamableHttp,
            error: "Unexpected status code: 503 Service Unavailable".to_string(),
        }
    );
}

#[test]
fn a_failed_connection_ends_the_start() {
    let step = after(connecting(), Event::InitializationFailed("closed".to_string()));
    assert_eq!(failed(step), McpError::ClientInitialize("closed".to_string()));
    let step = after(connecting(), Event::SseStartFailed("no stream".to_string()));
    assert_eq!(
        failed(step),
        McpError::TransportCreation {
            transport: TransportKind::Sse,
            error: "no stream".to_string(),
        }
    );
    let step = after(connecting(), Event::ClientBuildFailed(McpError::Other("x".to_string())));
    assert_eq!(failed(step), McpError::Other("x".to_string()));
}

#[test]
fn a_server_that_advertises_nothing_is_asked_for_nothing() {
    let step = after(connecting(), connected(false, false));
    assert_eq!(step.log, vec!["[info] MCP: Connected to server: Some(info)".to_string()]);
    let info = finished(step);
    assert_eq!(info.name(), "srv");
    assert_eq!(info.description(), Some("a server"));
    assert_eq!(info.installation_id(), uuid::Uuid::from_u128(5));
    assert!(!info.is_authenticated_transport());
    assert!(info.tools().is_empty() && info.resources().is_empty());
    let silent = Event::Connected { server_info: "None".to_string(), capabilities: None };
    let info = finished(after(connecting(), silent));
    assert!(info.tools().is_empty() && info.resources().is_empty());
}

#[test]
fn tools_are_listed_though_resources_failed() {
    let step = after(connecting(), connected(true, true));
    assert!(matches!(step.action, Action::ListResources));
    let step = after(step, Event::ResourcesListed(Err(RequestError::TransportClosed)));
    assert!(matches!(step.action, Action::ListTools));
    let step = after(step, Event::ToolsListed(Ok(vec![tool("greet")])));
    let info = finished(step);
    assert!(info.resources().is_empty());
    assert!(info.has_tool("greet"));
}

#[test]
fn resources_stay_though_tools_failed() {
    let step = after(connecting(), connected(true, true));
    let step = after(step, Event::ResourcesListed(Ok(vec![resource("file:///a")])));
    let step = after(step, Event::ToolsListed(Err(RequestError::UnexpectedResponse)));
    let info = finished(step);
    assert!(info.has_resource(&resource("file:///a")));
    assert!(info.tools().is_empty());
}

#[test]
fn only_what_was_advertised_is_listed() {
    let step = after(connecting(), connected(true, false));
    assert!(matches!(step.action, Action::ListTools));
    let step = after(connecting(), connected(false, true));
    assert!(matches!(step.action, Action::ListResources));
    let info = finished(after(step, Event::ResourcesListed(Ok(vec![resource("file:///a")]))));
    assert_eq!(info.resources().len(), 1);
    assert!(info.tools().is_empty());
}

#[test]
fn only_what_is_waited_for_is_expected() {
    let probing = Stage::Probing {
        url: String::new(),
        headers: Vec::new(),
        has_auth_context: true,
        probe: ProbeState::Preflight,
    };
    assert!(probing.is_expected(&Event::Probe(ProbeEvent::Status(100))));
    assert!(probing.is_expected(&Event::Probe(ProbeEvent::Status(999))));
    assert!(!probing.is_expected(&Event::Probe(ProbeEvent::Status(99))));
    assert!(!probing.is_expected(&Event::Probe(ProbeEvent::Status(1000))));
    assert!(!probing.is_expected(&Event::Probe(ProbeEvent::Authenticated)));
    assert!(!probing.is_expected(&connected(true, true)));
    let connecting = Stage::Connecting { authenticated: false };
    assert!(connecting.is_expected(&connected(true, true)));
    assert!(!connecting.is_expected(&Event::ToolsListed(Ok(Vec::new()))));
    assert!(!Stage::Over.is_expected(&connected(true, true)));
}
