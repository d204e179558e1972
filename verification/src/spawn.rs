//! The course of starting an MCP server, one event at a time.
//!
//! Each step takes what came of the last action and says what is logged, what is done
//! next and what is remembered. Whoever drives it performs the actions.

use crate::capabilities::{self, Resource, ServerCapabilities, Tool};
use crate::child::{self, CLIServer, ChildCommand};
use crate::error::{McpError, RequestError, TransportKind};
use crate::headers::{self, StaticHeader};
use crate::server_info::TemplatableMCPServerInfo;
use crate::text;
use crate::transport::{self, ProbeEvent, ProbeState, ProbeStep, Transport};
use vstd::prelude::*;
use vstd::string::*;

verus! {

/// A server that is reached over HTTP.
#[derive(Debug, PartialEq, Eq)]
pub struct SSEServer {
    pub url: String,
    pub headers: Vec<StaticHeader>,
}

/// How a server is reached.
#[derive(Debug, PartialEq, Eq)]
pub enum TransportType {
    CLIServer(CLIServer),
    ServerSentEvents(SSEServer),
}

/// [`TransportType`] by its contents.
pub enum TransportTypeView {
    CLIServer(crate::child::CLIServerView),
    ServerSentEvents { url: Seq<char>, headers: Seq<crate::headers::HeaderView> },
}

impl DeepView for TransportType {
    type V = TransportTypeView;

    open spec fn deep_view(&self) -> TransportTypeView {
        match self {
            TransportType::CLIServer(server) => TransportTypeView::CLIServer(server.deep_view()),
            TransportType::ServerSentEvents(server) => TransportTypeView::ServerSentEvents {
                url: server.url@,
                headers: server.headers.deep_view(),
            },
        }
    }
}

/// Which server is being started.
#[derive(Debug, PartialEq, Eq)]
pub struct Identity {
    pub server_name: String,
    pub description: Option<String>,
    pub installation_id: uuid::Uuid,
}

/// [`Identity`] by its contents.
pub struct IdentityView {
    pub server_name: Seq<char>,
    pub description: Option<Seq<char>>,
    pub installation_id: uuid::Uuid,
}

impl DeepView for Identity {
    type V = IdentityView;

    open spec fn deep_view(&self) -> IdentityView {
        IdentityView {
            server_name: self.server_name@,
            description: self.description.deep_view(),
            installation_id: self.installation_id,
        }
    }
}

/// What is being waited for.
#[derive(Debug, PartialEq)]
pub enum Stage {
    /// A child process to be started.
    SpawningChild { command: String, cwd: Option<String> },
    /// The transport of a remote server to be determined.
    Probing {
        url: String,
        headers: Vec<StaticHeader>,
        has_auth_context: bool,
        probe: ProbeState,
    },
    /// A connection.
    Connecting { authenticated: bool },
    /// The list of resources.
    ListingResources { authenticated: bool, capabilities: Option<ServerCapabilities> },
    /// The list of tools.
    ListingTools {
        authenticated: bool,
        capabilities: Option<ServerCapabilities>,
        resources: Vec<Resource>,
    },
    /// Nothing any more.
    Over,
}

/// [`Stage`] by its contents.
pub enum StageView {
    SpawningChild { command: Seq<char>, cwd: Option<Seq<char>> },
    Probing {
        url: Seq<char>,
        headers: Seq<crate::headers::HeaderView>,
        has_auth_context: bool,
        probe: ProbeState,
    },
    Connecting { authenticated: bool },
    ListingResources { authenticated: bool, capabilities: Option<ServerCapabilities> },
    ListingTools {
        authenticated: bool,
        capabilities: Option<ServerCapabilities>,
        resources: Seq<Resource>,
    },
    Over,
}

impl DeepView for Stage {
    type V = StageView;

    open spec fn deep_view(&self) -> StageView {
        match self {
            Stage::SpawningChild { command, cwd } => StageView::SpawningChild {
                command: command@,
                cwd: cwd.deep_view(),
            },
            Stage::Probing { url, headers, has_auth_context, probe } => StageView::Probing {
                url: url@,
                headers: headers.deep_view(),
                has_auth_context: *has_auth_context,
                probe: *probe,
            },
            Stage::Connecting { authenticated } => StageView::Connecting {
                authenticated: *authenticated,
            },
            Stage::ListingResources { authenticated, capabilities } => StageView::ListingResources {
                authenticated: *authenticated,
                capabilities: *capabilities,
            },
            Stage::ListingTools {
                authenticated,
                capabilities,
                resources,
            } => StageView::ListingTools {
                authenticated: *authenticated,
                capabilities: *capabilities,
                resources: resources@,
            },
            Stage::Over => StageView::Over,
        }
    }
}

/// The client that a connection over HTTP is made with.
#[derive(Debug, PartialEq, Eq)]
pub enum ClientChoice {
    /// The client that was authenticated.
    Authenticated,
    /// A client of the transport's own.
    Plain,
    /// A client that sends these headers.
    WithHeaders(Vec<StaticHeader>),
}

/// [`ClientChoice`] by its contents.
pub enum ClientChoiceView {
    Authenticated,
    Plain,
    WithHeaders(Seq<crate::headers::HeaderView>),
}

impl DeepView for ClientChoice {
    type V = ClientChoiceView;

    open spec fn deep_view(&self) -> ClientChoiceView {
        match self {
            ClientChoice::Authenticated => ClientChoiceView::Authenticated,
            ClientChoice::Plain => ClientChoiceView::Plain,
            ClientChoice::WithHeaders(headers) => ClientChoiceView::WithHeaders(
                headers.deep_view(),
            ),
        }
    }
}

/// What is to be done next.
pub enum Action {
    /// Start a child process.
    SpawnChild(ChildCommand),
    /// Forward the standard error of the child process, under this identifier, and
    /// connect over its other streams.
    ServeChild { pid: String },
    /// Send the preflight request, with the authenticated client or without one.
    SendInitialize { url: String, headers: Vec<StaticHeader>, authenticated: bool },
    /// Get an authenticated client.
    Authenticate { server_name: String, url: String },
    /// Connect over the transport.
    Connect { transport: Transport, url: String, client: ClientChoice },
    /// List the resources.
    ListResources,
    /// List the tools.
    ListTools,
    /// The server has been started.
    Finish(TemplatableMCPServerInfo<()>),
    /// The server cannot be started.
    Fail(McpError),
}

/// [`Action`] by its contents.
pub enum ActionView {
    SpawnChild(crate::child::ChildCommandView),
    ServeChild { pid: Seq<char> },
    SendInitialize {
        url: Seq<char>,
        headers: Seq<crate::headers::HeaderView>,
        authenticated: bool,
    },
    Authenticate { server_name: Seq<char>, url: Seq<char> },
    Connect { transport: Transport, url: Seq<char>, client: ClientChoiceView },
    ListResources,
    ListTools,
    Finish(crate::server_info::ServerInfoView<()>),
    Fail(crate::error::McpErrorView),
}

impl DeepView for Action {
    type V = ActionView;

    open spec fn deep_view(&self) -> ActionView {
        match self {
            Action::SpawnChild(command) => ActionView::SpawnChild(command.deep_view()),
            Action::ServeChild { pid } => ActionView::ServeChild { pid: pid@ },
            Action::SendInitialize { url, headers, authenticated } => ActionView::SendInitialize {
                url: url@,
                headers: headers.deep_view(),
                authenticated: *authenticated,
            },
            Action::Authenticate { server_name, url } => ActionView::Authenticate {
                server_name: server_name@,
                url: url@,
            },
            Action::Connect { transport, url, client } => ActionView::Connect {
                transport: *transport,
                url: url@,
                client: client.deep_view(),
            },
            Action::ListResources => ActionView::ListResources,
            Action::ListTools => ActionView::ListTools,
            Action::Finish(info) => ActionView::Finish(info@),
            Action::Fail(error) => ActionView::Fail(error.deep_view()),
        }
    }
}

/// What came of an action.
#[derive(Debug, PartialEq)]
pub enum Event {
    /// The child process runs.
    ChildSpawned { pid: Option<u32> },
    /// The child process could not be started.
    ChildSpawnFailed { not_found: bool, error: String },
    /// The search for the transport of a remote server went on.
    Probe(ProbeEvent),
    /// The connection stands. With it come a description of the server and what it
    /// advertised, where it said who it is.
    Connected { server_info: String, capabilities: Option<ServerCapabilities> },
    /// The client with the configured headers could not be built.
    ClientBuildFailed(McpError),
    /// The transport over server-sent events could not be started.
    SseStartFailed(String),
    /// The session could not be opened.
    InitializationFailed(String),
    /// The call for the resources returned.
    ResourcesListed(Result<Vec<Resource>, RequestError>),
    /// The call for the tools returned.
    ToolsListed(Result<Vec<Tool>, RequestError>),
}

/// [`Event`] by its contents.
pub enum EventView {
    ChildSpawned { pid: Option<u32> },
    ChildSpawnFailed { not_found: bool, error: Seq<char> },
    Probe(crate::transport::ProbeEventView),
    Connected { server_info: Seq<char>, capabilities: Option<ServerCapabilities> },
    ClientBuildFailed(crate::error::McpErrorView),
    SseStartFailed(Seq<char>),
    InitializationFailed(Seq<char>),
    ResourcesListed(Result<Vec<Resource>, RequestError>),
    ToolsListed(Result<Vec<Tool>, RequestError>),
}

impl DeepView for Event {
    type V = EventView;

    open spec fn deep_view(&self) -> EventView {
        match self {
            Event::ChildSpawned { pid } => EventView::ChildSpawned { pid: *pid },
            Event::ChildSpawnFailed { not_found, error } => EventView::ChildSpawnFailed {
                not_found: *not_found,
                error: error@,
            },
            Event::Probe(event) => EventView::Probe(event.deep_view()),
            Event::Connected { server_info, capabilities } => EventView::Connected {
                server_info: server_info@,
                capabilities: *capabilities,
            },
            Event::ClientBuildFailed(error) => EventView::ClientBuildFailed(error.deep_view()),
            Event::SseStartFailed(error) => EventView::SseStartFailed(error@),
            Event::InitializationFailed(error) => EventView::InitializationFailed(error@),
            Event::ResourcesListed(outcome) => EventView::ResourcesListed(*outcome),
            Event::ToolsListed(outcome) => EventView::ToolsListed(*outcome),
        }
    }
}

/// A step of the course: what is remembered, logged and done.
pub struct Step {
    pub stage: Stage,
    pub log: Vec<String>,
    pub action: Action,
}

/// [`Step`] by its contents.
#[verifier::ext_equal]
pub struct StepView {
    pub stage: StageView,
    pub log: Seq<Seq<char>>,
    pub action: ActionView,
}

impl DeepView for Step {
    type V = StepView;

    open spec fn deep_view(&self) -> StepView {
        StepView {
            stage: self.stage.deep_view(),
            log: self.log.deep_view(),
            action: self.action.deep_view(),
        }
    }
}

/// Whether an event is one that is being waited for.
pub open spec fn accepts(stage: StageView, event: EventView) -> bool {
    match stage {
        StageView::SpawningChild { .. } => event is ChildSpawned || event is ChildSpawnFailed,
        StageView::Probing { probe, .. } => event matches EventView::Probe(event)
            && transport::probe_accepts(probe, event),
        StageView::Connecting { .. } => event is Connected || event is ClientBuildFailed || event is
            SseStartFailed || event is InitializationFailed,
        StageView::ListingResources { .. } => event is ResourcesListed,
        StageView::ListingTools { .. } => event is ToolsListed,
        StageView::Over => false,
    }
}

/// The note that every log starts with.
pub open spec fn secrets_note() -> Seq<char> {
    "[note] Attention! There may be sensitive information (such as API keys) in these logs. Make sure to redact any secrets before sharing with others."@
}

/// What is logged where the transport could not be determined.
pub open spec fn preflight_failure_line(error: Seq<char>) -> Seq<char> {
    "[error] MCP: preflight connection to MCP server failed: "@ + "Transport creation error: "@
        + error
}

/// What is logged of the transport over HTTP.
pub open spec fn transport_line(transport: Transport) -> Seq<char> {
    match transport {
        Transport::Http { .. } => "[info] MCP: Using Streaming HTTP transport"@,
        Transport::Sse { .. } =>
            "[info] MCP: Using (legacy) SSE transport (due to preflight failing with a 404)"@,
    }
}

/// The client that a connection is made with: the authenticated one where there is one,
/// else one that sends the headers where there are any.
pub open spec fn client_for(
    transport: Transport,
    headers: Seq<crate::headers::HeaderView>,
) -> ClientChoiceView {
    if transport::is_authenticated(transport) {
        ClientChoiceView::Authenticated
    } else if headers.len() == 0 {
        ClientChoiceView::Plain
    } else {
        ClientChoiceView::WithHeaders(headers)
    }
}

/// The end of a course that failed.
pub open spec fn failed(log: Seq<Seq<char>>, error: crate::error::McpErrorView) -> StepView {
    StepView { stage: StageView::Over, log, action: ActionView::Fail(error) }
}

/// The end of a course that succeeded.
pub open spec fn finished(
    identity: IdentityView,
    log: Seq<Seq<char>>,
    authenticated: bool,
    resources: Seq<Resource>,
    tools: Seq<Tool>,
) -> StepView {
    StepView {
        stage: StageView::Over,
        log,
        action: ActionView::Finish(
            crate::server_info::ServerInfoView {
                name: identity.server_name,
                service: (),
                resources,
                tools,
                installation_id: identity.installation_id,
                description: identity.description,
                is_authenticated_transport: authenticated,
            },
        ),
    }
}

/// How it goes on once the resources are known: the tools are listed where they were
/// advertised.
pub open spec fn resources_known(
    identity: IdentityView,
    log: Seq<Seq<char>>,
    authenticated: bool,
    capabilities: Option<ServerCapabilities>,
    resources: Seq<Resource>,
) -> StepView {
    if capabilities::advertises_tools(capabilities) {
        StepView {
            stage: StageView::ListingTools { authenticated, capabilities, resources },
            log,
            action: ActionView::ListTools,
        }
    } else {
        finished(identity, log, authenticated, resources, Seq::empty())
    }
}

/// How it goes on once the connection stands: the resources are listed where they were
/// advertised.
pub open spec fn connected(
    identity: IdentityView,
    authenticated: bool,
    server_info: Seq<char>,
    capabilities: Option<ServerCapabilities>,
) -> StepView {
    let log = seq!["[info] MCP: Connected to server: "@ + server_info];
    if capabilities::advertises_resources(capabilities) {
        StepView {
            stage: StageView::ListingResources { authenticated, capabilities },
            log,
            action: ActionView::ListResources,
        }
    } else {
        resources_known(identity, log, authenticated, capabilities, Seq::empty())
    }
}

/// How it goes on with the search for a transport.
pub open spec fn probed(
    identity: IdentityView,
    url: Seq<char>,
    headers: Seq<crate::headers::HeaderView>,
    has_auth_context: bool,
    step: crate::transport::ProbeStepView,
) -> StepView {
    match step {
        transport::ProbeStepView::Wait(probe) => StepView {
            stage: StageView::Probing { url, headers, has_auth_context, probe },
            log: Seq::empty(),
            action: match probe {
                ProbeState::Authenticating => ActionView::Authenticate {
                    server_name: identity.server_name,
                    url,
                },
                ProbeState::Preflight => ActionView::SendInitialize {
                    url,
                    headers,
                    authenticated: false,
                },
                ProbeState::AuthenticatedPreflight => ActionView::SendInitialize {
                    url,
                    headers,
                    authenticated: true,
                },
            },
        },
        transport::ProbeStepView::Use(used) => StepView {
            stage: StageView::Connecting { authenticated: transport::is_authenticated(used) },
            log: seq![transport_line(used)],
            action: ActionView::Connect {
                transport: used,
                url,
                client: client_for(used, headers),
            },
        },
        transport::ProbeStepView::Fail(error) => failed(
            match error {
                crate::error::McpErrorView::TransportCreation { error, .. } => seq![
                    preflight_failure_line(error),
                ],
                _ => Seq::empty(),
            },
            error,
        ),
    }
}

/// How it goes on after an event.
pub open spec fn step_after(identity: IdentityView, stage: StageView, event: EventView) -> StepView {
    match (stage, event) {
        (StageView::SpawningChild { .. }, EventView::ChildSpawned { pid }) => StepView {
            stage: StageView::Connecting { authenticated: false },
            log: Seq::empty(),
            action: ActionView::ServeChild { pid: child::pid_display(pid) },
        },
        (
            StageView::SpawningChild { command, cwd },
            EventView::ChildSpawnFailed { not_found, error },
        ) => failed(
            if not_found {
                seq![child::command_not_found(identity.server_name, command, cwd)]
            } else {
                Seq::empty()
            },
            crate::error::McpErrorView::TransportCreation {
                transport: crate::error::TransportKindView::ChildProcess,
                error,
            },
        ),
        (
            StageView::Probing { url, headers, has_auth_context, probe },
            EventView::Probe(event),
        ) => probed(
            identity,
            url,
            headers,
            has_auth_context,
            transport::probe_step(probe, event, has_auth_context),
        ),
        (
            StageView::Connecting { authenticated },
            EventView::Connected { server_info, capabilities },
        ) => connected(identity, authenticated, server_info, capabilities),
        (StageView::Connecting { .. }, EventView::ClientBuildFailed(error)) => failed(
            Seq::empty(),
            error,
        ),
        (StageView::Connecting { .. }, EventView::SseStartFailed(error)) => failed(
            Seq::empty(),
            crate::error::McpErrorView::TransportCreation {
                transport: crate::error::TransportKindView::Sse,
                error,
            },
        ),
        (StageView::Connecting { .. }, EventView::InitializationFailed(error)) => failed(
            Seq::empty(),
            crate::error::McpErrorView::ClientInitialize(error),
        ),
        (
            StageView::ListingResources { authenticated, capabilities },
            EventView::ResourcesListed(outcome),
        ) => resources_known(
            identity,
            Seq::empty(),
            authenticated,
            capabilities,
            capabilities::queried_resources(capabilities, outcome),
        ),
        (
            StageView::ListingTools { authenticated, capabilities, resources },
            EventView::ToolsListed(outcome),
        ) => finished(
            identity,
            Seq::empty(),
            authenticated,
            resources,
            capabilities::queried_tools(capabilities, outcome),
        ),
        _ => arbitrary(),
    }
}

/// The first step of starting a server.
pub open spec fn first_step(
    identity: IdentityView,
    transport_type: TransportTypeView,
    has_auth_context: bool,
    windows: bool,
) -> StepView {
    match transport_type {
        TransportTypeView::CLIServer(server) => StepView {
            stage: StageView::SpawningChild {
                command: child::program(windows, server.command),
                cwd: server.cwd_parameter,
            },
            log: seq![secrets_note(), "[info] MCP: Using stdio transport"@] + child::env_warnings(
                server.static_env_vars,
            ),
            action: ActionView::SpawnChild(
                child::ChildCommandView {
                    command: child::program(windows, server.command),
                    args: child::program_args(windows, server.command, server.args),
                    cwd: server.cwd_parameter,
                    env: child::passed_env(server.static_env_vars),
                },
            ),
        },
        TransportTypeView::ServerSentEvents { url, headers } => StepView {
            stage: StageView::Probing {
                url,
                headers: headers::collected(headers),
                has_auth_context,
                probe: ProbeState::Preflight,
            },
            log: seq![secrets_note()],
            action: ActionView::SendInitialize {
                url,
                headers: headers::collected(headers),
                authenticated: false,
            },
        },
    }
}

/// Copies headers.
fn copy_headers(headers: &Vec<StaticHeader>) -> (copy: Vec<StaticHeader>)
    ensures
        copy@ == headers@,
{
    let mut copy: Vec<StaticHeader> = Vec::new();
    let mut i: usize = 0;
    while i < headers.len()
        invariant
            i <= headers@.len(),
            copy@ == headers@.take(i as int),
        decreases headers@.len() - i,
    {
        copy.push(headers[i].clone());
        i = i + 1;
    }
    copy
}

/// Starts an MCP server: the first step of the course.
pub fn spawn_server(
    identity: &Identity,
    transport_type: TransportType,
    has_auth_context: bool,
    windows: bool,
) -> (step: Step)
    ensures
        step.deep_view() == first_step(
            identity.deep_view(),
            transport_type.deep_view(),
            has_auth_context,
            windows,
        ),
{
    let mut log: Vec<String> = Vec::new();
    log.push(
        "[note] Attention! There may be sensitive information (such as API keys) in these logs. Make sure to redact any secrets before sharing with others.".to_owned(),
    );
    match transport_type {
        TransportType::CLIServer(server) => {
            log.push("[info] MCP: Using stdio transport".to_owned());
            let (env, mut warnings) = child::child_environment(&server.static_env_vars);
            let ghost warned = warnings.deep_view();
            log.append(&mut warnings);
            let (command, args) = child::command_line(windows, server.command, server.args);
            let stage = Stage::SpawningChild {
                command: command.clone(),
                cwd: server.cwd_parameter.clone(),
            };
            proof {
                assert(log.deep_view() =~= seq![
                    secrets_note(),
                    "[info] MCP: Using stdio transport"@,
                ] + warned);
            }
            let command = ChildCommand { command, args, cwd: server.cwd_parameter, env };
            Step { stage, log, action: Action::SpawnChild(command) }
        },
        TransportType::ServerSentEvents(server) => {
            let headers = headers::collect_headers(&server.headers);
            let action = Action::SendInitialize {
                url: server.url.clone(),
                headers: copy_headers(&headers),
                authenticated: false,
            };
            let stage = Stage::Probing {
                url: server.url,
                headers,
                has_auth_context,
                probe: ProbeState::Preflight,
            };
            assert(log.deep_view() =~= seq![secrets_note()]);
            Step { stage, log, action }
        },
    }
}

/// Whether a status code has three digits, if the event brings one, and is waited for.
fn probe_is_expected(probe: ProbeState, event: &ProbeEvent) -> (expected: bool)
    ensures
        expected == transport::probe_accepts(probe, event.deep_view()),
{
    match (probe, event) {
        (ProbeState::Authenticating, ProbeEvent::Authenticated) => true,
        (ProbeState::Authenticating, ProbeEvent::AuthenticationFailed(_)) => true,
        (ProbeState::Authenticating, _) => false,
        (_, ProbeEvent::Status(code)) => 100 <= *code && *code <= 999,
        (_, ProbeEvent::RequestFailed(_)) => true,
        (_, _) => false,
    }
}

impl Stage {
    /// Whether an event is one that is being waited for.
    pub fn is_expected(&self, event: &Event) -> (expected: bool)
        ensures
            expected == accepts(self.deep_view(), event.deep_view()),
    {
        match (self, event) {
            (Stage::SpawningChild { .. }, Event::ChildSpawned { .. }) => true,
            (Stage::SpawningChild { .. }, Event::ChildSpawnFailed { .. }) => true,
            (Stage::Probing { probe, .. }, Event::Probe(event)) => probe_is_expected(
                *probe,
                event,
            ),
            (Stage::Connecting { .. }, Event::Connected { .. }) => true,
            (Stage::Connecting { .. }, Event::ClientBuildFailed(_)) => true,
            (Stage::Connecting { .. }, Event::SseStartFailed(_)) => true,
            (Stage::Connecting { .. }, Event::InitializationFailed(_)) => true,
            (Stage::ListingResources { .. }, Event::ResourcesListed(_)) => true,
            (Stage::ListingTools { .. }, Event::ToolsListed(_)) => true,
            _ => false,
        }
    }
}

/// The end of a course that failed.
fn fail(log: Vec<String>, error: McpError) -> (step: Step)
    ensures
        step.deep_view() == failed(log.deep_view(), error.deep_view()),
{
    Step { stage: Stage::Over, log, action: Action::Fail(error) }
}

/// A log of nothing.
fn no_log() -> (log: Vec<String>)
    ensures
        log.deep_view() == Seq::<Seq<char>>::empty(),
{
    let log: Vec<String> = Vec::new();
    assert(log.deep_view() =~= Seq::<Seq<char>>::empty());
    log
}

/// A log of one line.
fn one_line(line: String) -> (log: Vec<String>)
    ensures
        log.deep_view() == seq![line@],
{
    let mut log: Vec<String> = Vec::new();
    log.push(line);
    assert(log.deep_view() =~= seq![line@]);
    log
}

/// The end of a course that succeeded.
fn finish(
    identity: &Identity,
    log: Vec<String>,
    authenticated: bool,
    resources: Vec<Resource>,
    tools: Vec<Tool>,
) -> (step: Step)
    ensures
        step.deep_view() == finished(
            identity.deep_view(),
            log.deep_view(),
            authenticated,
            resources@,
            tools@,
        ),
{
    let info = TemplatableMCPServerInfo::new(
        identity.server_name.clone(),
        (),
        resources,
        tools,
        identity.installation_id,
        identity.description.clone(),
        authenticated,
    );
    Step { stage: Stage::Over, log, action: Action::Finish(info) }
}

/// Goes on with the tools.
fn query_tools(
    identity: &Identity,
    log: Vec<String>,
    authenticated: bool,
    capabilities: Option<ServerCapabilities>,
    resources: Vec<Resource>,
) -> (step: Step)
    ensures
        step.deep_view() == resources_known(
            identity.deep_view(),
            log.deep_view(),
            authenticated,
            capabilities,
            resources@,
        ),
{
    if capabilities::should_query_tools(capabilities.as_ref()) {
        Step {
            stage: Stage::ListingTools { authenticated, capabilities, resources },
            log,
            action: Action::ListTools,
        }
    } else {
        finish(identity, log, authenticated, resources, Vec::new())
    }
}

/// Goes on with the resources.
fn query_resources(
    identity: &Identity,
    authenticated: bool,
    server_info: String,
    capabilities: Option<ServerCapabilities>,
) -> (step: Step)
    ensures
        step.deep_view() == connected(
            identity.deep_view(),
            authenticated,
            server_info@,
            capabilities,
        ),
{
    let log = one_line(
        text::joined("[info] MCP: Connected to server: ", server_info.as_str()),
    );
    if capabilities::should_query_resources(capabilities.as_ref()) {
        Step {
            stage: Stage::ListingResources { authenticated, capabilities },
            log,
            action: Action::ListResources,
        }
    } else {
        query_tools(identity, log, authenticated, capabilities, Vec::new())
    }
}

/// Connects over a transport.
fn connect(transport: Transport, url: String, headers: Vec<StaticHeader>) -> (step: Step)
    ensures
        step.deep_view() == (StepView {
            stage: StageView::Connecting { authenticated: transport::is_authenticated(transport) },
            log: seq![transport_line(transport)],
            action: ActionView::Connect {
                transport,
                url: url@,
                client: client_for(transport, headers.deep_view()),
            },
        }),
{
    let (authenticated, line) = match transport {
        Transport::Http { authenticated } => (
            authenticated,
            "[info] MCP: Using Streaming HTTP transport",
        ),
        Transport::Sse { authenticated } => (
            authenticated,
            "[info] MCP: Using (legacy) SSE transport (due to preflight failing with a 404)",
        ),
    };
    let client = if authenticated {
        ClientChoice::Authenticated
    } else if headers.len() == 0 {
        ClientChoice::Plain
    } else {
        ClientChoice::WithHeaders(headers)
    };
    Step {
        stage: Stage::Connecting { authenticated },
        log: one_line(line.to_owned()),
        action: Action::Connect { transport, url, client },
    }
}

/// Goes on with the search for a transport.
fn probe_on(
    identity: &Identity,
    url: String,
    headers: Vec<StaticHeader>,
    has_auth_context: bool,
    step: ProbeStep,
) -> (next: Step)
    ensures
        next.deep_view() == probed(
            identity.deep_view(),
            url@,
            headers.deep_view(),
            has_auth_context,
            step.deep_view(),
        ),
{
    match step {
        ProbeStep::Wait(probe) => {
            let action = match probe {
                ProbeState::Authenticating => Action::Authenticate {
                    server_name: identity.server_name.clone(),
                    url: url.clone(),
                },
                ProbeState::Preflight => Action::SendInitialize {
                    url: url.clone(),
                    headers: copy_headers(&headers),
                    authenticated: false,
                },
                ProbeState::AuthenticatedPreflight => Action::SendInitialize {
                    url: url.clone(),
                    headers: copy_headers(&headers),
                    authenticated: true,
                },
            };
            Step {
                stage: Stage::Probing { url, headers, has_auth_context, probe },
                log: no_log(),
                action,
            }
        },
        ProbeStep::Use(transport) => connect(transport, url, headers),
        ProbeStep::Fail(error) => {
            let log = match &error {
                McpError::TransportCreation { error, .. } => {
                    let mut line = text::joined(
                        "[error] MCP: preflight connection to MCP server failed: ",
                        "Transport creation error: ",
                    );
                    line.append(error.as_str());
                    one_line(line)
                },
                _ => no_log(),
            };
            fail(log, error)
        },
    }
}

/// Goes on with starting an MCP server after an event.
pub fn spawn_server_step(identity: &Identity, stage: Stage, event: Event) -> (step: Step)
    requires
        accepts(stage.deep_view(), event.deep_view()),
    ensures
        step.deep_view() == step_after(
            identity.deep_view(),
            stage.deep_view(),
            event.deep_view(),
        ),
{
    match (stage, event) {
        (Stage::SpawningChild { .. }, Event::ChildSpawned { pid }) => Step {
            stage: Stage::Connecting { authenticated: false },
            log: no_log(),
            action: Action::ServeChild { pid: child::pid_text(pid) },
        },
        (Stage::SpawningChild { command, cwd }, Event::ChildSpawnFailed { not_found, error }) => {
            let log = if not_found {
                let cwd = match &cwd {
                    Some(cwd) => Some(cwd.as_str()),
                    None => None,
                };
                one_line(
                    child::command_not_found_line(
                        identity.server_name.as_str(),
                        command.as_str(),
                        cwd,
                    ),
                )
            } else {
                no_log()
            };
            fail(log, McpError::TransportCreation { transport: TransportKind::ChildProcess, error })
        },
        (Stage::Probing { url, headers, has_auth_context, probe }, Event::Probe(event)) => {
            let step = transport::determine_transport(probe, event, has_auth_context);
            probe_on(identity, url, headers, has_auth_context, step)
        },
        (Stage::Connecting { authenticated }, Event::Connected { server_info, capabilities }) =>
        query_resources(identity, authenticated, server_info, capabilities),
        (Stage::Connecting { .. }, Event::ClientBuildFailed(error)) => fail(no_log(), error),
        (Stage::Connecting { .. }, Event::SseStartFailed(error)) => fail(
            no_log(),
            McpError::TransportCreation { transport: TransportKind::Sse, error },
        ),
        (Stage::Connecting { .. }, Event::InitializationFailed(error)) => fail(
            no_log(),
            McpError::ClientInitialize(error),
        ),
        (
            Stage::ListingResources { authenticated, capabilities },
            Event::ResourcesListed(outcome),
        ) => {
            let list_resources = move || -> (returned: Result<Vec<Resource>, RequestError>)
                ensures
                    returned == outcome,
                {
                    outcome
                };
            let resources = capabilities::query_resources_for(
                capabilities.as_ref(),
                identity.server_name.as_str(),
                list_resources,
            );
            query_tools(identity, no_log(), authenticated, capabilities, resources)
        },
        (
            Stage::ListingTools { authenticated, capabilities, resources },
            Event::ToolsListed(outcome),
        ) => {
            let list_tools = move || -> (returned: Result<Vec<Tool>, RequestError>)
                ensures
                    returned == outcome,
                {
                    outcome
                };
            let tools = capabilities::query_tools_for(
                capabilities.as_ref(),
                identity.server_name.as_str(),
                list_tools,
            );
            finish(identity, no_log(), authenticated, resources, tools)
        },
        (_, _) => vstd::pervasive::unreached(),
    }
}

/// The step that a course has reached after some events.
pub open spec fn step_reached(
    identity: IdentityView,
    first: StepView,
    events: Seq<EventView>,
) -> StepView
    decreases events.len(),
{
    if events.len() == 0 {
        first
    } else {
        step_after(
            identity,
            step_reached(identity, first, events.drop_last()).stage,
            events.last(),
        )
    }
}

/// Whether each of some events was waited for when it came.
pub open spec fn is_course(identity: IdentityView, first: StepView, events: Seq<EventView>) -> bool
    decreases events.len(),
{
    events.len() > 0 ==> {
        &&& is_course(identity, first, events.drop_last())
        &&& accepts(step_reached(identity, first, events.drop_last()).stage, events.last())
    }
}

/// Whether some event is of a kind.
pub open spec fn some_event(events: Seq<EventView>, is_of_kind: spec_fn(EventView) -> bool) -> bool {
    exists|i: int| 0 <= i < events.len() && is_of_kind(#[trigger] events[i])
}

/// Whether an authenticated client was got.
pub open spec fn authenticated_by(events: Seq<EventView>) -> bool {
    some_event(
        events,
        |event: EventView| event == EventView::Probe(transport::ProbeEventView::Authenticated),
    )
}

/// What the server advertised when the connection stood, once it does.
pub open spec fn advertised_by(events: Seq<EventView>) -> Option<Option<ServerCapabilities>>
    decreases events.len(),
{
    if events.len() == 0 {
        None
    } else {
        match events.last() {
            EventView::Connected { capabilities, .. } => Some(capabilities),
            _ => advertised_by(events.drop_last()),
        }
    }
}

/// What the call for the resources came to; nothing was listed where none was made.
pub open spec fn resources_from(events: Seq<EventView>) -> Seq<Resource>
    decreases events.len(),
{
    if events.len() == 0 {
        Seq::empty()
    } else {
        match events.last() {
            EventView::ResourcesListed(outcome) => capabilities::listed(outcome),
            _ => resources_from(events.drop_last()),
        }
    }
}

/// What the call for the tools came to; nothing was listed where none was made.
pub open spec fn tools_from(events: Seq<EventView>) -> Seq<Tool>
    decreases events.len(),
{
    if events.len() == 0 {
        Seq::empty()
    } else {
        match events.last() {
            EventView::ToolsListed(outcome) => capabilities::listed(outcome),
            _ => tools_from(events.drop_last()),
        }
    }
}

/// Whether the call for the resources returned.
pub open spec fn resources_were_listed(events: Seq<EventView>) -> bool {
    some_event(events, |event: EventView| event is ResourcesListed)
}

/// Whether the call for the tools returned.
pub open spec fn tools_were_listed(events: Seq<EventView>) -> bool {
    some_event(events, |event: EventView| event is ToolsListed)
}

/// How many events can still come.
pub open spec fn stage_rank(stage: StageView) -> nat {
    match stage {
        StageView::SpawningChild { .. } => 4,
        StageView::Probing { probe, .. } => 3 + transport::probe_rank(probe),
        StageView::Connecting { .. } => 3,
        StageView::ListingResources { .. } => 2,
        StageView::ListingTools { .. } => 1,
        StageView::Over => 0,
    }
}

/// What the events so far have to do with the step that was reached.
spec fn course_invariant(identity: IdentityView, events: Seq<EventView>, step: StepView) -> bool {
    &&& stage_rank(step.stage) + events.len() <= 6
    &&& match step.stage {
        StageView::SpawningChild { .. } => {
            &&& !authenticated_by(events)
            &&& advertised_by(events) is None
            &&& !resources_were_listed(events) && resources_from(events) == Seq::<Resource>::empty()
            &&& !tools_were_listed(events) && tools_from(events) == Seq::<Tool>::empty()
        },
        StageView::Probing { probe, .. } => {
            &&& authenticated_by(events) == (probe == ProbeState::AuthenticatedPreflight)
            &&& advertised_by(events) is None
            &&& !resources_were_listed(events) && resources_from(events) == Seq::<Resource>::empty()
            &&& !tools_were_listed(events) && tools_from(events) == Seq::<Tool>::empty()
        },
        StageView::Connecting { authenticated } => {
            &&& authenticated_by(events) == authenticated
            &&& advertised_by(events) is None
            &&& !resources_were_listed(events) && resources_from(events) == Seq::<Resource>::empty()
            &&& !tools_were_listed(events) && tools_from(events) == Seq::<Tool>::empty()
        },
        StageView::ListingResources { authenticated, capabilities } => {
            &&& authenticated_by(events) == authenticated
            &&& advertised_by(events) == Some(capabilities)
            &&& capabilities::advertises_resources(capabilities)
            &&& !resources_were_listed(events) && resources_from(events) == Seq::<Resource>::empty()
            &&& !tools_were_listed(events) && tools_from(events) == Seq::<Tool>::empty()
        },
        StageView::ListingTools { authenticated, capabilities, resources } => {
            &&& authenticated_by(events) == authenticated
            &&& advertised_by(events) == Some(capabilities)
            &&& capabilities::advertises_tools(capabilities)
            &&& resources_were_listed(events) == capabilities::advertises_resources(capabilities)
            &&& resources_from(events) == resources
            &&& !tools_were_listed(events) && tools_from(events) == Seq::<Tool>::empty()
        },
        StageView::Over => step.action is Finish || step.action is Fail,
    }
    &&& step.action is Fail ==> advertised_by(events) is None
    &&& step.action matches ActionView::Finish(info) ==> {
        &&& info.name == identity.server_name
        &&& info.description == identity.description
        &&& info.installation_id == identity.installation_id
        &&& info.is_authenticated_transport == authenticated_by(events)
        &&& info.resources == resources_from(events)
        &&& info.tools == tools_from(events)
        &&& advertised_by(events) matches Some(capabilities)
        &&& resources_were_listed(events) == capabilities::advertises_resources(capabilities)
        &&& tools_were_listed(events) == capabilities::advertises_tools(capabilities)
    }
}

/// Some event is of a kind where the last one is, or some earlier one.
pub proof fn lemma_some_event(events: Seq<EventView>, is_of_kind: spec_fn(EventView) -> bool)
    requires
        events.len() > 0,
    ensures
        some_event(events, is_of_kind) == (some_event(events.drop_last(), is_of_kind) || is_of_kind(
            events.last(),
        )),
{
    let before = events.drop_last();
    if some_event(before, is_of_kind) {
        let i = choose|i: int| 0 <= i < before.len() && is_of_kind(#[trigger] before[i]);
        assert(events[i] == before[i]);
    }
    if is_of_kind(events.last()) {
        assert(events[events.len() - 1] == events.last());
    }
    if some_event(events, is_of_kind) && !is_of_kind(events.last()) {
        let i = choose|i: int| 0 <= i < events.len() && is_of_kind(#[trigger] events[i]);
        assert(before[i] == events[i]);
    }
}

/// The invariant holds all along a course.
proof fn lemma_course(
    identity: IdentityView,
    transport_type: TransportTypeView,
    has_auth_context: bool,
    windows: bool,
    events: Seq<EventView>,
)
    requires
        is_course(identity, first_step(identity, transport_type, has_auth_context, windows), events),
    ensures
        course_invariant(
            identity,
            events,
            step_reached(
                identity,
                first_step(identity, transport_type, has_auth_context, windows),
                events,
            ),
        ),
    decreases events.len(),
{
    let first = first_step(identity, transport_type, has_auth_context, windows);
    if events.len() > 0 {
        let before = events.drop_last();
        let last = events.last();
        lemma_course(identity, transport_type, has_auth_context, windows, before);
        lemma_some_event(
            events,
            |event: EventView| event == EventView::Probe(transport::ProbeEventView::Authenticated),
        );
        lemma_some_event(events, |event: EventView| event is ResourcesListed);
        lemma_some_event(events, |event: EventView| event is ToolsListed);
        let reached = step_reached(identity, first, before);
        match reached.stage {
            StageView::Probing { probe, has_auth_context, .. } => {
                transport::law_authenticated_only_after_authentication(
                    probe,
                    last->Probe_0,
                    has_auth_context,
                );
                transport::law_probe_ends(probe, last->Probe_0, has_auth_context);
            },
            _ => {},
        }
    }
}

/// Starting a server ends: after at most six events nothing is waited for any more, and
/// nothing is waited for exactly where the server has been started or has failed.
pub proof fn law_course_ends(
    identity: IdentityView,
    transport_type: TransportTypeView,
    has_auth_context: bool,
    windows: bool,
    events: Seq<EventView>,
)
    requires
        is_course(identity, first_step(identity, transport_type, has_auth_context, windows), events),
    ensures
        events.len() <= 6,
        ({
            let step = step_reached(
                identity,
                first_step(identity, transport_type, has_auth_context, windows),
                events,
            );
            &&& events.len() == 6 ==> step.stage is Over
            &&& step.stage is Over <==> step.action is Finish || step.action is Fail
        }),
{
    lemma_course(identity, transport_type, has_auth_context, windows, events);
    let first = first_step(identity, transport_type, has_auth_context, windows);
    if events.len() > 0 {
        lemma_course(identity, transport_type, has_auth_context, windows, events.drop_last());
    }
}

/// A server that has been started is the one that was asked for, and its transport is
/// authenticated exactly where an authenticated client was got on the way.
pub proof fn law_started_server_is_as_asked(
    identity: IdentityView,
    transport_type: TransportTypeView,
    has_auth_context: bool,
    windows: bool,
    events: Seq<EventView>,
)
    requires
        is_course(identity, first_step(identity, transport_type, has_auth_context, windows), events),
    ensures
        step_reached(
            identity,
            first_step(identity, transport_type, has_auth_context, windows),
            events,
        ).action matches ActionView::Finish(info) ==> {
            &&& info.name == identity.server_name
            &&& info.description == identity.description
            &&& info.installation_id == identity.installation_id
            &&& info.is_authenticated_transport == authenticated_by(events)
        },
{
    lemma_course(identity, transport_type, has_auth_context, windows, events);
}

/// Tools and resources are handled each on its own: each is listed exactly where it was
/// advertised, whatever became of the other, and what is known of it in the end is what
/// its own call came to, a failure being an empty list.
pub proof fn law_each_capability_is_listed_on_its_own(
    identity: IdentityView,
    transport_type: TransportTypeView,
    has_auth_context: bool,
    windows: bool,
    events: Seq<EventView>,
)
    requires
        is_course(identity, first_step(identity, transport_type, has_auth_context, windows), events),
    ensures
        step_reached(
            identity,
            first_step(identity, transport_type, has_auth_context, windows),
            events,
        ).action matches ActionView::Finish(info) ==> {
            &&& advertised_by(events) matches Some(capabilities)
            &&& resources_were_listed(events) == capabilities::advertises_resources(capabilities)
            &&& tools_were_listed(events) == capabilities::advertises_tools(capabilities)
            &&& info.resources == resources_from(events)
            &&& info.tools == tools_from(events)
        },
{
    lemma_course(identity, transport_type, has_auth_context, windows, events);
}

/// Once the connection stands, the start cannot fail any more: no failed list aborts it.
pub proof fn law_listing_does_not_abort(
    identity: IdentityView,
    transport_type: TransportTypeView,
    has_auth_context: bool,
    windows: bool,
    events: Seq<EventView>,
)
    requires
        is_course(identity, first_step(identity, transport_type, has_auth_context, windows), events),
        advertised_by(events) is Some,
    ensures
        !(step_reached(
            identity,
            first_step(identity, transport_type, has_auth_context, windows),
            events,
        ).action is Fail),
{
    lemma_course(identity, transport_type, has_auth_context, windows, events);
}

/// Every log starts with the note on secrets.
pub proof fn law_log_starts_with_the_note(
    identity: IdentityView,
    transport_type: TransportTypeView,
    has_auth_context: bool,
    windows: bool,
)
    ensures
        first_step(identity, transport_type, has_auth_context, windows).log.len() > 0,
        first_step(identity, transport_type, has_auth_context, windows).log[0] == secrets_note(),
{
}

} // verus!
