//! What holds of starting a server, told by what was configured and what came of it.

use crate::capabilities::{Resource, ServerCapabilities, Tool};
use crate::child;
use crate::error::RequestError;
use crate::headers;
use crate::spawn::{self, Event, Identity, Stage, Step, TransportType};
use crate::text;
use crate::transport::{self, ProbeState, Transport};
use vstd::prelude::*;

verus! {

/// A configured program is started with its own command and arguments, through the command
/// interpreter on Windows. It has a working directory exactly where one is configured, and
/// then that one. Of the variables it gets those that are not empty, in their order; the
/// others are warned of behind the two lines that every such log starts with.
pub proof fn law_program_is_started_as_configured(
    identity: crate::spawn::IdentityView,
    server: crate::child::CLIServerView,
    has_auth_context: bool,
    windows: bool,
)
    ensures
        ({
            let step = spawn::first_step(
                identity,
                spawn::TransportTypeView::CLIServer(server),
                has_auth_context,
                windows,
            );
            let unset = server.static_env_vars.filter(
                |var: crate::child::EnvVarView| var.value.len() == 0,
            );
            &&& step.action matches spawn::ActionView::SpawnChild(started)
            &&& started.cwd == server.cwd_parameter
            &&& !windows ==> started.command == server.command && started.args == server.args
            &&& windows ==> {
                &&& started.command == "cmd.exe"@
                &&& started.args == seq!["/c"@, server.command] + server.args
            }
            &&& started.env == server.static_env_vars.filter(
                |var: crate::child::EnvVarView| var.value.len() > 0,
            )
            &&& step.stage == (spawn::StageView::SpawningChild {
                command: started.command,
                cwd: server.cwd_parameter,
            })
            &&& step.log.len() == 2 + unset.len()
            &&& step.log[0]
                == "[note] Attention! There may be sensitive information (such as API keys) in these logs. Make sure to redact any secrets before sharing with others."@
            &&& step.log[1] == "[info] MCP: Using stdio transport"@
            &&& forall|i: int|
                0 <= i < unset.len() ==> step.log[2 + i]
                    == "[warn] MCP: Skipping empty environment variable: "@ + (
                #[trigger] unset[i]).name
        }),
{
    child::law_command_is_started_as_configured(server.command, server.args);
    child::law_variables_are_parted_in_order(server.static_env_vars);
    assert(child::program_args(true, server.command, server.args) =~= seq!["/c"@, server.command]
        + server.args);
}

/// A remote server is first asked without authentication, at the configured URL and with
/// the last header of each configured name; these are also what is remembered.
pub proof fn law_remote_server_is_asked_as_configured(
    identity: crate::spawn::IdentityView,
    url: Seq<char>,
    headers: Seq<crate::headers::HeaderView>,
    has_auth_context: bool,
    windows: bool,
)
    ensures
        ({
            let step = spawn::first_step(
                identity,
                spawn::TransportTypeView::ServerSentEvents { url, headers },
                has_auth_context,
                windows,
            );
            &&& step.action matches spawn::ActionView::SendInitialize {
                url: asked,
                headers: sent,
                authenticated,
            }
            &&& asked == url && !authenticated
            &&& headers::gathers(sent, headers)
            &&& sent.len() == 0 <==> headers.len() == 0
            &&& step.stage == (spawn::StageView::Probing {
                url,
                headers: sent,
                has_auth_context,
                probe: ProbeState::Preflight,
            })
            &&& step.log.len() == 1
            &&& step.log[0]
                == "[note] Attention! There may be sensitive information (such as API keys) in these logs. Make sure to redact any secrets before sharing with others."@
        }),
{
    headers::law_last_header_of_each_name_is_kept(headers);
}

/// Whether headers are the configured ones: the last header of each configured name, and
/// none exactly where none is configured.
pub open spec fn are_the_configured(
    sent: Seq<crate::headers::HeaderView>,
    configured: Seq<crate::headers::HeaderView>,
) -> bool {
    headers::gathers(sent, configured) && (sent.len() == 0 <==> configured.len() == 0)
}

/// Whether an action of starting a remote server is as configured. Every request and every
/// connection goes to the configured URL. A request carries the configured headers, and is
/// authenticated where an authenticated client was got. Authentication is asked for under
/// the name of the server, and only where it is possible. A connection is made with the
/// authenticated client where there is one; otherwise with the configured headers where
/// there are any, over either transport, and with a plain client exactly where there are
/// none. No child process is started.
pub open spec fn is_as_configured(
    identity: crate::spawn::IdentityView,
    url: Seq<char>,
    configured: Seq<crate::headers::HeaderView>,
    has_auth_context: bool,
    authenticated: bool,
    action: crate::spawn::ActionView,
) -> bool {
    match action {
        spawn::ActionView::SpawnChild(_) => false,
        spawn::ActionView::ServeChild { .. } => false,
        spawn::ActionView::SendInitialize { url: asked, headers, authenticated: bearer } => {
            &&& asked == url
            &&& are_the_configured(headers, configured)
            &&& bearer == authenticated
        },
        spawn::ActionView::Authenticate { server_name, url: asked } => {
            &&& server_name == identity.server_name
            &&& asked == url
            &&& has_auth_context && !authenticated
        },
        spawn::ActionView::Connect { transport, url: reached, client } => {
            &&& reached == url
            &&& transport == (Transport::Http { authenticated }) || transport == (Transport::Sse {
                authenticated,
            })
            &&& match client {
                spawn::ClientChoiceView::Authenticated => authenticated,
                spawn::ClientChoiceView::Plain => !authenticated && configured.len() == 0,
                spawn::ClientChoiceView::WithHeaders(headers) => {
                    &&& !authenticated && configured.len() > 0
                    &&& are_the_configured(headers, configured)
                },
            }
        },
        _ => true,
    }
}

/// All along the course of starting a remote server, every action is as configured,
/// whatever the server answers and whichever transport is chosen.
pub proof fn law_remote_server_is_started_as_configured(
    identity: crate::spawn::IdentityView,
    url: Seq<char>,
    headers: Seq<crate::headers::HeaderView>,
    has_auth_context: bool,
    windows: bool,
    events: Seq<crate::spawn::EventView>,
)
    requires
        spawn::is_course(
            identity,
            spawn::first_step(
                identity,
                spawn::TransportTypeView::ServerSentEvents { url, headers },
                has_auth_context,
                windows,
            ),
            events,
        ),
    ensures
        ({
            let step = spawn::step_reached(
                identity,
                spawn::first_step(
                    identity,
                    spawn::TransportTypeView::ServerSentEvents { url, headers },
                    has_auth_context,
                    windows,
                ),
                events,
            );
            is_as_configured(
                identity,
                url,
                headers,
                has_auth_context,
                spawn::authenticated_by(events),
                step.action,
            )
        }),
{
    lemma_remote_course(identity, url, headers, has_auth_context, windows, events);
}

/// What is remembered, and the action, are as configured all along the course.
proof fn lemma_remote_course(
    identity: crate::spawn::IdentityView,
    url: Seq<char>,
    headers: Seq<crate::headers::HeaderView>,
    has_auth_context: bool,
    windows: bool,
    events: Seq<crate::spawn::EventView>,
)
    requires
        spawn::is_course(
            identity,
            spawn::first_step(
                identity,
                spawn::TransportTypeView::ServerSentEvents { url, headers },
                has_auth_context,
                windows,
            ),
            events,
        ),
    ensures
        ({
            let step = spawn::step_reached(
                identity,
                spawn::first_step(
                    identity,
                    spawn::TransportTypeView::ServerSentEvents { url, headers },
                    has_auth_context,
                    windows,
                ),
                events,
            );
            &&& is_as_configured(
                identity,
                url,
                headers,
                has_auth_context,
                spawn::authenticated_by(events),
                step.action,
            )
            &&& !(step.stage is SpawningChild)
            &&& step.stage matches spawn::StageView::Probing {
                url: asked,
                headers: sent,
                has_auth_context: possible,
                probe,
            } ==> {
                &&& asked == url && possible == has_auth_context
                &&& are_the_configured(sent, headers)
                &&& spawn::authenticated_by(events) == (probe is AuthenticatedPreflight)
            }
        }),
    decreases events.len(),
{
    let transport_type = spawn::TransportTypeView::ServerSentEvents { url, headers };
    let first = spawn::first_step(identity, transport_type, has_auth_context, windows);
    let authentication = |event: crate::spawn::EventView|
        event == spawn::EventView::Probe(transport::ProbeEventView::Authenticated);
    law_remote_server_is_asked_as_configured(identity, url, headers, has_auth_context, windows);
    if events.len() > 0 {
        let before = events.drop_last();
        let last = events.last();
        lemma_remote_course(identity, url, headers, has_auth_context, windows, before);
        spawn::lemma_some_event(events, authentication);
        let reached = spawn::step_reached(identity, first, before);
        match reached.stage {
            spawn::StageView::Probing { probe, has_auth_context, .. } => {
                transport::law_authenticated_only_after_authentication(
                    probe,
                    last->Probe_0,
                    has_auth_context,
                );
            },
            _ => {},
        }
    }
}

/// A child process that runs is served under its number, without authentication.
pub proof fn law_running_child_is_served(
    identity: crate::spawn::IdentityView,
    command: Seq<char>,
    cwd: Option<Seq<char>>,
    pid: Option<u32>,
)
    ensures
        ({
            let step = spawn::step_after(
                identity,
                spawn::StageView::SpawningChild { command, cwd },
                spawn::EventView::ChildSpawned { pid },
            );
            &&& step.stage == (spawn::StageView::Connecting { authenticated: false })
            &&& step.log.len() == 0
            &&& step.action == (spawn::ActionView::ServeChild {
                pid: match pid {
                    Some(pid) => text::decimal(pid as nat),
                    None => "??"@,
                },
            })
        }),
{
}

/// A child process that cannot be started ends the start with its own reason. Only a
/// program that is not found is logged, with its server, command and directory.
pub proof fn law_child_that_does_not_start_fails(
    identity: crate::spawn::IdentityView,
    command: Seq<char>,
    cwd: Option<Seq<char>>,
    not_found: bool,
    error: Seq<char>,
)
    ensures
        ({
            let step = spawn::step_after(
                identity,
                spawn::StageView::SpawningChild { command, cwd },
                spawn::EventView::ChildSpawnFailed { not_found, error },
            );
            &&& step.stage is Over
            &&& step.action == spawn::ActionView::Fail(
                crate::error::McpErrorView::TransportCreation {
                    transport: crate::error::TransportKindView::ChildProcess,
                    error,
                },
            )
            &&& !not_found ==> step.log.len() == 0
            &&& not_found ==> step.log.len() == 1 && step.log[0]
                == "[error] MCP: Failed to spawn '"@ + identity.server_name + "': command '"@
                + command + "' not found (cwd: "@ + (match cwd {
                Some(cwd) => cwd,
                None => "<inherited from Warp's process cwd>"@,
            })
                + "). If your MCP server depends on a specific working directory, set the `working_directory` field in your config to override the default."@
        }),
{
}

/// How it goes on while the transport of a remote server is searched: as the status code
/// or the failure decides, with what is remembered unchanged. A transport that is used is
/// told by its own line, and a failure is logged with its reason and handed on.
pub proof fn law_search_goes_on_as_decided(
    identity: crate::spawn::IdentityView,
    url: Seq<char>,
    headers: Seq<crate::headers::HeaderView>,
    has_auth_context: bool,
    probe: ProbeState,
    event: crate::transport::ProbeEventView,
)
    ensures
        ({
            let step = spawn::step_after(
                identity,
                spawn::StageView::Probing { url, headers, has_auth_context, probe },
                spawn::EventView::Probe(event),
            );
            match transport::probe_step(probe, event, has_auth_context) {
                transport::ProbeStepView::Wait(next) => {
                    &&& step.stage == (spawn::StageView::Probing {
                        url,
                        headers,
                        has_auth_context,
                        probe: next,
                    })
                    &&& step.log.len() == 0
                    &&& next is Authenticating ==> step.action == (spawn::ActionView::Authenticate {
                        server_name: identity.server_name,
                        url,
                    })
                    &&& !(next is Authenticating) ==> step.action == (
                    spawn::ActionView::SendInitialize {
                        url,
                        headers,
                        authenticated: next is AuthenticatedPreflight,
                    })
                },
                transport::ProbeStepView::Use(used) => {
                    &&& used matches Transport::Http { authenticated } ==> {
                        &&& step.stage == (spawn::StageView::Connecting { authenticated })
                        &&& step.log == seq!["[info] MCP: Using Streaming HTTP transport"@]
                    }
                    &&& used matches Transport::Sse { authenticated } ==> {
                        &&& step.stage == (spawn::StageView::Connecting { authenticated })
                        &&& step.log == seq![
                            "[info] MCP: Using (legacy) SSE transport (due to preflight failing with a 404)"@,
                        ]
                    }
                    &&& step.action matches spawn::ActionView::Connect {
                        transport,
                        url: reached,
                        ..
                    }
                    &&& transport == used && reached == url
                },
                transport::ProbeStepView::Fail(failure) => {
                    &&& step.stage is Over
                    &&& step.action == spawn::ActionView::Fail(failure)
                    &&& failure matches crate::error::McpErrorView::TransportCreation {
                        error,
                        ..
                    } ==> step.log == seq![
                        "[error] MCP: preflight connection to MCP server failed: "@
                            + "Transport creation error: "@ + error,
                    ]
                },
            }
        }),
{
}

/// The client of a connection, by the transport and the headers that are remembered: the
/// authenticated one over an authenticated transport, and otherwise one that sends exactly
/// these headers, or a plain one where there are none, whichever the transport is.
pub proof fn law_client_sends_what_is_remembered(
    transport: Transport,
    headers: Seq<crate::headers::HeaderView>,
)
    ensures
        ({
            let authenticated = match transport {
                Transport::Http { authenticated } => authenticated,
                Transport::Sse { authenticated } => authenticated,
            };
            let client = spawn::client_for(transport, headers);
            &&& client is Authenticated <==> authenticated
            &&& client is Plain <==> !authenticated && headers.len() == 0
            &&& client matches spawn::ClientChoiceView::WithHeaders(sent) ==> sent == headers
        }),
{
}

/// Whether an action finishes the start with a server that is the one asked for and has
/// these resources and tools.
pub open spec fn finishes_with(
    action: crate::spawn::ActionView,
    identity: crate::spawn::IdentityView,
    authenticated: bool,
    resources: Seq<Resource>,
    tools: Seq<Tool>,
) -> bool {
    &&& action matches spawn::ActionView::Finish(info)
    &&& info.name == identity.server_name
    &&& info.description == identity.description
    &&& info.installation_id == identity.installation_id
    &&& info.is_authenticated_transport == authenticated
    &&& info.resources == resources
    &&& info.tools == tools
}

/// Once the connection stands it is logged with what the server said of itself. Then the
/// resources are listed where the server mentioned them, else the tools where it mentioned
/// those, and else the start is over.
pub proof fn law_connected_server_is_asked_for_what_it_mentioned(
    identity: crate::spawn::IdentityView,
    authenticated: bool,
    server_info: Seq<char>,
    capabilities: Option<ServerCapabilities>,
)
    ensures
        ({
            let step = spawn::step_after(
                identity,
                spawn::StageView::Connecting { authenticated },
                spawn::EventView::Connected { server_info, capabilities },
            );
            let has_resources = capabilities is Some && capabilities->0.resources is Some;
            let has_tools = capabilities is Some && capabilities->0.tools is Some;
            &&& step.log == seq!["[info] MCP: Connected to server: "@ + server_info]
            &&& has_resources ==> {
                &&& step.action is ListResources
                &&& step.stage == (spawn::StageView::ListingResources {
                    authenticated,
                    capabilities,
                })
            }
            &&& !has_resources && has_tools ==> {
                &&& step.action is ListTools
                &&& step.stage == (spawn::StageView::ListingTools {
                    authenticated,
                    capabilities,
                    resources: Seq::empty(),
                })
            }
            &&& !has_resources && !has_tools ==> {
                &&& step.stage is Over
                &&& finishes_with(
                    step.action,
                    identity,
                    authenticated,
                    Seq::empty(),
                    Seq::empty(),
                )
            }
        }),
{
}

/// A connection that fails ends the start with its own reason, and nothing is logged.
pub proof fn law_failed_connection_ends_the_start(
    identity: crate::spawn::IdentityView,
    authenticated: bool,
    failure: crate::error::McpErrorView,
    reason: Seq<char>,
)
    ensures
        ({
            let stage = spawn::StageView::Connecting { authenticated };
            let unbuilt = spawn::step_after(
                identity,
                stage,
                spawn::EventView::ClientBuildFailed(failure),
            );
            let unstarted = spawn::step_after(
                identity,
                stage,
                spawn::EventView::SseStartFailed(reason),
            );
            let unopened = spawn::step_after(
                identity,
                stage,
                spawn::EventView::InitializationFailed(reason),
            );
            &&& unbuilt.stage is Over && unstarted.stage is Over && unopened.stage is Over
            &&& unbuilt.log.len() == 0 && unstarted.log.len() == 0 && unopened.log.len() == 0
            &&& unbuilt.action == spawn::ActionView::Fail(failure)
            &&& unstarted.action == spawn::ActionView::Fail(
                crate::error::McpErrorView::TransportCreation {
                    transport: crate::error::TransportKindView::Sse,
                    error: reason,
                },
            )
            &&& unopened.action == spawn::ActionView::Fail(
                crate::error::McpErrorView::ClientInitialize(reason),
            )
        }),
{
}

/// Once the call for the resources returned, the tools are listed where the server
/// mentioned them, whatever became of the call, and else the start is over. The resources
/// that were listed are kept, where the server mentioned them; a failure leaves none.
pub proof fn law_tools_follow_the_resources(
    identity: crate::spawn::IdentityView,
    authenticated: bool,
    capabilities: Option<ServerCapabilities>,
    outcome: Result<Vec<Resource>, RequestError>,
)
    ensures
        ({
            let step = spawn::step_after(
                identity,
                spawn::StageView::ListingResources { authenticated, capabilities },
                spawn::EventView::ResourcesListed(outcome),
            );
            let has_resources = capabilities is Some && capabilities->0.resources is Some;
            let has_tools = capabilities is Some && capabilities->0.tools is Some;
            let kept = if has_resources && outcome is Ok {
                outcome->Ok_0@
            } else {
                Seq::empty()
            };
            &&& step.log.len() == 0
            &&& has_tools ==> {
                &&& step.action is ListTools
                &&& step.stage == (spawn::StageView::ListingTools {
                    authenticated,
                    capabilities,
                    resources: kept,
                })
            }
            &&& !has_tools ==> {
                &&& step.stage is Over
                &&& finishes_with(step.action, identity, authenticated, kept, Seq::empty())
            }
        }),
{
}

/// Once the call for the tools returned, the start is over, with the resources that were
/// kept and the tools that were listed, where the server mentioned them; a failure leaves
/// none.
pub proof fn law_tools_finish_the_start(
    identity: crate::spawn::IdentityView,
    authenticated: bool,
    capabilities: Option<ServerCapabilities>,
    resources: Seq<Resource>,
    outcome: Result<Vec<Tool>, RequestError>,
)
    ensures
        ({
            let step = spawn::step_after(
                identity,
                spawn::StageView::ListingTools { authenticated, capabilities, resources },
                spawn::EventView::ToolsListed(outcome),
            );
            let has_tools = capabilities is Some && capabilities->0.tools is Some;
            &&& step.log.len() == 0
            &&& step.stage is Over
            &&& finishes_with(
                step.action,
                identity,
                authenticated,
                resources,
                if has_tools && outcome is Ok {
                    outcome->Ok_0@
                } else {
                    Seq::empty()
                },
            )
        }),
{
}

/// Each event is waited for in one stage, that of the action that it comes of, and nothing
/// is waited for once the start is over.
pub proof fn law_each_event_has_its_stage(
    stage: crate::spawn::StageView,
    event: crate::spawn::EventView,
)
    ensures
        event is ChildSpawned || event is ChildSpawnFailed ==> (spawn::accepts(stage, event) <==>
            stage is SpawningChild),
        event matches spawn::EventView::Probe(probed) ==> (spawn::accepts(stage, event) <==> stage
            is Probing && transport::probe_accepts(stage->probe, probed)),
        event is Connected || event is ClientBuildFailed || event is SseStartFailed || event is
            InitializationFailed ==> (spawn::accepts(stage, event) <==> stage is Connecting),
        event is ResourcesListed ==> (spawn::accepts(stage, event) <==> stage is ListingResources),
        event is ToolsListed ==> (spawn::accepts(stage, event) <==> stage is ListingTools),
{
}

/// The view of what a start is given holds all that is in it.
pub proof fn law_given_views_are_faithful(
    identity: Identity,
    transport_type: TransportType,
    event: Event,
)
    ensures
        identity.deep_view().server_name == identity.server_name@,
        identity.description matches Some(description) ==> identity.deep_view().description == Some(
            description@,
        ),
        identity.description is None ==> identity.deep_view().description is None,
        identity.deep_view().installation_id == identity.installation_id,
        match transport_type {
            TransportType::CLIServer(server) => transport_type.deep_view()
                == spawn::TransportTypeView::CLIServer(server.deep_view()),
            TransportType::ServerSentEvents(server) => {
                &&& transport_type.deep_view() matches spawn::TransportTypeView::ServerSentEvents {
                    url,
                    headers,
                }
                &&& url == server.url@
                &&& headers.len() == server.headers@.len()
                &&& forall|i: int|
                    0 <= i < server.headers@.len() ==> #[trigger] headers[i]
                        == server.headers@[i].deep_view()
            },
        },
        match event {
            Event::ChildSpawned { pid } => event.deep_view() == (spawn::EventView::ChildSpawned {
                pid,
            }),
            Event::ChildSpawnFailed { not_found, error } => event.deep_view() == (
            spawn::EventView::ChildSpawnFailed { not_found, error: error@ }),
            Event::Probe(probed) => event.deep_view() == spawn::EventView::Probe(
                probed.deep_view(),
            ),
            Event::Connected { server_info, capabilities } => event.deep_view() == (
            spawn::EventView::Connected { server_info: server_info@, capabilities }),
            Event::ClientBuildFailed(error) => event.deep_view()
                == spawn::EventView::ClientBuildFailed(error.deep_view()),
            Event::SseStartFailed(error) => event.deep_view() == spawn::EventView::SseStartFailed(
                error@,
            ),
            Event::InitializationFailed(error) => event.deep_view()
                == spawn::EventView::InitializationFailed(error@),
            Event::ResourcesListed(outcome) => event.deep_view()
                == spawn::EventView::ResourcesListed(outcome),
            Event::ToolsListed(outcome) => event.deep_view() == spawn::EventView::ToolsListed(
                outcome,
            ),
        },
{
}

/// The view of what a start gives holds all that is in it.
pub proof fn law_step_views_are_faithful(
    step: Step,
    stage: Stage,
    action: crate::spawn::Action,
    client: crate::spawn::ClientChoice,
)
    ensures
        step.deep_view().stage == step.stage.deep_view(),
        step.deep_view().action == step.action.deep_view(),
        step.deep_view().log.len() == step.log@.len(),
        forall|i: int|
            0 <= i < step.log@.len() ==> #[trigger] step.deep_view().log[i] == step.log@[i]@,
        match stage {
            Stage::SpawningChild { command, cwd } => {
                &&& stage.deep_view() matches spawn::StageView::SpawningChild {
                    command: seen,
                    cwd: seen_cwd,
                }
                &&& seen == command@
                &&& cwd matches Some(cwd) ==> seen_cwd == Some(cwd@)
                &&& cwd is None ==> seen_cwd is None
            },
            Stage::Probing { url, headers, has_auth_context, probe } => stage.deep_view() == (
            spawn::StageView::Probing {
                url: url@,
                headers: headers.deep_view(),
                has_auth_context,
                probe,
            }),
            Stage::Connecting { authenticated } => stage.deep_view() == (
            spawn::StageView::Connecting { authenticated }),
            Stage::ListingResources { authenticated, capabilities } => stage.deep_view() == (
            spawn::StageView::ListingResources { authenticated, capabilities }),
            Stage::ListingTools { authenticated, capabilities, resources } => stage.deep_view() == (
            spawn::StageView::ListingTools { authenticated, capabilities, resources: resources@ }),
            Stage::Over => stage.deep_view() is Over,
        },
        match action {
            spawn::Action::SpawnChild(command) => action.deep_view()
                == spawn::ActionView::SpawnChild(command.deep_view()),
            spawn::Action::ServeChild { pid } => action.deep_view() == (
            spawn::ActionView::ServeChild { pid: pid@ }),
            spawn::Action::SendInitialize { url, headers, authenticated } => action.deep_view() == (
            spawn::ActionView::SendInitialize {
                url: url@,
                headers: headers.deep_view(),
                authenticated,
            }),
            spawn::Action::Authenticate { server_name, url } => action.deep_view() == (
            spawn::ActionView::Authenticate { server_name: server_name@, url: url@ }),
            spawn::Action::Connect { transport, url, client } => action.deep_view() == (
            spawn::ActionView::Connect { transport, url: url@, client: client.deep_view() }),
            spawn::Action::ListResources => action.deep_view() is ListResources,
            spawn::Action::ListTools => action.deep_view() is ListTools,
            spawn::Action::Finish(info) => action.deep_view() == spawn::ActionView::Finish(info@),
            spawn::Action::Fail(error) => action.deep_view() == spawn::ActionView::Fail(
                error.deep_view(),
            ),
        },
        match client {
            spawn::ClientChoice::Authenticated => client.deep_view() is Authenticated,
            spawn::ClientChoice::Plain => client.deep_view() is Plain,
            spawn::ClientChoice::WithHeaders(headers) => client.deep_view()
                == spawn::ClientChoiceView::WithHeaders(headers.deep_view()),
        },
{
}

} // verus!
