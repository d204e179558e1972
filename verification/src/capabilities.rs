//! What a server offers, and which of its lists are asked for.
//!
//! Each query pairs a capability check with the list call: a list is asked for only
//! where the server advertised the capability, and a failure counts as an empty list.

use crate::error::RequestError;
use crate::text;
use std::sync::Arc;
use vstd::prelude::*;
use vstd::string::*;

verus! {

/// `serde_json::Map`, carried as it is.
#[verifier::external_type_specification]
#[verifier::external_body]
#[verifier::reject_recursive_types(K)]
#[verifier::reject_recursive_types(V)]
pub struct ExJsonMap<K, V>(serde_json::Map<K, V>);

/// `serde_json::Value`, carried as it is.
#[verifier::external_type_specification]
#[verifier::external_body]
pub struct ExJsonValue(serde_json::Value);

/// `rmcp::model::ToolAnnotations`, carried as it is.
#[verifier::external_type_specification]
#[verifier::external_body]
pub struct ExToolAnnotations(rmcp::model::ToolAnnotations);

/// `rmcp::model::ToolExecution`, carried as it is.
#[verifier::external_type_specification]
#[verifier::external_body]
pub struct ExToolExecution(rmcp::model::ToolExecution);

/// `rmcp::model::Icon`, carried as it is.
#[verifier::external_type_specification]
#[verifier::external_body]
pub struct ExIcon(rmcp::model::Icon);

/// `rmcp::model::Meta`, carried as it is.
#[verifier::external_type_specification]
#[verifier::external_body]
pub struct ExMeta(rmcp::model::Meta);

/// `rmcp::model::Annotations`, carried as it is.
#[verifier::external_type_specification]
#[verifier::external_body]
pub struct ExAnnotations(rmcp::model::Annotations);

/// A JSON object.
pub type JsonObject = serde_json::Map<String, serde_json::Value>;

/// A tool that a server offers.
#[derive(Clone, Debug, PartialEq)]
pub struct Tool {
    pub name: String,
    pub title: Option<String>,
    pub description: Option<String>,
    pub input_schema: Arc<JsonObject>,
    pub output_schema: Option<Arc<JsonObject>>,
    pub annotations: Option<rmcp::model::ToolAnnotations>,
    pub execution: Option<rmcp::model::ToolExecution>,
    pub icons: Option<Vec<rmcp::model::Icon>>,
    pub meta: Option<rmcp::model::Meta>,
}

/// A resource that a server offers.
#[derive(Clone, Debug, PartialEq)]
pub struct Resource {
    pub uri: String,
    pub name: String,
    pub title: Option<String>,
    pub description: Option<String>,
    pub mime_type: Option<String>,
    pub size: Option<u32>,
    pub icons: Option<Vec<rmcp::model::Icon>>,
    pub meta: Option<rmcp::model::Meta>,
    pub annotations: Option<rmcp::model::Annotations>,
}

/// What a server says of its tools.
#[derive(Clone, Copy, Debug, PartialEq, Eq)]
pub struct ToolsCapability {
    pub list_changed: Option<bool>,
}

/// What a server says of its resources.
#[derive(Clone, Copy, Debug, PartialEq, Eq)]
pub struct ResourcesCapability {
    pub subscribe: Option<bool>,
    pub list_changed: Option<bool>,
}

/// The capabilities that a server advertised.
#[derive(Clone, Copy, Debug, PartialEq, Eq)]
pub struct ServerCapabilities {
    pub tools: Option<ToolsCapability>,
    pub resources: Option<ResourcesCapability>,
}

/// Whether tools were advertised.
pub open spec fn advertises_tools(capabilities: Option<ServerCapabilities>) -> bool {
    capabilities matches Some(advertised) && advertised.tools is Some
}

/// Whether resources were advertised.
pub open spec fn advertises_resources(capabilities: Option<ServerCapabilities>) -> bool {
    capabilities matches Some(advertised) && advertised.resources is Some
}

/// Whether the resources of a server are to be listed: only where it advertised them.
pub fn should_query_resources(capabilities: Option<&ServerCapabilities>) -> (query: bool)
    ensures
        query == advertises_resources(
            match capabilities {
                Some(advertised) => Some(*advertised),
                None => None,
            },
        ),
{
    match capabilities {
        Some(advertised) => advertised.resources.is_some(),
        None => false,
    }
}

/// Whether the tools of a server are to be listed: only where it advertised them.
pub fn should_query_tools(capabilities: Option<&ServerCapabilities>) -> (query: bool)
    ensures
        query == advertises_tools(
            match capabilities {
                Some(advertised) => Some(*advertised),
                None => None,
            },
        ),
{
    match capabilities {
        Some(advertised) => advertised.tools.is_some(),
        None => false,
    }
}

/// What a list call came to: its list, or no items where it failed.
pub open spec fn listed<T>(outcome: Result<Vec<T>, RequestError>) -> Seq<T> {
    match outcome {
        Ok(items) => items@,
        Err(_) => Seq::empty(),
    }
}

/// What a query for resources comes to, given what came of the call: nothing where they
/// were not advertised.
pub open spec fn queried_resources(
    capabilities: Option<ServerCapabilities>,
    outcome: Result<Vec<Resource>, RequestError>,
) -> Seq<Resource> {
    if advertises_resources(capabilities) {
        listed(outcome)
    } else {
        Seq::empty()
    }
}

/// What a query for tools comes to, given what came of the call: nothing where they were
/// not advertised.
pub open spec fn queried_tools(
    capabilities: Option<ServerCapabilities>,
    outcome: Result<Vec<Tool>, RequestError>,
) -> Seq<Tool> {
    if advertises_tools(capabilities) {
        listed(outcome)
    } else {
        Seq::empty()
    }
}

/// Takes the list that a call gave. A failure is no reason to give up on the server: it
/// counts as an empty list.
pub fn list_or_empty<T>(outcome: Result<Vec<T>, RequestError>) -> (items: Vec<T>)
    ensures
        items@ == listed(outcome),
{
    match outcome {
        Ok(items) => items,
        Err(_) => Vec::new(),
    }
}

/// What can be listed.
#[derive(Clone, Copy, Debug, PartialEq, Eq)]
pub enum ListKind {
    Resources,
    Tools,
}

/// What is said of a list that could not be had.
pub open spec fn list_failure(
    kind: ListKind,
    server_name: Seq<char>,
    error: Seq<char>,
) -> Seq<char> {
    "Failed to list "@ + match kind {
        ListKind::Resources => "resources"@,
        ListKind::Tools => "tools"@,
    } + " for MCP server '"@ + server_name + "': "@ + error
}

/// Says that a list could not be had, given the description of the failure.
pub fn list_failure_line(kind: ListKind, server_name: &str, error: &str) -> (line: String)
    ensures
        line@ == list_failure(kind, server_name@, error@),
{
    let mut line = match kind {
        ListKind::Resources => text::joined("Failed to list ", "resources"),
        ListKind::Tools => text::joined("Failed to list ", "tools"),
    };
    line.append(" for MCP server '");
    line.append(server_name);
    line.append("': ");
    line.append(error);
    line
}

/// Queries the resources of a connected server. The call is made once where resources
/// were advertised, and not at all where they were not; its failure is no resources.
/// The name of the server decides nothing; it is for [`list_failure_line`].
pub fn query_resources_for<F: FnOnce() -> Result<Vec<Resource>, RequestError>>(
    capabilities: Option<&ServerCapabilities>,
    _server_name: &str,
    list_resources: F,
) -> (resources: Vec<Resource>)
    requires
        capabilities matches Some(advertised) ==> advertised.resources is Some
            ==> list_resources.requires(()),
    ensures
        match capabilities {
            Some(advertised) if advertised.resources is Some => exists|outcome: Result<
                Vec<Resource>,
                RequestError,
            >| #[trigger]
                list_resources.ensures((), outcome) && resources@ == listed(outcome),
            _ => resources@ == Seq::<Resource>::empty(),
        },
{
    if !should_query_resources(capabilities) {
        return Vec::new();
    }
    list_or_empty(list_resources())
}

/// Queries the tools of a connected server. The call is made once where tools were
/// advertised, and not at all where they were not; its failure is no tools.
/// The name of the server decides nothing; it is for [`list_failure_line`].
pub fn query_tools_for<F: FnOnce() -> Result<Vec<Tool>, RequestError>>(
    capabilities: Option<&ServerCapabilities>,
    _server_name: &str,
    list_tools: F,
) -> (tools: Vec<Tool>)
    requires
        capabilities matches Some(advertised) ==> advertised.tools is Some
            ==> list_tools.requires(()),
    ensures
        match capabilities {
            Some(advertised) if advertised.tools is Some => exists|outcome: Result<
                Vec<Tool>,
                RequestError,
            >| #[trigger] list_tools.ensures((), outcome) && tools@ == listed(outcome),
            _ => tools@ == Seq::<Tool>::empty(),
        },
{
    if !should_query_tools(capabilities) {
        return Vec::new();
    }
    list_or_empty(list_tools())
}

/// The tools decision does not depend on what was said of resources.
pub proof fn law_tools_decision_ignores_resources(
    capabilities: ServerCapabilities,
    resources: Option<ResourcesCapability>,
)
    ensures
        advertises_tools(Some(capabilities)) == advertises_tools(
            Some(ServerCapabilities { resources, ..capabilities }),
        ),
{
}

/// The resources decision does not depend on what was said of tools.
pub proof fn law_resources_decision_ignores_tools(
    capabilities: ServerCapabilities,
    tools: Option<ToolsCapability>,
)
    ensures
        advertises_resources(Some(capabilities)) == advertises_resources(
            Some(ServerCapabilities { tools, ..capabilities }),
        ),
{
}

/// A capability is advertised exactly where the server said something of it, whatever it
/// said; a server that said nothing at all advertises nothing.
pub proof fn law_capability_is_advertised_where_it_is_mentioned(
    tools: Option<ToolsCapability>,
    resources: Option<ResourcesCapability>,
)
    ensures
        advertises_tools(Some(ServerCapabilities { tools, resources })) <==> tools is Some,
        advertises_resources(Some(ServerCapabilities { tools, resources })) <==> resources is Some,
        !advertises_tools(None),
        !advertises_resources(None),
{
}

/// A list that was got is taken as it is, and a failure of any kind is an empty list.
pub proof fn law_failed_list_is_empty<T>(items: Vec<T>, error: RequestError)
    ensures
        listed(Ok::<Vec<T>, RequestError>(items)) == items@,
        listed(Err::<Vec<T>, RequestError>(error)).len() == 0,
{
}

/// What is queried is what was listed where it was advertised, and nothing where not.
pub proof fn law_query_gives_the_list_where_advertised(
    capabilities: ServerCapabilities,
    resources: Vec<Resource>,
    tools: Vec<Tool>,
    error: RequestError,
)
    ensures
        queried_resources(Some(capabilities), Ok(resources)) == (if capabilities.resources is Some {
            resources@
        } else {
            Seq::empty()
        }),
        queried_tools(Some(capabilities), Ok(tools)) == (if capabilities.tools is Some {
            tools@
        } else {
            Seq::empty()
        }),
        queried_resources(Some(capabilities), Err(error)).len() == 0,
        queried_tools(Some(capabilities), Err(error)).len() == 0,
        queried_resources(None, Ok(resources)).len() == 0,
        queried_tools(None, Ok(tools)).len() == 0,
        queried_resources(None, Err(error)).len() == 0,
        queried_tools(None, Err(error)).len() == 0,
{
}

/// A list that could not be had is told with its server and the reason, whole and
/// unchanged.
pub proof fn law_failed_list_is_told_with_its_server(server_name: Seq<char>, error: Seq<char>)
    ensures
        list_failure(ListKind::Tools, server_name, error) == "Failed to list "@ + "tools"@
            + " for MCP server '"@ + server_name + "': "@ + error,
        list_failure(ListKind::Resources, server_name, error) == "Failed to list "@ + "resources"@
            + " for MCP server '"@ + server_name + "': "@ + error,
{
}

} // verus!
