//! What is known of a single connected MCP server.

use crate::capabilities::{JsonObject, Resource, Tool};
use std::sync::Arc;
use vstd::prelude::*;

verus! {

/// `uuid::Uuid`, carried as it is.
#[verifier::external_type_specification]
#[verifier::external_body]
pub struct ExUuid(uuid::Uuid);

/// Information about a single connected MCP server. The handle of the connection, `S`,
/// is carried along untouched.
pub struct TemplatableMCPServerInfo<S> {
    name: String,
    service: S,
    resources: Vec<Resource>,
    tools: Vec<Tool>,
    installation_id: uuid::Uuid,
    description: Option<String>,
    /// Whether the underlying transport uses authentication.
    is_authenticated_transport: bool,
}

/// [`TemplatableMCPServerInfo`] by its contents.
pub struct ServerInfoView<S> {
    pub name: Seq<char>,
    pub service: S,
    pub resources: Seq<Resource>,
    pub tools: Seq<Tool>,
    pub installation_id: uuid::Uuid,
    pub description: Option<Seq<char>>,
    pub is_authenticated_transport: bool,
}

impl<S> View for TemplatableMCPServerInfo<S> {
    type V = ServerInfoView<S>;

    closed spec fn view(&self) -> ServerInfoView<S> {
        ServerInfoView {
            name: self.name@,
            service: self.service,
            resources: self.resources@,
            tools: self.tools@,
            installation_id: self.installation_id,
            description: self.description.deep_view(),
            is_authenticated_transport: self.is_authenticated_transport,
        }
    }
}

/// Whether a tool of the given name is among some tools.
pub open spec fn offers_tool(tools: Seq<Tool>, name: Seq<char>) -> bool {
    exists|i: int| 0 <= i < tools.len() && (#[trigger] tools[i]).name@ == name
}

/// Whether a resource of the given URI is among some resources.
pub open spec fn offers_uri(resources: Seq<Resource>, uri: Seq<char>) -> bool {
    exists|i: int| 0 <= i < resources.len() && (#[trigger] resources[i]).uri@ == uri
}

/// Whether a resource of the given name is among some resources.
pub open spec fn offers_name(resources: Seq<Resource>, name: Seq<char>) -> bool {
    exists|i: int| 0 <= i < resources.len() && (#[trigger] resources[i]).name@ == name
}

/// Whether a tool is the first of its name.
pub open spec fn is_first_of_name(tools: Seq<Tool>, at: int, name: Seq<char>) -> bool {
    &&& 0 <= at < tools.len()
    &&& tools[at].name@ == name
    &&& forall|i: int| 0 <= i < at ==> (#[trigger] tools[i]).name@ != name
}

impl<S> TemplatableMCPServerInfo<S> {
    /// Puts together what is known of a server.
    pub fn new(
        name: String,
        service: S,
        resources: Vec<Resource>,
        tools: Vec<Tool>,
        installation_id: uuid::Uuid,
        description: Option<String>,
        is_authenticated_transport: bool,
    ) -> (info: Self)
        ensures
            info@ == (ServerInfoView {
                name: name@,
                service,
                resources: resources@,
                tools: tools@,
                installation_id,
                description: description.deep_view(),
                is_authenticated_transport,
            }),
    {
        TemplatableMCPServerInfo {
            name,
            service,
            resources,
            tools,
            installation_id,
            description,
            is_authenticated_transport,
        }
    }

    /// The same server with another handle of the connection.
    pub fn with_service<T>(self, service: T) -> (info: TemplatableMCPServerInfo<T>)
        ensures
            info@ == (ServerInfoView {
                name: self@.name,
                service,
                resources: self@.resources,
                tools: self@.tools,
                installation_id: self@.installation_id,
                description: self@.description,
                is_authenticated_transport: self@.is_authenticated_transport,
            }),
    {
        TemplatableMCPServerInfo {
            name: self.name,
            service,
            resources: self.resources,
            tools: self.tools,
            installation_id: self.installation_id,
            description: self.description,
            is_authenticated_transport: self.is_authenticated_transport,
        }
    }

    /// The name of the server.
    pub fn name(&self) -> (name: &str)
        ensures
            name@ == self@.name,
    {
        self.name.as_str()
    }

    /// The resources that the server listed.
    pub fn resources(&self) -> (resources: &Vec<Resource>)
        ensures
            resources@ == self@.resources,
    {
        &self.resources
    }

    /// The tools that the server listed.
    pub fn tools(&self) -> (tools: &Vec<Tool>)
        ensures
            tools@ == self@.tools,
    {
        &self.tools
    }

    /// The installation that the server belongs to.
    pub fn installation_id(&self) -> (id: uuid::Uuid)
        ensures
            id == self@.installation_id,
    {
        self.installation_id
    }

    /// The description of the server, where it has one.
    pub fn description(&self) -> (description: Option<&str>)
        ensures
            description.deep_view() == self@.description,
    {
        match &self.description {
            Some(description) => Some(description.as_str()),
            None => None,
        }
    }

    /// Whether the underlying transport uses authentication.
    pub fn is_authenticated_transport(&self) -> (authenticated: bool)
        ensures
            authenticated == self@.is_authenticated_transport,
    {
        self.is_authenticated_transport
    }

    /// The handle of the connection.
    pub fn peer(&self) -> (peer: &S)
        ensures
            *peer == self@.service,
    {
        &self.service
    }

    /// The handle of the connection, given up by the rest.
    pub fn into_service(self) -> (service: S)
        ensures
            service == self@.service,
    {
        self.service
    }

    /// The handle of the connection, unless its transport is closed.
    pub fn peer_if_connected(&self, transport_closed: bool) -> (peer: Option<&S>)
        ensures
            peer == if transport_closed {
                None
            } else {
                Some(&self@.service)
            },
    {
        if transport_closed {
            None
        } else {
            Some(&self.service)
        }
    }

    /// Whether the server offers a tool of the given name.
    pub fn has_tool(&self, tool_name: &str) -> (found: bool)
        ensures
            found == offers_tool(self@.tools, tool_name@),
    {
        let wanted = tool_name.to_owned();
        let mut i: usize = 0;
        while i < self.tools.len()
            invariant
                i <= self.tools@.len(),
                wanted@ == tool_name@,
                forall|k: int| 0 <= k < i ==> (#[trigger] self.tools@[k]).name@ != tool_name@,
            decreases self.tools@.len() - i,
        {
            if self.tools[i].name == wanted {
                assert(offers_tool(self@.tools, tool_name@));
                return true;
            }
            i = i + 1;
        }
        false
    }

    /// Whether the server offers a resource of the URI of the given one.
    pub fn has_resource(&self, resource: &Resource) -> (found: bool)
        ensures
            found == offers_uri(self@.resources, resource.uri@),
    {
        let mut i: usize = 0;
        while i < self.resources.len()
            invariant
                i <= self.resources@.len(),
                forall|k: int|
                    0 <= k < i ==> (#[trigger] self.resources@[k]).uri@ != resource.uri@,
            decreases self.resources@.len() - i,
        {
            if resource.uri == self.resources[i].uri {
                assert(offers_uri(self@.resources, resource.uri@));
                return true;
            }
            i = i + 1;
        }
        false
    }

    /// Whether the server offers a resource of the given URI or, where none is given, of
    /// the given name.
    pub fn has_resource_name_or_uri(&self, name: &str, uri: Option<&str>) -> (found: bool)
        ensures
            found == match uri {
                Some(uri) => offers_uri(self@.resources, uri@),
                None => offers_name(self@.resources, name@),
            },
    {
        let by_uri = uri.is_some();
        let wanted = match uri {
            Some(uri) => uri.to_owned(),
            None => name.to_owned(),
        };
        let mut i: usize = 0;
        while i < self.resources.len()
            invariant
                i <= self.resources@.len(),
                by_uri == (uri is Some),
                wanted@ == match uri {
                    Some(uri) => uri@,
                    None => name@,
                },
                by_uri ==> forall|k: int|
                    0 <= k < i ==> (#[trigger] self.resources@[k]).uri@ != wanted@,
                !by_uri ==> forall|k: int|
                    0 <= k < i ==> (#[trigger] self.resources@[k]).name@ != wanted@,
            decreases self.resources@.len() - i,
        {
            let resource = &self.resources[i];
            let matching = if by_uri {
                resource.uri == wanted
            } else {
                resource.name == wanted
            };
            if matching {
                assert(self@.resources[i as int] == resource);
                return true;
            }
            i = i + 1;
        }
        false
    }

    /// The input schema of the first tool of the given name.
    pub fn tool_input_schema(&self, tool_name: &str) -> (schema: Option<Arc<JsonObject>>)
        ensures
            match schema {
                Some(schema) => exists|at: int| #[trigger]
                    is_first_of_name(self@.tools, at, tool_name@) && schema
                        == self@.tools[at].input_schema,
                None => !offers_tool(self@.tools, tool_name@),
            },
    {
        let wanted = tool_name.to_owned();
        let mut i: usize = 0;
        while i < self.tools.len()
            invariant
                i <= self.tools@.len(),
                wanted@ == tool_name@,
                forall|k: int| 0 <= k < i ==> (#[trigger] self.tools@[k]).name@ != tool_name@,
            decreases self.tools@.len() - i,
        {
            if self.tools[i].name == wanted {
                assert(is_first_of_name(self@.tools, i as int, tool_name@));
                return Some(self.tools[i].input_schema.clone());
            }
            i = i + 1;
        }
        None
    }
}

/// A tool has an input schema to look up exactly where the server offers it, and no two
/// tools are both the first of one name.
pub proof fn law_schema_is_found_for_offered_tools(tools: Seq<Tool>, name: Seq<char>)
    ensures
        offers_tool(tools, name) <==> exists|at: int| is_first_of_name(tools, at, name),
        forall|a: int, b: int|
            is_first_of_name(tools, a, name) && is_first_of_name(tools, b, name) ==> a == b,
    decreases tools.len(),
{
    if offers_tool(tools, name) {
        let rest = tools.drop_last();
        if offers_tool(rest, name) {
            law_schema_is_found_for_offered_tools(rest, name);
            let at = choose|at: int| is_first_of_name(rest, at, name);
            assert forall|i: int| 0 <= i < at implies (#[trigger] tools[i]).name@ != name by {
                assert(rest[i].name@ != name);
            }
            assert(is_first_of_name(tools, at, name));
        } else {
            assert forall|i: int| 0 <= i < tools.len() - 1 implies (#[trigger] tools[i]).name@
                != name by {
                assert(rest[i].name@ != name);
            }
            assert(is_first_of_name(tools, tools.len() - 1, name));
        }
    }
}

/// One more tool makes one more name found, and no other; likewise for the URIs and the
/// names of resources. Nothing is found where there is nothing.
pub proof fn law_each_item_makes_its_own_name_found(
    tools: Seq<Tool>,
    tool: Tool,
    resources: Seq<Resource>,
    resource: Resource,
    wanted: Seq<char>,
)
    ensures
        !offers_tool(Seq::empty(), wanted),
        !offers_uri(Seq::empty(), wanted),
        !offers_name(Seq::empty(), wanted),
        offers_tool(tools.push(tool), wanted) <==> offers_tool(tools, wanted) || tool.name@
            == wanted,
        offers_uri(resources.push(resource), wanted) <==> offers_uri(resources, wanted)
            || resource.uri@ == wanted,
        offers_name(resources.push(resource), wanted) <==> offers_name(resources, wanted)
            || resource.name@ == wanted,
{
    let more_tools = tools.push(tool);
    let more = resources.push(resource);
    assert(more_tools[tools.len() as int] == tool);
    assert(more[resources.len() as int] == resource);
    if offers_tool(tools, wanted) {
        let i = choose|i: int| 0 <= i < tools.len() && (#[trigger] tools[i]).name@ == wanted;
        assert(more_tools[i] == tools[i]);
    }
    if offers_uri(resources, wanted) {
        let i = choose|i: int| 0 <= i < resources.len() && (#[trigger] resources[i]).uri@ == wanted;
        assert(more[i] == resources[i]);
    }
    if offers_name(resources, wanted) {
        let i = choose|i: int|
            0 <= i < resources.len() && (#[trigger] resources[i]).name@ == wanted;
        assert(more[i] == resources[i]);
    }
    if offers_tool(more_tools, wanted) && tool.name@ != wanted {
        let i = choose|i: int|
            0 <= i < more_tools.len() && (#[trigger] more_tools[i]).name@ == wanted;
        assert(tools[i] == more_tools[i]);
    }
    if offers_uri(more, wanted) && resource.uri@ != wanted {
        let i = choose|i: int| 0 <= i < more.len() && (#[trigger] more[i]).uri@ == wanted;
        assert(resources[i] == more[i]);
    }
    if offers_name(more, wanted) && resource.name@ != wanted {
        let i = choose|i: int| 0 <= i < more.len() && (#[trigger] more[i]).name@ == wanted;
        assert(resources[i] == more[i]);
    }
}

/// The first tool of a name has that name, and no tool before it has.
pub proof fn law_first_tool_of_a_name_has_it(tools: Seq<Tool>, at: int, name: Seq<char>)
    requires
        is_first_of_name(tools, at, name),
    ensures
        0 <= at < tools.len(),
        tools[at].name@ == name,
        forall|i: int| 0 <= i < at ==> (#[trigger] tools[i]).name@ != name,
{
}

} // verus!
