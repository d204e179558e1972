//! The HTTP client of MCP connections and the request that opens one.

use crate::capabilities::JsonObject;
use crate::error::{McpError, TransportKind};
use crate::headers::{self, StaticHeader};
use crate::text;
use std::collections::BTreeMap;
use vstd::prelude::*;
use vstd::string::*;

verus! {

/// `reqwest::Client`, carried as it is.
#[verifier::external_type_specification]
#[verifier::external_body]
pub struct ExClient(reqwest::Client);

/// `reqwest::Error`, carried as it is.
#[verifier::external_type_specification]
#[verifier::external_body]
pub struct ExClientError(reqwest::Error);

/// The default headers that a client holds: for each name, in lower case, the bytes of
/// its value.
pub uninterp spec fn client_headers(client: reqwest::Client) -> Map<Seq<char>, Seq<u8>>;

/// The default headers of a client that was given the entries of a header map: each name
/// of the map with the last of its values, and `accept` with the value that reqwest gives
/// it where the map does not name it.
pub open spec fn default_headers(entries: Map<Seq<char>, Seq<Seq<u8>>>) -> Map<
    Seq<char>,
    Seq<u8>,
> {
    Map::new(
        |name: Seq<char>| entries.contains_key(name) || name == "accept"@,
        |name: Seq<char>|
            if entries.contains_key(name) {
                entries[name].last()
            } else {
                vstd::utf8::encode_utf8("*/*"@)
            },
    )
}

/// `reqwest::ClientBuilder::build` with default headers: the client holds every name of
/// the map, with the last of its values, and but for these only `accept`, which a builder
/// starts with. Whether it can be built at all rests on the TLS backend and the resolver of
/// the machine. The builder inserts the values one by one into a map of its own, which
/// holds `accept` besides and must not grow beyond the slots that a map can have.
#[verifier::external_body]
fn build_client(headers: http::HeaderMap<http::HeaderValue>) -> (built: Result<
    reqwest::Client,
    reqwest::Error,
>)
    requires
        headers::header_entries(headers).dom().len() <= headers::MAX_HEADERS,
    ensures
        built matches Ok(client) ==> client_headers(client) == default_headers(
            headers::header_entries(headers),
        ),
{
    reqwest::Client::builder().default_headers(headers).build()
}

/// What the `Display` of a `reqwest::Error` can write. There may be several texts: what is
/// behind the error can be described in the language of the machine.
pub uninterp spec fn client_error_texts(error: reqwest::Error) -> Set<Seq<char>>;

/// The `Display` of `reqwest::Error`: one of the texts that it can write, which are named,
/// not spelled out.
#[verifier::external_body]
fn client_error_text(error: &reqwest::Error) -> (described: String)
    ensures
        client_error_texts(*error).contains(described@),
{
    error.to_string()
}

/// The failure of a client that could not be built.
pub open spec fn client_build_failure(error: Seq<char>) -> crate::error::McpErrorView {
    crate::error::McpErrorView::TransportCreation {
        transport: crate::error::TransportKindView::StreamableHttp,
        error: "Failed to build client with headers: "@ + error,
    }
}

/// Whether a failure is that of a client that could not be built, for a reason that
/// reqwest gave.
pub open spec fn is_client_build_failure(failure: crate::error::McpErrorView) -> bool {
    exists|error: reqwest::Error, described: Seq<char>| #[trigger]
        client_error_texts(error).contains(described) && failure == client_build_failure(described)
}

/// What is made of an attempt to build a client: the client, or the failure to create
/// the HTTP transport with the description of the error.
pub fn client_or_failure<C>(built: Result<C, String>) -> (outcome: Result<C, McpError>)
    ensures
        match built {
            Ok(client) => outcome == Ok::<C, McpError>(client),
            Err(error) => outcome matches Err(failure) && failure.deep_view()
                == client_build_failure(error@),
        },
{
    match built {
        Ok(client) => Ok(client),
        Err(error) => Err(
            McpError::TransportCreation {
                transport: TransportKind::StreamableHttp,
                error: text::joined("Failed to build client with headers: ", error.as_str()),
            },
        ),
    }
}

/// Whether the default headers of a client are exactly the valid ones of some headers:
/// each name that they give values, with the last of these. Besides there is `accept`,
/// which allows everything where they do not give it a value.
pub open spec fn holds_headers(
    client: reqwest::Client,
    given: Seq<crate::headers::HeaderView>,
) -> bool {
    &&& forall|name: Seq<char>| #[trigger]
        client_headers(client).contains_key(name) <==> headers::values_of(given, name).len() > 0
            || name == "accept"@
    &&& forall|name: Seq<char>| #[trigger]
        client_headers(client).contains_key(name) ==> client_headers(client)[name] == if
        headers::values_of(given, name).len() > 0 {
            headers::values_of(given, name).last()
        } else {
            vstd::utf8::encode_utf8("*/*"@)
        }
}

/// Builds an HTTP client that sends the given headers with every request, those of them
/// that are valid.
pub fn build_client_with_headers(headers: &Vec<StaticHeader>) -> (outcome: Result<
    reqwest::Client,
    McpError,
>)
    requires
        headers@.len() <= headers::MAX_HEADERS,
    ensures
        match outcome {
            Ok(client) => holds_headers(client, headers.deep_view()),
            Err(failure) => is_client_build_failure(failure.deep_view()),
        },
{
    let map = headers::build_header_map(headers);
    let ghost entries = headers::header_entries(map);
    let built = match build_client(map) {
        Ok(client) => {
            assert forall|name: Seq<char>| #[trigger]
                client_headers(client).contains_key(name) <==> headers::values_of(
                    headers.deep_view(),
                    name,
                ).len() > 0 || name == "accept"@ by {
                assert(entries.contains_key(name) <==> headers::values_of(
                    headers.deep_view(),
                    name,
                ).len() > 0);
            }
            assert(holds_headers(client, headers.deep_view()));
            Ok(client)
        },
        Err(error) => Err(client_error_text(&error)),
    };
    client_or_failure(built)
}

/// `rmcp::model::RootsCapabilities`, carried as it is.
#[verifier::external_type_specification]
#[verifier::external_body]
pub struct ExRootsCapabilities(rmcp::model::RootsCapabilities);

/// `rmcp::model::SamplingCapability`, carried as it is.
#[verifier::external_type_specification]
#[verifier::external_body]
pub struct ExSamplingCapability(rmcp::model::SamplingCapability);

/// `rmcp::model::ElicitationCapability`, carried as it is.
#[verifier::external_type_specification]
#[verifier::external_body]
pub struct ExElicitationCapability(rmcp::model::ElicitationCapability);

/// `rmcp::model::TasksCapability`, carried as it is.
#[verifier::external_type_specification]
#[verifier::external_body]
pub struct ExTasksCapability(rmcp::model::TasksCapability);

/// What the client can do, as it tells the server.
#[derive(Debug, PartialEq)]
pub struct ClientCapabilities {
    pub experimental: Option<BTreeMap<String, JsonObject>>,
    pub extensions: Option<BTreeMap<String, JsonObject>>,
    pub roots: Option<rmcp::model::RootsCapabilities>,
    pub sampling: Option<rmcp::model::SamplingCapability>,
    pub elicitation: Option<rmcp::model::ElicitationCapability>,
    pub tasks: Option<rmcp::model::TasksCapability>,
}

/// Whether no capability is advertised.
pub open spec fn advertises_nothing(capabilities: ClientCapabilities) -> bool {
    &&& capabilities.experimental is None
    &&& capabilities.extensions is None
    &&& capabilities.roots is None
    &&& capabilities.sampling is None
    &&& capabilities.elicitation is None
    &&& capabilities.tasks is None
}

/// Who the client is and what it can do, as it tells the server.
#[derive(Debug, PartialEq)]
pub struct ClientInfo {
    pub capabilities: ClientCapabilities,
    pub name: String,
    pub version: String,
}

/// Says who the client is and what it can do: its application, the version of it where
/// there is one, and no capabilities.
pub fn make_client_info(app_id: String, app_version: Option<String>) -> (info: ClientInfo)
    ensures
        advertises_nothing(info.capabilities),
        info.name@ == app_id@,
        info.version@ == match app_version {
            Some(version) => version@,
            None => Seq::<char>::empty(),
        },
{
    ClientInfo {
        capabilities: ClientCapabilities {
            experimental: None,
            extensions: None,
            roots: None,
            sampling: None,
            elicitation: None,
            tasks: None,
        },
        name: app_id,
        version: match app_version {
            Some(version) => version,
            None => String::new(),
        },
    }
}

/// The JSON text of the request that opens an MCP session, for the identifier of the
/// request and the capabilities, name and version of the client, as rmcp writes it.
pub uninterp spec fn initialize_request_json(
    id: i64,
    capabilities: ClientCapabilities,
    name: Seq<char>,
    version: Seq<char>,
) -> Option<Seq<char>>;

/// `serde_json::to_string` on the initialize request of rmcp, with the default protocol
/// version; nothing where that fails. The text depends on the identifier, the
/// capabilities, the name and the version alone, and is named, not spelled out.
#[verifier::external_body]
fn initialize_request_text(
    id: i64,
    capabilities: &ClientCapabilities,
    name: &str,
    version: &str,
) -> (json: Option<String>)
    ensures
        json.deep_view() == initialize_request_json(id, *capabilities, name@, version@),
{
    let mut advertised = rmcp::model::ClientCapabilities::default();
    advertised.experimental = capabilities.experimental.clone();
    advertised.extensions = capabilities.extensions.clone();
    advertised.roots = capabilities.roots.clone();
    advertised.sampling = capabilities.sampling.clone();
    advertised.elicitation = capabilities.elicitation.clone();
    advertised.tasks = capabilities.tasks.clone();
    let client = rmcp::model::Implementation::new(name, version);
    let info = rmcp::model::ClientInfo::new(advertised, client);
    let request = rmcp::model::ClientRequest::InitializeRequest(
        rmcp::model::InitializeRequest::new(info),
    );
    let id = rmcp::model::RequestId::Number(id);
    serde_json::to_string(&rmcp::model::ClientJsonRpcMessage::request(request, id)).ok()
}

/// `rmcp::transport::common::http_header::EVENT_STREAM_MIME_TYPE`.
#[verifier::external_body]
fn event_stream_mime_type() -> (mime_type: &'static str)
    ensures
        mime_type@ == "text/event-stream"@,
{
    rmcp::transport::common::http_header::EVENT_STREAM_MIME_TYPE
}

/// `rmcp::transport::common::http_header::JSON_MIME_TYPE`.
#[verifier::external_body]
fn json_mime_type() -> (mime_type: &'static str)
    ensures
        mime_type@ == "application/json"@,
{
    rmcp::transport::common::http_header::JSON_MIME_TYPE
}

/// A request that opens an MCP session, ready to be posted.
#[derive(Debug)]
pub struct InitializeRequest {
    /// Where the request goes.
    pub url: String,
    /// What the `Accept` header says.
    pub accept: String,
    /// The body, a JSON text; nothing where it could not be written.
    pub body: Option<String>,
    /// Whether the access token of the authenticated client goes with the request.
    pub bearer: bool,
}

/// The identifier of the request that opens a session.
pub const INITIALIZE_REQUEST_ID: i64 = 0;

/// Prepares the request that opens an MCP session at a URL.
pub fn initialize_request(url: &str, info: &ClientInfo, authenticated: bool) -> (request:
    InitializeRequest)
    ensures
        request.url@ == url@,
        request.accept@ == "text/event-stream"@ + ", "@ + "application/json"@,
        request.body.deep_view() == initialize_request_json(
            INITIALIZE_REQUEST_ID,
            info.capabilities,
            info.name@,
            info.version@,
        ),
        request.bearer == authenticated,
{
    let mut accept = event_stream_mime_type().to_owned();
    accept.append(", ");
    accept.append(json_mime_type());
    InitializeRequest {
        url: url.to_owned(),
        accept,
        body: initialize_request_text(
            INITIALIZE_REQUEST_ID,
            &info.capabilities,
            info.name.as_str(),
            info.version.as_str(),
        ),
        bearer: authenticated,
    }
}

/// A request that opens an MCP session, with the client to post it by.
#[derive(Debug)]
pub struct PreparedInitialize {
    pub client: reqwest::Client,
    pub request: InitializeRequest,
}

/// Prepares the request that opens an MCP session at a URL together with the client that
/// posts it, which sends the given headers. Fails where that client cannot be built.
pub fn prepare_initialize_request(
    url: &str,
    headers: &Vec<StaticHeader>,
    info: &ClientInfo,
    authenticated: bool,
) -> (outcome: Result<PreparedInitialize, McpError>)
    requires
        headers@.len() <= headers::MAX_HEADERS,
    ensures
        match outcome {
            Ok(prepared) => {
                &&& holds_headers(prepared.client, headers.deep_view())
                &&& prepared.request.url@ == url@
                &&& prepared.request.accept@ == "text/event-stream"@ + ", "@ + "application/json"@
                &&& prepared.request.body.deep_view() == initialize_request_json(
                    INITIALIZE_REQUEST_ID,
                    info.capabilities,
                    info.name@,
                    info.version@,
                )
                &&& prepared.request.bearer == authenticated
            },
            Err(failure) => is_client_build_failure(failure.deep_view()),
        },
{
    match build_client_with_headers(headers) {
        Ok(client) => {
            let request = initialize_request(url, info, authenticated);
            Ok(PreparedInitialize { client, request })
        },
        Err(failure) => Err(failure),
    }
}

/// A client that holds headers sends the value of every valid header that no later valid
/// one of the same name takes the place of, names taken without regard to case. It sends
/// nothing else but `accept`, which allows everything where no header says otherwise.
pub proof fn law_client_sends_the_configured_headers(
    client: reqwest::Client,
    given: Seq<crate::headers::HeaderView>,
    at: int,
    name: Seq<char>,
)
    requires
        holds_headers(client, given),
        0 <= at < given.len(),
    ensures
        headers::is_valid_header(given[at]) && (forall|later: int|
            at < later < given.len() && headers::is_valid_header(#[trigger] given[later])
                ==> text::ascii_lower(given[later].name) != text::ascii_lower(given[at].name))
            ==> client_headers(client).contains_key(text::ascii_lower(given[at].name))
            && client_headers(client)[text::ascii_lower(given[at].name)]
            == vstd::utf8::encode_utf8(given[at].value),
        client_headers(client).contains_key(name) && name != "accept"@ ==> exists|i: int|
            0 <= i < given.len() && headers::is_valid_header(#[trigger] given[i])
                && text::ascii_lower(given[i].name) == name,
        client_headers(client).contains_key("accept"@),
        (forall|i: int|
            0 <= i < given.len() && headers::is_valid_header(#[trigger] given[i])
                ==> text::ascii_lower(given[i].name) != "accept"@) ==> client_headers(
            client,
        )["accept"@] == vstd::utf8::encode_utf8("*/*"@),
{
    lemma_last_value_sent(given, at);
    lemma_sent_name_is_given(given, name);
    lemma_sent_name_is_given(given, "accept"@);
}

/// The last value of a name is that of the last valid header of the name.
proof fn lemma_last_value_sent(given: Seq<crate::headers::HeaderView>, at: int)
    requires
        0 <= at < given.len(),
    ensures
        headers::is_valid_header(given[at]) && (forall|later: int|
            at < later < given.len() && headers::is_valid_header(#[trigger] given[later])
                ==> text::ascii_lower(given[later].name) != text::ascii_lower(given[at].name)) ==> {
            let values = headers::values_of(given, text::ascii_lower(given[at].name));
            values.len() > 0 && values.last() == vstd::utf8::encode_utf8(given[at].value)
        },
    decreases given.len(),
{
    if at < given.len() - 1 {
        let rest = given.drop_last();
        let last = given[given.len() - 1];
        if headers::is_valid_header(given[at]) && (forall|later: int|
            at < later < given.len() && headers::is_valid_header(#[trigger] given[later])
                ==> text::ascii_lower(given[later].name) != text::ascii_lower(given[at].name)) {
            assert forall|later: int|
                at < later < rest.len() && headers::is_valid_header(
                    #[trigger] rest[later],
                ) implies text::ascii_lower(rest[later].name) != text::ascii_lower(
                rest[at].name,
            ) by {
                assert(rest[later] == given[later]);
            }
            lemma_last_value_sent(rest, at);
            assert(given =~= rest.push(last));
            headers::law_header_adds_its_own_value(
                rest,
                last,
                text::ascii_lower(given[at].name),
            );
        }
    } else {
        assert(given =~= given.drop_last().push(given[at]));
        headers::law_header_adds_its_own_value(
            given.drop_last(),
            given[at],
            text::ascii_lower(given[at].name),
        );
    }
}

/// A name that is given values is that of some valid header.
proof fn lemma_sent_name_is_given(given: Seq<crate::headers::HeaderView>, name: Seq<char>)
    ensures
        headers::values_of(given, name).len() > 0 ==> exists|i: int|
            0 <= i < given.len() && headers::is_valid_header(#[trigger] given[i])
                && text::ascii_lower(given[i].name) == name,
    decreases given.len(),
{
    if given.len() > 0 {
        let rest = given.drop_last();
        let last = given[given.len() - 1];
        lemma_sent_name_is_given(rest, name);
        assert(given =~= rest.push(last));
        headers::law_header_adds_its_own_value(rest, last, name);
        if headers::values_of(rest, name).len() > 0 {
            let i = choose|i: int|
                0 <= i < rest.len() && headers::is_valid_header(#[trigger] rest[i])
                    && text::ascii_lower(rest[i].name) == name;
            assert(given[i] == rest[i]);
        }
    } else {
        assert(given =~= Seq::empty());
    }
}

/// A client that cannot be built is told as a failure of streamable HTTP, with the reason
/// whole and unchanged.
pub proof fn law_unbuilt_client_is_told_with_the_reason(error: Seq<char>)
    ensures
        client_build_failure(error) == (crate::error::McpErrorView::TransportCreation {
            transport: crate::error::TransportKindView::StreamableHttp,
            error: "Failed to build client with headers: "@ + error,
        }),
{
}

/// Nothing is advertised exactly where no capability is there.
pub proof fn law_nothing_is_advertised_without_capabilities(capabilities: ClientCapabilities)
    ensures
        advertises_nothing(capabilities) <==> capabilities.experimental is None
            && capabilities.extensions is None && capabilities.roots is None
            && capabilities.sampling is None && capabilities.elicitation is None
            && capabilities.tasks is None,
{
}

/// A client that could not be built is always told as a failure of streamable HTTP that
/// starts with the same words.
pub proof fn law_unbuilt_client_is_a_failed_transport(failure: crate::error::McpErrorView)
    requires
        is_client_build_failure(failure),
    ensures
        failure matches crate::error::McpErrorView::TransportCreation { transport, error }
            && transport is StreamableHttp && "Failed to build client with headers: "@.is_prefix_of(
            error,
        ),
{
    let (error, described) = choose|error: reqwest::Error, described: Seq<char>| #[trigger]
        client_error_texts(error).contains(described) && failure == client_build_failure(described);
    assert("Failed to build client with headers: "@.is_prefix_of(
        "Failed to build client with headers: "@ + described,
    ));
}

} // verus!
