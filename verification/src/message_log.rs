//! What is logged of the messages that pass through a transport.

use crate::text;
use vstd::prelude::*;
use vstd::string::*;

verus! {

/// `rmcp::model::JsonRpcMessage`, carried as it is.
#[verifier::external_type_specification]
#[verifier::external_body]
#[verifier::reject_recursive_types(Req)]
#[verifier::reject_recursive_types(Resp)]
#[verifier::reject_recursive_types(Noti)]
pub struct ExJsonRpcMessage<Req, Resp, Noti>(rmcp::model::JsonRpcMessage<Req, Resp, Noti>);

/// `rmcp::model::ClientRequest`, carried as it is.
#[verifier::external_type_specification]
#[verifier::external_body]
pub struct ExClientRequest(rmcp::model::ClientRequest);

/// `rmcp::model::ClientResult`, carried as it is.
#[verifier::external_type_specification]
#[verifier::external_body]
pub struct ExClientResult(rmcp::model::ClientResult);

/// `rmcp::model::ClientNotification`, carried as it is.
#[verifier::external_type_specification]
#[verifier::external_body]
pub struct ExClientNotification(rmcp::model::ClientNotification);

/// `rmcp::model::ServerRequest`, carried as it is.
#[verifier::external_type_specification]
#[verifier::external_body]
pub struct ExServerRequest(rmcp::model::ServerRequest);

/// `rmcp::model::ServerResult`, carried as it is.
#[verifier::external_type_specification]
#[verifier::external_body]
pub struct ExServerResult(rmcp::model::ServerResult);

/// `rmcp::model::ServerNotification`, carried as it is.
#[verifier::external_type_specification]
#[verifier::external_body]
pub struct ExServerNotification(rmcp::model::ServerNotification);

/// The JSON texts that a message of the client can have. There may be several: a request
/// for completions can hold a hash map, whose order is open. Nothing is among them where
/// the message may have none.
pub uninterp spec fn client_message_jsons(message: rmcp::model::ClientJsonRpcMessage) -> Set<
    Option<Seq<char>>,
>;

/// `serde_json::to_string` on a message of the client; nothing where that fails. The text
/// is one of those that the message can have, which are named, not spelled out.
#[verifier::external_body]
fn client_message_text(message: &rmcp::model::ClientJsonRpcMessage) -> (json: Option<String>)
    ensures
        client_message_jsons(*message).contains(json.deep_view()),
{
    serde_json::to_string(message).ok()
}

/// The JSON text of a message of the server; nothing where it has none.
pub uninterp spec fn server_message_json(message: rmcp::model::ServerJsonRpcMessage) -> Option<
    Seq<char>,
>;

/// `serde_json::to_string` on a message of the server; nothing where that fails. The text
/// depends on the message alone, and is named, not spelled out.
#[verifier::external_body]
fn server_message_text(message: &rmcp::model::ServerJsonRpcMessage) -> (json: Option<String>)
    ensures
        json.deep_view() == server_message_json(*message),
{
    serde_json::to_string(message).ok()
}

/// A line that starts with a label, where there is a text to follow it.
pub open spec fn labelled(label: Seq<char>, text: Option<Seq<char>>) -> Option<Seq<char>> {
    match text {
        Some(text) => Some(label + text),
        None => None,
    }
}

/// Puts a label before a text, where there is one.
fn label_text(label: &str, text: Option<String>) -> (line: Option<String>)
    ensures
        line.deep_view() == labelled(label@, text.deep_view()),
{
    match text {
        Some(text) => Some(text::joined(label, text.as_str())),
        None => None,
    }
}

/// What is logged of a message that is about to be sent, given its JSON text. A message
/// that has none goes unlogged.
pub fn sending_line(json: Option<String>) -> (line: Option<String>)
    ensures
        line.deep_view() == labelled("[info] MCP: Sending request: "@, json.deep_view()),
{
    label_text("[info] MCP: Sending request: ", json)
}

/// What is logged of an attempt to send, given the description of its failure where it
/// failed.
pub fn sent_line(failure: Option<String>) -> (line: Option<String>)
    ensures
        line.deep_view() == labelled(
            "[warn] MCP: Failed to send request: "@,
            failure.deep_view(),
        ),
{
    label_text("[warn] MCP: Failed to send request: ", failure)
}

/// What is logged of a message that was received, given its JSON text. A message that
/// has none goes unlogged.
pub fn received_line(json: Option<String>) -> (line: Option<String>)
    ensures
        line.deep_view() == labelled("[info] MCP: Received response: "@, json.deep_view()),
{
    label_text("[info] MCP: Received response: ", json)
}

/// What is logged of a message of the client that is about to be sent: its JSON text,
/// where it has one, behind the label.
pub fn send(item: &rmcp::model::ClientJsonRpcMessage) -> (line: Option<String>)
    ensures
        exists|json: Option<Seq<char>>| #[trigger]
            client_message_jsons(*item).contains(json) && line.deep_view() == labelled(
                "[info] MCP: Sending request: "@,
                json,
            ),
{
    sending_line(client_message_text(item))
}

/// What is logged of what was received from the server: nothing where the transport gave
/// no message.
pub fn receive(item: Option<&rmcp::model::ServerJsonRpcMessage>) -> (line: Option<String>)
    ensures
        line.deep_view() == labelled(
            "[info] MCP: Received response: "@,
            match item {
                Some(message) => server_message_json(*message),
                None => None,
            },
        ),
{
    match item {
        Some(message) => received_line(server_message_text(message)),
        None => None,
    }
}

/// A text that is there stands whole and unchanged behind its label, and one that is not
/// makes no line.
pub proof fn law_text_stands_behind_its_label(label: Seq<char>, text: Seq<char>)
    ensures
        labelled(label, Some(text)) == Some(label + text),
        labelled(label, None) is None,
{
}

} // verus!
