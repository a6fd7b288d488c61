//! What is written down of requests and responses, for debugging.

use vstd::prelude::*;

use crate::json::{
    group_json_views, json_text, member_views, push_member, Json, JsonValue,
};
use crate::provider::body::{
    body_members, body_of, build_request, build_ws_envelope, request_members, ws_members,
};
use crate::provider::request::{
    opt_previous, PayloadView, PreviousResponse, PreviousView, PromptPayload, ToolChoice,
    Transport,
};
use crate::provider::responses::{ConfigView, ResponsesConfig};
use crate::text::{decimal, decimal_of};

verus! {

/// The name of a transport.
pub open spec fn label_of(transport: Transport) -> Seq<char> {
    match transport {
        Transport::HttpSse => "http-sse"@,
        Transport::Websocket => "websocket"@,
    }
}

/// The name of a transport.
pub fn transport_label(transport: Transport) -> (label: String)
    ensures
        label@ == label_of(transport),
{
    match transport {
        Transport::HttpSse => "http-sse".to_owned(),
        Transport::Websocket => "websocket".to_owned(),
    }
}

/// The name of the file for a request or a response.
pub open spec fn file_name_of(
    micros: u64,
    session_prompt_id: Seq<char>,
    transport: Transport,
    what: Seq<char>,
) -> Seq<char> {
    decimal_of(micros as nat) + "-"@ + session_prompt_id + "-"@ + label_of(transport) + "-"@ + what
        + ".json"@
}

/// The name of the file for a request or a response.
pub fn debug_file_name(micros: u64, session_prompt_id: &str, transport: Transport, what: &str) -> (name:
    String)
    ensures
        name@ == file_name_of(micros, session_prompt_id@, transport, what@),
{
    let mut name = decimal(micros);
    let label = transport_label(transport);
    name.append("-");
    name.append(session_prompt_id);
    name.append("-");
    name.append(label.as_str());
    name.append("-");
    name.append(what);
    name.append(".json");
    name
}

/// What is written of the response that a request goes on from.
pub open spec fn previous_json(previous: Option<PreviousView>) -> Json {
    match previous {
        Some(previous) => Json::Object(
            seq![
                ("id"@, Json::Text(previous.id)),
                ("next_item_index"@, Json::Integer(previous.next_item_index as int)),
                (
                    "transport"@,
                    match previous.transport {
                        Some(Transport::HttpSse) => Json::Text("http_sse"@),
                        Some(Transport::Websocket) => Json::Text("websocket"@),
                        None => Json::Null,
                    },
                ),
            ],
        ),
        None => Json::Null,
    }
}

/// What is written of the response that a request goes on from.
fn previous_value(previous: &Option<PreviousResponse>) -> (value: JsonValue)
    ensures
        value@ == previous_json(opt_previous(*previous)),
{
    broadcast use group_json_views;

    match previous {
        Some(previous) => {
            let transport = match previous.transport {
                Some(Transport::HttpSse) => json_text("http_sse"),
                Some(Transport::Websocket) => json_text("websocket"),
                None => JsonValue::Null,
            };
            let mut members: Vec<(String, JsonValue)> = Vec::new();
            assert(member_views(members@) =~= seq![]);
            push_member(&mut members, "id", json_text(previous.id.as_str()));
            push_member(
                &mut members,
                "next_item_index",
                JsonValue::Integer(previous.next_item_index as i128),
            );
            push_member(&mut members, "transport", transport);
            assert(member_views(members@) =~= previous_json(Some(previous@))->Object_0);
            JsonValue::Object(members)
        },
        None => JsonValue::Null,
    }
}

/// The body that a transport sends.
pub open spec fn sent_members(config: ConfigView, request: PayloadView, transport: Transport) -> Seq<
    (Seq<char>, Json),
> {
    match transport {
        Transport::HttpSse => body_members(body_of(config, request)),
        Transport::Websocket => ws_members(None, body_of(config, request)),
    }
}

/// What is written of a request: what it is about, and its body. It holds no
/// header, and so no credential.
pub open spec fn request_json(
    config: ConfigView,
    request: PayloadView,
    session_prompt_id: Seq<char>,
    transport: Transport,
) -> Json {
    Json::Object(
        seq![
            ("session_id"@, Json::Text(request.session_id)),
            ("session_prompt_id"@, Json::Text(session_prompt_id)),
            ("transport"@, Json::Text(label_of(transport))),
            ("backend"@, Json::Text("responses"@)),
            ("model"@, Json::Text(config.model_id)),
            ("previous_response"@, previous_json(request.previous_response)),
            ("context_item_count"@, Json::Integer(request.context_items.len() as int)),
            ("tool_count"@, Json::Integer(request.tools.len() as int)),
            (
                "tool_choice"@,
                match request.tool_choice {
                    ToolChoice::Auto => Json::Text("auto"@),
                    ToolChoice::Never => Json::Text("none"@),
                },
            ),
            ("body"@, Json::Object(sent_members(config, request, transport))),
        ],
    )
}

/// What is written of a request.
pub fn debug_request_json(
    config: &ResponsesConfig,
    request: &PromptPayload,
    session_prompt_id: &str,
    transport: Transport,
) -> (value: JsonValue)
    ensures
        value@ == request_json(config@, request@, session_prompt_id@, transport),
{
    broadcast use group_json_views;

    let body = match transport {
        Transport::HttpSse => request_members(build_request(config, request)),
        Transport::Websocket => build_ws_envelope(config, request),
    };
    let label = transport_label(transport);
    let choice = match request.tool_choice {
        ToolChoice::Auto => json_text("auto"),
        ToolChoice::Never => json_text("none"),
    };
    let mut members: Vec<(String, JsonValue)> = Vec::new();
    assert(member_views(members@) =~= seq![]);
    push_member(&mut members, "session_id", json_text(request.session_id));
    push_member(&mut members, "session_prompt_id", json_text(session_prompt_id));
    push_member(&mut members, "transport", json_text(label.as_str()));
    push_member(&mut members, "backend", json_text("responses"));
    push_member(&mut members, "model", json_text(config.model_id.as_str()));
    push_member(&mut members, "previous_response", previous_value(&request.previous_response));
    push_member(
        &mut members,
        "context_item_count",
        JsonValue::Integer(request.context_items.len() as i128),
    );
    push_member(&mut members, "tool_count", JsonValue::Integer(request.tools.len() as i128));
    push_member(&mut members, "tool_choice", choice);
    push_member(&mut members, "body", JsonValue::Object(body));
    assert(member_views(members@) =~= request_json(
        config@,
        request@,
        session_prompt_id@,
        transport,
    )->Object_0);
    JsonValue::Object(members)
}

/// What is written of a request does not depend on the credentials.
pub proof fn law_debug_holds_no_credentials(
    config: ConfigView,
    other: ConfigView,
    request: PayloadView,
    session_prompt_id: Seq<char>,
    transport: Transport,
)
    requires
        other == (ConfigView { api_key: other.api_key, account_id: other.account_id, ..config }),
    ensures
        request_json(config, request, session_prompt_id, transport) == request_json(
            other,
            request,
            session_prompt_id,
            transport,
        ),
{
    crate::provider::body::law_body_holds_no_credentials(config, other, request);
}

} // verus!
