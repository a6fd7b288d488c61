//! The bodies of requests: of a turn, of a compaction, and over a WebSocket.

use vstd::prelude::*;

use crate::json::{
    group_json_views, json_text, json_views, member_views, push_member, Json, JsonValue,
};
use crate::json_text::{written_object, write_object};
use crate::proto::{OriginatorView, PromptOriginator};
use crate::provider::input::{build_input_items, inputs_of};
use crate::provider::request::{
    convert_tools, effort_name, effort_wire, member_if, no_members, opt_member, push_opt_member,
    push_text_member, summary_name, summary_wire, text_member, tier_name, tier_wire, tools_json,
    verbosity_name, verbosity_wire, PayloadView, PromptPayload, ToolChoice,
};
use crate::provider::responses::{ConfigView, ResponsesConfig};
use crate::text::opt_view;

verus! {

/// The body of a request.
#[derive(Debug)]
pub struct RequestBody {
    pub model: String,
    pub instructions: Option<String>,
    pub input: Vec<JsonValue>,
    pub stream: Option<bool>,
    pub store: Option<bool>,
    pub tools: Vec<JsonValue>,
    pub tool_choice: Option<String>,
    pub effort: Option<String>,
    pub summary: Option<String>,
    pub verbosity: Option<String>,
    /// Whether the encrypted content of reasoning is asked for.
    pub encrypted_reasoning: bool,
    pub prompt_cache_key: Option<String>,
    pub service_tier: Option<String>,
    pub previous_response_id: Option<String>,
}

/// The body of a request, as mathematics.
pub struct BodyView {
    pub model: Seq<char>,
    pub instructions: Option<Seq<char>>,
    pub input: Seq<Json>,
    pub stream: Option<bool>,
    pub store: Option<bool>,
    pub tools: Seq<Json>,
    pub tool_choice: Option<Seq<char>>,
    pub effort: Option<Seq<char>>,
    pub summary: Option<Seq<char>>,
    pub verbosity: Option<Seq<char>>,
    pub encrypted_reasoning: bool,
    pub prompt_cache_key: Option<Seq<char>>,
    pub service_tier: Option<Seq<char>>,
    pub previous_response_id: Option<Seq<char>>,
}

impl View for RequestBody {
    type V = BodyView;

    open spec fn view(&self) -> BodyView {
        BodyView {
            model: self.model@,
            instructions: opt_view(self.instructions),
            input: json_views(self.input@),
            stream: self.stream,
            store: self.store,
            tools: json_views(self.tools@),
            tool_choice: opt_view(self.tool_choice),
            effort: opt_view(self.effort),
            summary: opt_view(self.summary),
            verbosity: opt_view(self.verbosity),
            encrypted_reasoning: self.encrypted_reasoning,
            prompt_cache_key: opt_view(self.prompt_cache_key),
            service_tier: opt_view(self.service_tier),
            previous_response_id: opt_view(self.previous_response_id),
        }
    }
}

/// The key under which the backend caches a prompt: one for each address and
/// session, and for each extension that asks without sharing the user's.
pub open spec fn cache_key_of(
    base_url: Seq<char>,
    session_id: Seq<char>,
    originator: OriginatorView,
    share: bool,
) -> Seq<char> {
    let key = base_url + "#"@ + session_id;
    match originator {
        OriginatorView::Extension { name, .. } => if share {
            key
        } else {
            key + "#"@ + name
        },
        OriginatorView::User => key,
    }
}

/// The key under which the backend caches a prompt.
pub fn prompt_cache_key(
    base_url: &str,
    session_id: &str,
    originator: &PromptOriginator,
    share: bool,
) -> (key: String)
    ensures
        key@ == cache_key_of(base_url@, session_id@, originator@, share),
{
    let mut key = base_url.to_owned();
    key.append("#");
    key.append(session_id);
    if let PromptOriginator::Extension { name, .. } = originator {
        if !share {
            key.append("#");
            key.append(name.as_str());
        }
    }
    key
}

/// The first item of the conversation that a request sends: behind what an
/// earlier response has seen, or the first where there is none to go on from.
pub open spec fn first_sent(request: PayloadView) -> int {
    match request.previous_response {
        Some(previous) if previous.next_item_index <= request.context_items.len() =>
            previous.next_item_index as int,
        _ => 0,
    }
}

/// The response that a request goes on from.
pub open spec fn chained_id(request: PayloadView) -> Option<Seq<char>> {
    match request.previous_response {
        Some(previous) if previous.next_item_index <= request.context_items.len() => Some(
            previous.id,
        ),
        _ => None,
    }
}

/// What a request says of the use of tools.
pub open spec fn choice_of(choice: ToolChoice, has_tools: bool) -> Option<Seq<char>> {
    match choice {
        ToolChoice::Never => Some("none"@),
        ToolChoice::Auto => if has_tools {
            Some("auto"@)
        } else {
            None
        },
    }
}

/// The body of the request for a prompt.
pub open spec fn body_of(config: ConfigView, request: PayloadView) -> BodyView {
    BodyView {
        model: config.model_id,
        instructions: if request.system_prompt.len() == 0 {
            None
        } else {
            Some(request.system_prompt)
        },
        input: inputs_of(
            request.context_items.skip(first_sent(request)),
            config.supports_phase,
        ),
        stream: Some(true),
        store: Some(false),
        tools: tools_json(request.tools),
        tool_choice: choice_of(request.tool_choice, request.tools.len() > 0),
        effort: if config.supports_reasoning_effort {
            effort_name(request.params.effort)
        } else {
            None
        },
        summary: if config.supports_reasoning_summary {
            summary_name(request.params.thinking_summary)
        } else {
            None
        },
        verbosity: if config.supports_verbosity {
            Some(verbosity_name(request.params.verbosity))
        } else {
            None
        },
        encrypted_reasoning: config.supports_encrypted_reasoning,
        prompt_cache_key: if config.supports_prompt_cache_key {
            Some(
                cache_key_of(
                    config.base_url,
                    request.session_id,
                    request.originator,
                    request.share_user_cache_key,
                ),
            )
        } else {
            None
        },
        service_tier: tier_name(request.params.service_tier),
        previous_response_id: chained_id(request),
    }
}

/// The body of the request for a prompt.
pub fn build_request(config: &ResponsesConfig, request: &PromptPayload) -> (body: RequestBody)
    ensures
        body@ == body_of(config@, request@),
{
    let instructions: Option<String> = if request.system_prompt.is_empty() {
        None
    } else {
        Some(request.system_prompt.to_owned())
    };
    let (from, previous_response_id): (usize, Option<String>) = match &request.previous_response {
        Some(previous) => {
            if previous.next_item_index <= request.context_items.len() {
                (previous.next_item_index, Some(previous.id.clone()))
            } else {
                (0, None)
            }
        },
        None => (0, None),
    };
    let input = build_input_items(config.supports_phase, request.context_items, from);
    let tools = convert_tools(request.tools);
    assert(tools@.len() == json_views(tools@).len());
    let tool_choice: Option<String> = match request.tool_choice {
        ToolChoice::Never => Some("none".to_owned()),
        ToolChoice::Auto => {
            if tools.len() > 0 {
                Some("auto".to_owned())
            } else {
                None
            }
        },
    };
    let effort: Option<String> = if config.supports_reasoning_effort {
        effort_wire(request.params.effort)
    } else {
        None
    };
    let summary: Option<String> = if config.supports_reasoning_summary {
        summary_wire(request.params.thinking_summary)
    } else {
        None
    };
    let verbosity: Option<String> = if config.supports_verbosity {
        Some(verbosity_wire(request.params.verbosity))
    } else {
        None
    };
    let key: Option<String> = if config.supports_prompt_cache_key {
        Some(
            prompt_cache_key(
                config.base_url.as_str(),
                request.session_id,
                request.originator,
                request.share_user_cache_key,
            ),
        )
    } else {
        None
    };
    RequestBody {
        model: config.model_id.clone(),
        instructions,
        input,
        stream: Some(true),
        store: Some(config.surface.store_value()),
        tools,
        tool_choice,
        effort,
        summary,
        verbosity,
        encrypted_reasoning: config.supports_encrypted_reasoning,
        prompt_cache_key: key,
        service_tier: tier_wire(request.params.service_tier),
        previous_response_id,
    }
}

/// A prompt that goes on from no earlier response.
pub open spec fn unchained(request: PayloadView) -> PayloadView {
    PayloadView { previous_response: None, ..request }
}

/// The body of the request that compacts a conversation: what the endpoint
/// takes of that of a turn.
pub open spec fn compact_body_of(config: ConfigView, request: PayloadView) -> BodyView {
    BodyView {
        stream: None,
        previous_response_id: None,
        store: None,
        tool_choice: None,
        prompt_cache_key: None,
        service_tier: None,
        encrypted_reasoning: false,
        ..body_of(config, unchained(request))
    }
}

/// A prompt that goes on from another response, or from none.
pub fn with_previous<'a>(
    request: &PromptPayload<'a>,
    previous_response: Option<crate::provider::request::PreviousResponse>,
) -> (changed: PromptPayload<'a>)
    ensures
        changed@ == (PayloadView {
            previous_response: crate::provider::request::opt_previous(previous_response),
            ..request@
        }),
{
    PromptPayload {
        system_prompt: request.system_prompt,
        context_items: request.context_items,
        tools: request.tools,
        params: request.params,
        tool_choice: request.tool_choice,
        previous_response,
        originator: request.originator,
        share_user_cache_key: request.share_user_cache_key,
        session_id: request.session_id,
    }
}

/// The body of the request that compacts a conversation.
pub fn build_compact_request(config: &ResponsesConfig, request: &PromptPayload) -> (body:
    RequestBody)
    ensures
        body@ == compact_body_of(config@, request@),
{
    let plain = with_previous(request, None);
    let mut body = build_request(config, &plain);
    body.stream = None;
    body.previous_response_id = None;
    body.store = None;
    body.tool_choice = None;
    body.prompt_cache_key = None;
    body.service_tier = None;
    body.encrypted_reasoning = false;
    body
}

/// A member that holds a truth value, where there is one.
pub open spec fn opt_flag(key: Seq<char>, flag: Option<bool>) -> Seq<(Seq<char>, Json)> {
    match flag {
        Some(flag) => seq![(key, Json::Bool(flag))],
        None => seq![],
    }
}

/// The members of a body, in the order in which they are sent. What a body does
/// not say has no member.
pub open spec fn body_members(body: BodyView) -> Seq<(Seq<char>, Json)> {
    seq![text_member("model"@, body.model)] + opt_member("instructions"@, body.instructions) + seq![
        ("input"@, Json::Array(body.input)),
    ] + opt_flag("stream"@, body.stream) + opt_flag("store"@, body.store) + member_if(
        body.tools.len() > 0,
        "tools"@,
        Json::Array(body.tools),
    ) + opt_member("tool_choice"@, body.tool_choice) + member_if(
        body.effort is Some || body.summary is Some,
        "reasoning"@,
        Json::Object(opt_member("effort"@, body.effort) + opt_member("summary"@, body.summary)),
    ) + member_if(
        body.verbosity is Some,
        "text"@,
        Json::Object(opt_member("verbosity"@, body.verbosity)),
    ) + member_if(
        body.encrypted_reasoning,
        "include"@,
        Json::Array(seq![Json::Text("reasoning.encrypted_content"@)]),
    ) + opt_member("prompt_cache_key"@, body.prompt_cache_key) + opt_member(
        "service_tier"@,
        body.service_tier,
    ) + opt_member("previous_response_id"@, body.previous_response_id)
}

/// Adds a member that holds a truth value, where there is one.
fn push_opt_flag(members: &mut Vec<(String, JsonValue)>, key: &str, flag: Option<bool>)
    ensures
        member_views(final(members)@) == member_views(old(members)@) + opt_flag(key@, flag),
{
    let ghost before = member_views(members@);
    if let Some(flag) = flag {
        push_member(members, key, JsonValue::Bool(flag));
        assert(before.push((key@, Json::Bool(flag))) =~= before + seq![(key@, Json::Bool(flag))]);
    } else {
        assert(before + seq![] =~= before);
    }
}

/// Adds a member that is there where a condition holds.
fn push_member_if(
    members: &mut Vec<(String, JsonValue)>,
    condition: bool,
    key: &str,
    value: JsonValue,
)
    ensures
        member_views(final(members)@) == member_views(old(members)@) + member_if(
            condition,
            key@,
            value@,
        ),
{
    let ghost before = member_views(members@);
    let ghost v = value@;
    if condition {
        push_member(members, key, value);
        assert(before.push((key@, v)) =~= before + seq![(key@, v)]);
    } else {
        assert(before + seq![] =~= before);
    }
}

/// Adds a member.
fn push_one(members: &mut Vec<(String, JsonValue)>, key: &str, value: JsonValue)
    ensures
        member_views(final(members)@) == member_views(old(members)@) + seq![(key@, value@)],
{
    let ghost before = member_views(members@);
    let ghost v = value@;
    push_member(members, key, value);
    assert(before.push((key@, v)) =~= before + seq![(key@, v)]);
}

/// An array of values.
fn array_value(items: Vec<JsonValue>) -> (value: JsonValue)
    ensures
        value@ == Json::Array(json_views(items@)),
{
    broadcast use group_json_views;

    JsonValue::Array(items)
}

/// What a body says of reasoning.
fn reasoning_value(effort: &Option<String>, summary: &Option<String>) -> (value: JsonValue)
    ensures
        value@ == Json::Object(
            opt_member("effort"@, opt_view(*effort)) + opt_member("summary"@, opt_view(*summary)),
        ),
{
    broadcast use group_json_views;

    let mut members = no_members();
    push_opt_member(&mut members, "effort", effort);
    push_opt_member(&mut members, "summary", summary);
    assert(member_views(members@) =~= opt_member("effort"@, opt_view(*effort)) + opt_member(
        "summary"@,
        opt_view(*summary),
    ));
    JsonValue::Object(members)
}

/// What a body says of the text of the answer.
fn text_format_value(verbosity: &Option<String>) -> (value: JsonValue)
    ensures
        value@ == Json::Object(opt_member("verbosity"@, opt_view(*verbosity))),
{
    broadcast use group_json_views;

    let mut members = no_members();
    push_opt_member(&mut members, "verbosity", verbosity);
    assert(member_views(members@) =~= opt_member("verbosity"@, opt_view(*verbosity)));
    JsonValue::Object(members)
}

/// What a body asks for besides the answer.
fn asked_value() -> (value: JsonValue)
    ensures
        value@ == Json::Array(seq![Json::Text("reasoning.encrypted_content"@)]),
{
    let mut asked: Vec<JsonValue> = Vec::new();
    asked.push(json_text("reasoning.encrypted_content"));
    assert(json_views(asked@) =~= seq![Json::Text("reasoning.encrypted_content"@)]);
    array_value(asked)
}

/// The members of a body.
pub fn request_members(body: RequestBody) -> (members: Vec<(String, JsonValue)>)
    ensures
        member_views(members@) == body_members(body@),
{
    let has_reasoning = body.effort.is_some() || body.summary.is_some();
    let has_text = body.verbosity.is_some();
    assert(body.tools@.len() == json_views(body.tools@).len());
    let has_tools = body.tools.len() > 0;
    let reasoning = reasoning_value(&body.effort, &body.summary);
    let text = text_format_value(&body.verbosity);
    let mut members = no_members();
    push_text_member(&mut members, "model", body.model.as_str());
    assert(member_views(members@) =~= seq![text_member("model"@, body@.model)]);
    push_opt_member(&mut members, "instructions", &body.instructions);
    push_one(&mut members, "input", array_value(body.input));
    push_opt_flag(&mut members, "stream", body.stream);
    push_opt_flag(&mut members, "store", body.store);
    push_member_if(&mut members, has_tools, "tools", array_value(body.tools));
    push_opt_member(&mut members, "tool_choice", &body.tool_choice);
    push_member_if(&mut members, has_reasoning, "reasoning", reasoning);
    push_member_if(&mut members, has_text, "text", text);
    push_member_if(&mut members, body.encrypted_reasoning, "include", asked_value());
    push_opt_member(&mut members, "prompt_cache_key", &body.prompt_cache_key);
    push_opt_member(&mut members, "service_tier", &body.service_tier);
    push_opt_member(&mut members, "previous_response_id", &body.previous_response_id);
    members
}

/// Adds members behind others.
fn append_members(members: &mut Vec<(String, JsonValue)>, more: Vec<(String, JsonValue)>)
    ensures
        member_views(final(members)@) == member_views(old(members)@) + member_views(more@),
{
    let ghost before = members@;
    let ghost all = more@;
    let mut rest = more;
    members.append(&mut rest);
    assert(member_views(members@) =~= member_views(before) + member_views(all));
}

/// The members of what a WebSocket is sent: the type of the message, whether it
/// is to generate nothing, and the body without what the transport implies.
pub open spec fn ws_members(generate: Option<bool>, body: BodyView) -> Seq<(Seq<char>, Json)> {
    seq![text_member("type"@, "response.create"@)] + opt_flag("generate"@, generate)
        + body_members(BodyView { stream: None, ..body })
}

/// What a WebSocket is sent for a turn.
pub fn build_ws_envelope(config: &ResponsesConfig, request: &PromptPayload) -> (members: Vec<
    (String, JsonValue),
>)
    ensures
        member_views(members@) == ws_members(None, body_of(config@, request@)),
{
    let mut body = build_request(config, request);
    body.stream = None;
    let mut members = no_members();
    push_text_member(&mut members, "type", "response.create");
    append_members(&mut members, request_members(body));
    assert(member_views(members@) =~= ws_members(None, body_of(config@, request@)));
    members
}

/// What a WebSocket is sent to warm up the cache for a prompt.
pub fn build_ws_prewarm_envelope(config: &ResponsesConfig, request: &PromptPayload) -> (members:
    Vec<(String, JsonValue)>)
    ensures
        member_views(members@) == ws_members(
            Some(false),
            (BodyView { previous_response_id: None, ..body_of(config@, request@) }),
        ),
{
    let mut body = build_request(config, request);
    body.stream = None;
    body.previous_response_id = None;
    let mut members = no_members();
    push_text_member(&mut members, "type", "response.create");
    push_opt_flag(&mut members, "generate", Some(false));
    append_members(&mut members, request_members(body));
    assert(member_views(members@) =~= ws_members(
        Some(false),
        (BodyView { previous_response_id: None, ..body_of(config@, request@) }),
    ));
    members
}

/// The part of a request that has to be the same for a later turn to go on from
/// a warmed up one: all but the input and the response that it goes on from.
pub open spec fn chain_body(config: ConfigView, request: PayloadView) -> BodyView {
    BodyView { input: seq![], previous_response_id: None, ..body_of(config, request) }
}

/// A text that tells that part of a request from others.
pub open spec fn fingerprint_of(config: ConfigView, request: PayloadView) -> Seq<char> {
    written_object(body_members(chain_body(config, request)))
}

/// A text that tells the part of a request that has to stay the same from
/// others.
pub fn ws_chain_fingerprint(config: &ResponsesConfig, request: &PromptPayload) -> (text: String)
    ensures
        text@ == fingerprint_of(config@, request@),
{
    let mut body = build_request(config, request);
    body.input = Vec::new();
    assert(json_views(body.input@) =~= seq![]);
    body.previous_response_id = None;
    let members = request_members(body);
    write_object(&members)
}

/// The text of the request for a prompt.
pub fn request_text(config: &ResponsesConfig, request: &PromptPayload) -> (text: String)
    ensures
        text@ == written_object(body_members(body_of(config@, request@))),
{
    write_object(&request_members(build_request(config, request)))
}

/// The text of the request that compacts a conversation.
pub fn compact_request_text(config: &ResponsesConfig, request: &PromptPayload) -> (text: String)
    ensures
        text@ == written_object(body_members(compact_body_of(config@, request@))),
{
    write_object(&request_members(build_compact_request(config, request)))
}

/// A request that goes on from an earlier response, and that response's view of
/// the conversation, make up the whole conversation.
pub proof fn law_chained_request_loses_nothing(config: ConfigView, request: PayloadView)
    ensures
        body_of(config, unchained(request)).input == inputs_of(
            request.context_items.take(first_sent(request)),
            config.supports_phase,
        ) + body_of(config, request).input,
{
    crate::provider::input::law_inputs_split(
        request.context_items,
        first_sent(request),
        config.supports_phase,
    );
    assert(request.context_items.skip(0) =~= request.context_items);
}

/// The body never carries the credentials: requests that differ in the bearer
/// and the account alone have the same body.
pub proof fn law_body_holds_no_credentials(
    config: ConfigView,
    other: ConfigView,
    request: PayloadView,
)
    requires
        other == (ConfigView { api_key: other.api_key, account_id: other.account_id, ..config }),
    ensures
        body_of(config, request) == body_of(other, request),
        compact_body_of(config, request) == compact_body_of(other, request),
{
}

/// The part of a request that a warmed up turn is matched by does not depend on
/// the conversation.
pub proof fn law_fingerprint_ignores_the_conversation(
    config: ConfigView,
    request: PayloadView,
    other: PayloadView,
)
    requires
        other == (PayloadView {
            context_items: other.context_items,
            previous_response: other.previous_response,
            ..request
        }),
    ensures
        chain_body(config, request) == chain_body(config, other),
{
}

} // verus!
