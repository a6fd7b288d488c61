//! The request that a prompt becomes.

use vstd::prelude::*;

use crate::json::{
    group_json_views, json_text, json_views, member_views, push_member, Json, JsonValue,
};
use crate::proto::{OriginatorView, PromptOriginator};
use crate::provider::context::{
    item_views, tool_views, ContextItem, FormatView, ItemView, MessagePhase, ToolDefinition,
    ToolFormat, ToolGrammarSyntax, ToolType, ToolView,
};
use crate::provider::models::{Effort, ThinkingSummary, Verbosity};
use crate::text::{chars_of, opt_view};

verus! {

/// How fast, and at what price, a prompt is served.
#[derive(Clone, Copy, Debug, PartialEq, Eq, Structural)]
pub enum ServiceTier {
    Fast,
    Flex,
}

/// What a prompt asks of its model.
#[derive(Clone, Copy, Debug, PartialEq, Eq, Structural)]
pub struct ModelParams {
    pub effort: Effort,
    pub verbosity: Verbosity,
    pub thinking_summary: ThinkingSummary,
    pub service_tier: Option<ServiceTier>,
}

/// Whether the model may call tools.
#[derive(Clone, Copy, Debug, PartialEq, Eq, Structural)]
pub enum ToolChoice {
    Auto,
    Never,
}

/// How a request goes out.
#[derive(Clone, Copy, Debug, PartialEq, Eq, Structural)]
pub enum Transport {
    HttpSse,
    Websocket,
}

/// An earlier response that a request goes on from.
#[derive(Debug, PartialEq, Eq)]
pub struct PreviousResponse {
    pub id: String,
    /// The first item of the conversation that the response has not seen.
    pub next_item_index: usize,
    pub transport: Option<Transport>,
}

/// An earlier response, as mathematics.
pub struct PreviousView {
    pub id: Seq<char>,
    pub next_item_index: usize,
    pub transport: Option<Transport>,
}

impl View for PreviousResponse {
    type V = PreviousView;

    open spec fn view(&self) -> PreviousView {
        PreviousView {
            id: self.id@,
            next_item_index: self.next_item_index,
            transport: self.transport,
        }
    }
}

impl PreviousResponse {
    /// A copy.
    pub fn copy(&self) -> (previous: PreviousResponse)
        ensures
            previous@ == self@,
    {
        PreviousResponse {
            id: self.id.clone(),
            next_item_index: self.next_item_index,
            transport: self.transport,
        }
    }
}

/// The view of an optional earlier response.
pub open spec fn opt_previous(previous: Option<PreviousResponse>) -> Option<PreviousView> {
    match previous {
        Some(previous) => Some(previous@),
        None => None,
    }
}

/// A prompt, as a request takes it.
#[derive(Debug)]
pub struct PromptPayload<'a> {
    pub system_prompt: &'a str,
    pub context_items: &'a Vec<ContextItem>,
    pub tools: &'a Vec<ToolDefinition>,
    pub params: ModelParams,
    pub tool_choice: ToolChoice,
    pub previous_response: Option<PreviousResponse>,
    pub originator: &'a PromptOriginator,
    pub share_user_cache_key: bool,
    pub session_id: &'a str,
}

/// A prompt, as mathematics.
pub struct PayloadView {
    pub system_prompt: Seq<char>,
    pub context_items: Seq<ItemView>,
    pub tools: Seq<ToolView>,
    pub params: ModelParams,
    pub tool_choice: ToolChoice,
    pub previous_response: Option<PreviousView>,
    pub originator: OriginatorView,
    pub share_user_cache_key: bool,
    pub session_id: Seq<char>,
}

impl<'a> View for PromptPayload<'a> {
    type V = PayloadView;

    open spec fn view(&self) -> PayloadView {
        PayloadView {
            system_prompt: self.system_prompt@,
            context_items: item_views(self.context_items@),
            tools: tool_views(self.tools@),
            params: self.params,
            tool_choice: self.tool_choice,
            previous_response: opt_previous(self.previous_response),
            originator: self.originator@,
            share_user_cache_key: self.share_user_cache_key,
            session_id: self.session_id@,
        }
    }
}

/// The name of an effort in a request; nothing where it is off.
pub open spec fn effort_name(effort: Effort) -> Option<Seq<char>> {
    match effort {
        Effort::Off => None,
        Effort::Minimal => Some("minimal"@),
        Effort::Low => Some("low"@),
        Effort::Medium => Some("medium"@),
        Effort::High => Some("high"@),
        Effort::XHigh => Some("xhigh"@),
    }
}

/// The name of an effort in a request.
pub fn effort_wire(effort: Effort) -> (name: Option<String>)
    ensures
        opt_view(name) == effort_name(effort),
{
    match effort {
        Effort::Off => None,
        Effort::Minimal => Some("minimal".to_owned()),
        Effort::Low => Some("low".to_owned()),
        Effort::Medium => Some("medium".to_owned()),
        Effort::High => Some("high".to_owned()),
        Effort::XHigh => Some("xhigh".to_owned()),
    }
}

/// The name of a summary in a request; nothing where it is off.
pub open spec fn summary_name(summary: ThinkingSummary) -> Option<Seq<char>> {
    match summary {
        ThinkingSummary::Off => None,
        ThinkingSummary::Auto => Some("auto"@),
        ThinkingSummary::Concise => Some("concise"@),
        ThinkingSummary::Detailed => Some("detailed"@),
    }
}

/// The name of a summary in a request.
pub fn summary_wire(summary: ThinkingSummary) -> (name: Option<String>)
    ensures
        opt_view(name) == summary_name(summary),
{
    match summary {
        ThinkingSummary::Off => None,
        ThinkingSummary::Auto => Some("auto".to_owned()),
        ThinkingSummary::Concise => Some("concise".to_owned()),
        ThinkingSummary::Detailed => Some("detailed".to_owned()),
    }
}

/// The name of a verbosity in a request.
pub open spec fn verbosity_name(verbosity: Verbosity) -> Seq<char> {
    match verbosity {
        Verbosity::Low => "low"@,
        Verbosity::Medium => "medium"@,
        Verbosity::High => "high"@,
    }
}

/// The name of a verbosity in a request.
pub fn verbosity_wire(verbosity: Verbosity) -> (name: String)
    ensures
        name@ == verbosity_name(verbosity),
{
    match verbosity {
        Verbosity::Low => "low".to_owned(),
        Verbosity::Medium => "medium".to_owned(),
        Verbosity::High => "high".to_owned(),
    }
}

/// The name of a service tier in a request.
pub open spec fn tier_name(tier: Option<ServiceTier>) -> Option<Seq<char>> {
    match tier {
        Some(ServiceTier::Fast) => Some("fast"@),
        Some(ServiceTier::Flex) => Some("flex"@),
        None => None,
    }
}

/// The name of a service tier in a request.
pub fn tier_wire(tier: Option<ServiceTier>) -> (name: Option<String>)
    ensures
        opt_view(name) == tier_name(tier),
{
    match tier {
        Some(ServiceTier::Fast) => Some("fast".to_owned()),
        Some(ServiceTier::Flex) => Some("flex".to_owned()),
        None => None,
    }
}

/// The name of a phase in a request.
pub open spec fn phase_name(phase: MessagePhase) -> Seq<char> {
    match phase {
        MessagePhase::Commentary => "commentary"@,
        MessagePhase::FinalAnswer => "final_answer"@,
    }
}

/// The name of a phase in a request.
pub fn phase_wire(phase: MessagePhase) -> (name: String)
    ensures
        name@ == phase_name(phase),
{
    match phase {
        MessagePhase::Commentary => "commentary".to_owned(),
        MessagePhase::FinalAnswer => "final_answer".to_owned(),
    }
}

/// Whether a character may stand in the name of a tool.
pub open spec fn is_name_char(c: char) -> bool {
    ||| 'a' <= c && c <= 'z'
    ||| 'A' <= c && c <= 'Z'
    ||| '0' <= c && c <= '9'
    ||| c == '_'
    ||| c == '-'
}

/// The name of a tool with an underscore for every character that may not stand
/// in one.
pub open spec fn encoded_name(name: Seq<char>) -> Seq<char> {
    name.map_values(
        |c: char|
            if is_name_char(c) {
                c
            } else {
                '_'
            },
    )
}

/// The name of a tool as a request takes it.
pub fn encode_tool_name(name: &str) -> (encoded: String)
    ensures
        encoded@ == encoded_name(name@),
{
    let chars = chars_of(name);
    let mut encoded = String::new();
    let mut i: usize = 0;
    assert(encoded@ =~= encoded_name(name@).take(0));
    while i < chars.len()
        invariant
            i <= chars@.len(),
            chars@ == name@,
            encoded@ == encoded_name(name@).take(i as int),
        decreases chars.len() - i,
    {
        let c = chars[i];
        if ('a' <= c && c <= 'z') || ('A' <= c && c <= 'Z') || ('0' <= c && c <= '9') || c == '_'
            || c == '-' {
            encoded.push(c);
        } else {
            encoded.push('_');
        }
        i += 1;
        assert(encoded@ =~= encoded_name(name@).take(i as int));
    }
    assert(encoded_name(name@).take(i as int) =~= encoded_name(name@));
    encoded
}

/// A member that holds a text.
pub open spec fn text_member(key: Seq<char>, text: Seq<char>) -> (Seq<char>, Json) {
    (key, Json::Text(text))
}

/// A member that holds a text, where there is one.
pub open spec fn opt_member(key: Seq<char>, text: Option<Seq<char>>) -> Seq<(Seq<char>, Json)> {
    match text {
        Some(text) => seq![text_member(key, text)],
        None => seq![],
    }
}

/// A member that is there where a condition holds.
pub open spec fn member_if(condition: bool, key: Seq<char>, value: Json) -> Seq<(Seq<char>, Json)> {
    if condition {
        seq![(key, value)]
    } else {
        seq![]
    }
}

/// Adds a member that holds a text.
pub fn push_text_member(members: &mut Vec<(String, JsonValue)>, key: &str, text: &str)
    ensures
        member_views(final(members)@) == member_views(old(members)@).push(text_member(key@, text@)),
{
    push_member(members, key, json_text(text));
}

/// Adds a member that holds a text, where there is one.
pub fn push_opt_member(members: &mut Vec<(String, JsonValue)>, key: &str, text: &Option<String>)
    ensures
        member_views(final(members)@) == member_views(old(members)@) + opt_member(
            key@,
            opt_view(*text),
        ),
{
    let ghost before = member_views(members@);
    if let Some(text) = text {
        push_text_member(members, key, text.as_str());
        assert(before.push(text_member(key@, text@)) =~= before + seq![text_member(key@, text@)]);
    } else {
        assert(before + seq![] =~= before);
    }
}

/// No members.
pub fn no_members() -> (members: Vec<(String, JsonValue)>)
    ensures
        member_views(members@) == Seq::<(Seq<char>, Json)>::empty(),
{
    let members: Vec<(String, JsonValue)> = Vec::new();
    assert(member_views(members@) =~= Seq::<(Seq<char>, Json)>::empty());
    members
}

/// What the format of a tool becomes.
pub open spec fn format_json(format: FormatView) -> Json {
    match format {
        FormatView::Text => Json::Object(seq![text_member("type"@, "text"@)]),
        FormatView::Grammar { syntax, definition } => Json::Object(
            seq![
                text_member("type"@, "grammar"@),
                text_member(
                    "syntax"@,
                    match syntax {
                        ToolGrammarSyntax::Lark => "lark"@,
                        ToolGrammarSyntax::Regex => "regex"@,
                    },
                ),
                text_member("definition"@, definition),
            ],
        ),
    }
}

/// What the format of a tool becomes.
pub fn serialize_tool_format(format: &ToolFormat) -> (value: JsonValue)
    ensures
        value@ == format_json(format@),
{
    broadcast use group_json_views;

    let mut members = no_members();
    match format {
        ToolFormat::Text => {
            push_text_member(&mut members, "type", "text");
        },
        ToolFormat::Grammar { syntax, definition } => {
            push_text_member(&mut members, "type", "grammar");
            match syntax {
                ToolGrammarSyntax::Lark => push_text_member(&mut members, "syntax", "lark"),
                ToolGrammarSyntax::Regex => push_text_member(&mut members, "syntax", "regex"),
            }
            push_text_member(&mut members, "definition", definition.as_str());
        },
    }
    assert(member_views(members@) =~= format_json(format@)->Object_0);
    JsonValue::Object(members)
}

/// What a tool becomes: its name as the model sees it, and how it is called.
pub open spec fn tool_json(tool: ToolView) -> Json {
    let name = encoded_name(
        match tool.model_visible_name {
            Some(name) => name,
            None => tool.name,
        },
    );
    match tool.tool_type {
        ToolType::Function => Json::Object(
            seq![
                text_member("type"@, "function"@),
                text_member("name"@, name),
                ("strict"@, Json::Null),
            ] + opt_member("description"@, tool.description) + match tool.parameters {
                Some(parameters) => seq![("parameters"@, parameters)],
                None => seq![],
            },
        ),
        ToolType::Custom => Json::Object(
            seq![text_member("type"@, "custom"@), text_member("name"@, name)] + opt_member(
                "description"@,
                tool.description,
            ) + match tool.format {
                Some(format) => seq![("format"@, format_json(format))],
                None => seq![],
            },
        ),
    }
}

/// What a tool becomes.
pub fn convert_tool_definition(tool: &ToolDefinition) -> (value: JsonValue)
    ensures
        value@ == tool_json(tool@),
{
    broadcast use group_json_views;

    let name = match &tool.model_visible_name {
        Some(name) => encode_tool_name(name.as_str()),
        None => encode_tool_name(tool.name.as_str()),
    };
    let mut members = no_members();
    match tool.tool_type {
        ToolType::Function => {
            push_text_member(&mut members, "type", "function");
            push_text_member(&mut members, "name", name.as_str());
            push_member(&mut members, "strict", JsonValue::Null);
            push_opt_member(&mut members, "description", &tool.description);
            if let Some(parameters) = &tool.parameters {
                push_member(&mut members, "parameters", parameters.copy());
            }
        },
        ToolType::Custom => {
            push_text_member(&mut members, "type", "custom");
            push_text_member(&mut members, "name", name.as_str());
            push_opt_member(&mut members, "description", &tool.description);
            if let Some(format) = &tool.format {
                push_member(&mut members, "format", serialize_tool_format(format));
            }
        },
    }
    assert(member_views(members@) =~= tool_json(tool@)->Object_0);
    JsonValue::Object(members)
}

/// What a list of tools becomes.
pub open spec fn tools_json(tools: Seq<ToolView>) -> Seq<Json> {
    tools.map_values(|tool: ToolView| tool_json(tool))
}

/// What a list of tools becomes.
pub fn convert_tools(tools: &Vec<ToolDefinition>) -> (values: Vec<JsonValue>)
    ensures
        json_views(values@) == tools_json(tool_views(tools@)),
{
    let ghost all = tools_json(tool_views(tools@));
    let mut values: Vec<JsonValue> = Vec::new();
    let mut i: usize = 0;
    assert(json_views(values@) =~= all.take(0));
    while i < tools.len()
        invariant
            i <= tools@.len(),
            all == tools_json(tool_views(tools@)),
            json_views(values@) == all.take(i as int),
        decreases tools.len() - i,
    {
        let ghost before = values@;
        let value = convert_tool_definition(&tools[i]);
        values.push(value);
        assert(json_views(values@) =~= json_views(before).push(value@));
        i += 1;
        assert(json_views(values@) =~= all.take(i as int));
    }
    assert(all.take(i as int) =~= all);
    values
}

/// The name of a tool that goes out has only characters that may stand in one,
/// as many as it had; a name that has no others goes out as it is.
pub proof fn law_encoded_name_is_clean(name: Seq<char>)
    ensures
        encoded_name(name).len() == name.len(),
        forall|i: int| 0 <= i < name.len() ==> is_name_char(#[trigger] encoded_name(name)[i]),
        (forall|i: int| 0 <= i < name.len() ==> is_name_char(#[trigger] name[i])) ==> encoded_name(
            name,
        ) == name,
        encoded_name(encoded_name(name)) == encoded_name(name),
{
    let once = encoded_name(name);
    if forall|i: int| 0 <= i < name.len() ==> is_name_char(#[trigger] name[i]) {
        assert(once =~= name);
    }
    assert(encoded_name(once) =~= once);
}

} // verus!
