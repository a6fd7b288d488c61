//! The items of a conversation, as a request takes them.

use vstd::prelude::*;

use crate::convert::{cbor_to_nearest_json, nearest_json};
use crate::json::{group_json_views, json_views, member_views, push_member, Json, JsonValue};
use crate::json_text::{written_json, write_json};
use crate::provider::context::{
    item_views, ContextItem, ContextRole, ItemView, MessagePhase, StatusView, ToolResultStatus,
    ToolType,
};
use crate::provider::request::{
    encode_tool_name, encoded_name, no_members, opt_member, phase_name, phase_wire,
    push_opt_member, push_text_member, text_member,
};
use crate::text::{join, join_of, opt_view, starts_with, views};
use crate::value::{Cbor, CborValue};

verus! {

/// A part of a message of the user.
pub open spec fn input_text(text: Seq<char>) -> Json {
    Json::Object(seq![text_member("type"@, "input_text"@), text_member("text"@, text)])
}

/// A part of a message of the user.
pub fn input_text_item(text: &str) -> (value: JsonValue)
    ensures
        value@ == input_text(text@),
{
    broadcast use group_json_views;

    let mut members = no_members();
    push_text_member(&mut members, "type", "input_text");
    push_text_member(&mut members, "text", text);
    assert(member_views(members@) =~= input_text(text@)->Object_0);
    JsonValue::Object(members)
}

/// A message of the user, all its texts in one.
pub open spec fn user_message(content: Seq<Seq<char>>) -> Json {
    Json::Object(
        seq![
            text_member("role"@, "user"@),
            ("content"@, Json::Array(content.map_values(|text: Seq<char>| input_text(text)))),
        ],
    )
}

/// A message of the user.
pub fn user_message_item(content: &Vec<String>) -> (value: JsonValue)
    ensures
        value@ == user_message(views(content@)),
{
    broadcast use group_json_views;

    let ghost all = views(content@).map_values(|text: Seq<char>| input_text(text));
    let mut parts: Vec<JsonValue> = Vec::new();
    let mut i: usize = 0;
    assert(json_views(parts@) =~= all.take(0));
    while i < content.len()
        invariant
            i <= content@.len(),
            all == views(content@).map_values(|text: Seq<char>| input_text(text)),
            json_views(parts@) == all.take(i as int),
        decreases content.len() - i,
    {
        let ghost before = parts@;
        let part = input_text_item(content[i].as_str());
        assert(views(content@)[i as int] == content@[i as int]@);
        assert(part@ == all[i as int]);
        parts.push(part);
        assert(json_views(parts@) =~= json_views(before).push(part@));
        i += 1;
        assert(json_views(parts@) =~= all.take(i as int));
    }
    assert(all.take(i as int) =~= all);
    let mut members = no_members();
    push_text_member(&mut members, "role", "user");
    push_member(&mut members, "content", JsonValue::Array(parts));
    assert(member_views(members@) =~= user_message(views(content@))->Object_0);
    JsonValue::Object(members)
}

/// A message of the assistant: its texts joined by line breaks, and its phase
/// where it is marked.
pub open spec fn assistant_message(content: Seq<Seq<char>>, phase: Option<Seq<char>>) -> Json {
    Json::Object(
        seq![
            text_member("type"@, "message"@),
            text_member("role"@, "assistant"@),
            (
                "content"@,
                Json::Array(
                    seq![
                        Json::Object(
                            seq![
                                text_member("type"@, "output_text"@),
                                text_member("text"@, join_of(content, "\n"@)),
                                ("annotations"@, Json::Array(seq![])),
                            ],
                        ),
                    ],
                ),
            ),
        ] + opt_member("phase"@, phase),
    )
}

/// A message of the assistant.
pub fn assistant_message_item(content: &Vec<String>, phase: &Option<String>) -> (value: JsonValue)
    ensures
        value@ == assistant_message(views(content@), opt_view(*phase)),
{
    broadcast use group_json_views;

    let text = join(content, "\n");
    let none: Vec<JsonValue> = Vec::new();
    assert(json_views(none@) =~= seq![]);
    let mut inner = no_members();
    push_text_member(&mut inner, "type", "output_text");
    push_text_member(&mut inner, "text", text.as_str());
    push_member(&mut inner, "annotations", JsonValue::Array(none));
    let ghost part_members = seq![
        text_member("type"@, "output_text"@),
        text_member("text"@, text@),
        ("annotations"@, Json::Array(seq![])),
    ];
    assert(member_views(inner@) =~= part_members);
    let part = JsonValue::Object(inner);
    assert(part@ == Json::Object(part_members));
    let mut parts: Vec<JsonValue> = Vec::new();
    parts.push(part);
    assert(json_views(parts@) =~= seq![Json::Object(part_members)]);
    let mut members = no_members();
    push_text_member(&mut members, "type", "message");
    push_text_member(&mut members, "role", "assistant");
    push_member(&mut members, "content", JsonValue::Array(parts));
    push_opt_member(&mut members, "phase", phase);
    assert(member_views(members@) =~= assistant_message(
        views(content@),
        opt_view(*phase),
    )->Object_0);
    JsonValue::Object(members)
}

/// An id with a prefix before it, where it has none yet.
pub open spec fn with_prefix(id: Seq<char>, prefix: Seq<char>) -> Seq<char> {
    if prefix.is_prefix_of(id) {
        id
    } else {
        prefix + id
    }
}

/// An id with a prefix before it, where it has none yet.
pub fn prefixed(id: &str, prefix: &str) -> (text: String)
    ensures
        text@ == with_prefix(id@, prefix@),
{
    if starts_with(id, prefix) {
        id.to_owned()
    } else {
        let mut text = prefix.to_owned();
        text.append(id);
        text
    }
}

/// A call of a tool, with its input as a text.
pub open spec fn tool_call_json(
    call_id: Seq<char>,
    name: Seq<char>,
    tool_type: ToolType,
    input: Seq<char>,
) -> Json {
    match tool_type {
        ToolType::Function => Json::Object(
            seq![
                text_member("type"@, "function_call"@),
                text_member("id"@, with_prefix(call_id, "fc_"@)),
                text_member("call_id"@, call_id),
                text_member("name"@, encoded_name(name)),
                text_member("arguments"@, input),
            ],
        ),
        ToolType::Custom => Json::Object(
            seq![
                text_member("type"@, "custom_tool_call"@),
                text_member("id"@, with_prefix(call_id, "ctc_"@)),
                text_member("call_id"@, call_id),
                text_member("name"@, encoded_name(name)),
                text_member("input"@, input),
            ],
        ),
    }
}

/// A call of a tool, with its input as a text.
pub fn tool_call_item(call_id: &str, name: &str, tool_type: ToolType, input: &str) -> (value:
    JsonValue)
    ensures
        value@ == tool_call_json(call_id@, name@, tool_type, input@),
{
    broadcast use group_json_views;

    let encoded = encode_tool_name(name);
    let mut members = no_members();
    match tool_type {
        ToolType::Function => {
            let id = prefixed(call_id, "fc_");
            push_text_member(&mut members, "type", "function_call");
            push_text_member(&mut members, "id", id.as_str());
            push_text_member(&mut members, "call_id", call_id);
            push_text_member(&mut members, "name", encoded.as_str());
            push_text_member(&mut members, "arguments", input);
        },
        ToolType::Custom => {
            let id = prefixed(call_id, "ctc_");
            push_text_member(&mut members, "type", "custom_tool_call");
            push_text_member(&mut members, "id", id.as_str());
            push_text_member(&mut members, "call_id", call_id);
            push_text_member(&mut members, "name", encoded.as_str());
            push_text_member(&mut members, "input", input);
        },
    }
    assert(member_views(members@) =~= tool_call_json(
        call_id@,
        name@,
        tool_type,
        input@,
    )->Object_0);
    JsonValue::Object(members)
}

/// The result of a tool, as a text.
pub open spec fn tool_result_json(call_id: Seq<char>, tool_type: ToolType, output: Seq<char>) -> Json {
    Json::Object(
        seq![
            text_member(
                "type"@,
                match tool_type {
                    ToolType::Function => "function_call_output"@,
                    ToolType::Custom => "custom_tool_call_output"@,
                },
            ),
            text_member("call_id"@, call_id),
            text_member("output"@, output),
        ],
    )
}

/// The result of a tool, as a text.
pub fn tool_result_item(call_id: &str, tool_type: ToolType, output: &str) -> (value: JsonValue)
    ensures
        value@ == tool_result_json(call_id@, tool_type, output@),
{
    broadcast use group_json_views;

    let mut members = no_members();
    match tool_type {
        ToolType::Function => push_text_member(&mut members, "type", "function_call_output"),
        ToolType::Custom => push_text_member(&mut members, "type", "custom_tool_call_output"),
    }
    push_text_member(&mut members, "call_id", call_id);
    push_text_member(&mut members, "output", output);
    assert(member_views(members@) =~= tool_result_json(call_id@, tool_type, output@)->Object_0);
    JsonValue::Object(members)
}

/// A value as JSON text.
pub open spec fn cbor_json_text(value: Cbor) -> Seq<char> {
    written_json(nearest_json(value))
}

/// A value as a text: itself where it is one, else as JSON.
pub open spec fn plain_text(value: Cbor) -> Seq<char> {
    match value {
        Cbor::Text(text) => text,
        _ => cbor_json_text(value),
    }
}

/// A value as JSON text.
pub fn value_json_text(value: &CborValue) -> (text: String)
    ensures
        text@ == cbor_json_text(value@),
{
    write_json(&cbor_to_nearest_json(value))
}

/// A value as a text.
pub fn value_plain_text(value: &CborValue) -> (text: String)
    ensures
        text@ == plain_text(value@),
{
    match value {
        CborValue::Text(text) => text.clone(),
        _ => value_json_text(value),
    }
}

/// What the model is told of a call that ended, given the output of a success.
pub open spec fn outcome_text(status: StatusView, output: Seq<char>) -> Seq<char> {
    match status {
        StatusView::Success => output,
        StatusView::Error { message } => "ERROR: "@ + message,
        StatusView::Cancelled { reason } => "CANCELLED: "@ + reason,
    }
}

/// What the model is told of a call that did not succeed.
pub fn failure_text(status: &ToolResultStatus) -> (text: Option<String>)
    ensures
        match text {
            Some(text) => !(status@ is Success) && forall|output: Seq<char>|
                #[trigger] outcome_text(status@, output) == text@,
            None => status@ is Success,
        },
{
    match status {
        ToolResultStatus::Success => None,
        ToolResultStatus::Error { message } => {
            let mut text = "ERROR: ".to_owned();
            text.append(message.as_str());
            Some(text)
        },
        ToolResultStatus::Cancelled { reason } => {
            let mut text = "CANCELLED: ".to_owned();
            text.append(reason.as_str());
            Some(text)
        },
    }
}

/// The phase that a message is sent with: its own, else the final answer; none
/// where the backend takes none.
pub open spec fn sent_phase(phase: Option<MessagePhase>, supports_phase: bool) -> Option<Seq<char>> {
    if supports_phase {
        Some(
            phase_name(
                match phase {
                    Some(phase) => phase,
                    None => MessagePhase::FinalAnswer,
                },
            ),
        )
    } else {
        None
    }
}

/// What an item of a conversation becomes: one item of the request, or none.
pub open spec fn input_of(item: ItemView, supports_phase: bool) -> Seq<Json> {
    match item {
        ItemView::Message { role: ContextRole::User, content, .. } => if content.len() > 0 {
            seq![user_message(content)]
        } else {
            seq![]
        },
        ItemView::Message { role: ContextRole::Assistant, content, phase } => if content.len() > 0 {
            seq![assistant_message(content, sent_phase(phase, supports_phase))]
        } else {
            seq![]
        },
        ItemView::Message { role: ContextRole::System, .. } => seq![],
        ItemView::ToolCall { call_id, name, tool_type, arguments } => seq![
            tool_call_json(
                call_id,
                name,
                tool_type,
                match tool_type {
                    ToolType::Function => cbor_json_text(arguments),
                    ToolType::Custom => plain_text(arguments),
                },
            ),
        ],
        ItemView::ToolResult { call_id, tool_type, status, output } => seq![
            tool_result_json(call_id, tool_type, outcome_text(status, plain_text(output))),
        ],
        ItemView::Reasoning(item) => seq![nearest_json(item)],
        ItemView::Compaction(item) => seq![nearest_json(item)],
        ItemView::UnknownProviderItem(item) => seq![nearest_json(item)],
    }
}

/// Adds what an item of a conversation becomes to the input of a request.
pub fn convert_context_item(item: &ContextItem, supports_phase: bool, out: &mut Vec<JsonValue>)
    ensures
        json_views(final(out)@) == json_views(old(out)@) + input_of(item@, supports_phase),
{
    let ghost before = out@;
    let value: Option<JsonValue> = match item {
        ContextItem::Message { role, content, phase } => {
            if content.len() == 0 {
                None
            } else {
                match role {
                    ContextRole::User => Some(user_message_item(content)),
                    ContextRole::Assistant => {
                        let wire: Option<String> = if supports_phase {
                            match phase {
                                Some(phase) => Some(phase_wire(*phase)),
                                None => Some(phase_wire(MessagePhase::FinalAnswer)),
                            }
                        } else {
                            None
                        };
                        Some(assistant_message_item(content, &wire))
                    },
                    ContextRole::System => None,
                }
            }
        },
        ContextItem::ToolCall { call_id, name, tool_type, arguments } => {
            let input = match tool_type {
                ToolType::Function => value_json_text(arguments),
                ToolType::Custom => value_plain_text(arguments),
            };
            Some(tool_call_item(call_id.as_str(), name.as_str(), *tool_type, input.as_str()))
        },
        ContextItem::ToolResult { call_id, tool_type, status, output } => {
            let text = match failure_text(status) {
                Some(text) => {
                    assert(outcome_text(status@, plain_text(output@)) == text@);
                    text
                },
                None => value_plain_text(output),
            };
            Some(tool_result_item(call_id.as_str(), *tool_type, text.as_str()))
        },
        ContextItem::Reasoning(item) => Some(cbor_to_nearest_json(item)),
        ContextItem::Compaction(item) => Some(cbor_to_nearest_json(item)),
        ContextItem::UnknownProviderItem(item) => Some(cbor_to_nearest_json(item)),
    };
    match value {
        Some(value) => {
            assert(input_of(item@, supports_phase) =~= seq![value@]);
            out.push(value);
            assert(json_views(out@) =~= json_views(before) + seq![value@]);
        },
        None => {
            assert(input_of(item@, supports_phase) =~= seq![]);
            assert(json_views(out@) + seq![] =~= json_views(before));
        },
    }
}

/// What the items of a conversation become.
pub open spec fn inputs_of(items: Seq<ItemView>, supports_phase: bool) -> Seq<Json>
    decreases items.len(),
{
    if items.len() == 0 {
        seq![]
    } else {
        inputs_of(items.drop_last(), supports_phase) + input_of(items.last(), supports_phase)
    }
}

/// What the items of a conversation become, from an index on.
pub fn build_input_items(supports_phase: bool, items: &Vec<ContextItem>, from: usize) -> (input: Vec<
    JsonValue,
>)
    requires
        from <= items@.len(),
    ensures
        json_views(input@) == inputs_of(item_views(items@).skip(from as int), supports_phase),
{
    let ghost all = item_views(items@).skip(from as int);
    let mut input: Vec<JsonValue> = Vec::new();
    let mut i: usize = from;
    assert(json_views(input@) =~= seq![]);
    while i < items.len()
        invariant
            from <= i <= items@.len(),
            all == item_views(items@).skip(from as int),
            json_views(input@) == inputs_of(all.take(i - from), supports_phase),
        decreases items.len() - i,
    {
        convert_context_item(&items[i], supports_phase, &mut input);
        i += 1;
        assert(all.take(i - from).drop_last() =~= all.take(i - 1 - from));
        assert(all.take(i - from).last() == items@[i - 1]@);
    }
    assert(all.take(i - from) =~= all);
    input
}

/// Input items come out of the conversation one by one: what stands before an
/// index and what stands behind it are converted apart.
pub proof fn law_inputs_split(items: Seq<ItemView>, n: int, supports_phase: bool)
    requires
        0 <= n <= items.len(),
    ensures
        inputs_of(items, supports_phase) == inputs_of(items.take(n), supports_phase) + inputs_of(
            items.skip(n),
            supports_phase,
        ),
    decreases items.len(),
{
    if n == items.len() {
        assert(items.take(n) =~= items);
        assert(items.skip(n) =~= seq![]);
        assert(inputs_of(items, supports_phase) + seq![] =~= inputs_of(items, supports_phase));
    } else {
        law_inputs_split(items.drop_last(), n, supports_phase);
        assert(items.drop_last().take(n) =~= items.take(n));
        assert(items.skip(n).drop_last() =~= items.drop_last().skip(n));
        assert(items.skip(n).last() == items.last());
        let head = inputs_of(items.take(n), supports_phase);
        let tail = inputs_of(items.drop_last().skip(n), supports_phase);
        let last = input_of(items.last(), supports_phase);
        assert((head + tail) + last =~= head + (tail + last));
    }
}

} // verus!
