//! Laws of what a request makes of a conversation.

use vstd::prelude::*;

use crate::convert::{cbor_of_json, is_proper};
use crate::json::{at, lemma_first_member, text_at, Json};
use crate::json_text::written_json;
use crate::provider::context::{ContextRole, ItemView, MessagePhase, StatusView, ToolType};
use crate::provider::input::{input_of, inputs_of};
use crate::text::join_of;
use crate::value::Cbor;

verus! {

/// What tells the members of input items apart.
proof fn lemma_keys()
    ensures
        "type"@.len() == 4,
        "type"@[0] == 't',
        "text"@.len() == 4,
        "text"@[0] == 't',
        "text"@[1] == 'e',
        "type"@[1] == 'y',
        "role"@.len() == 4,
        "role"@[0] == 'r',
        "id"@.len() == 2,
        "call_id"@.len() == 7,
        "call_id"@[1] == 'a',
        "content"@.len() == 7,
        "content"@[1] == 'o',
        "name"@.len() == 4,
        "name"@[0] == 'n',
        "arguments"@.len() == 9,
        "input"@.len() == 5,
        "input"@[0] == 'i',
        "phase"@.len() == 5,
        "phase"@[0] == 'p',
        "output"@.len() == 6,
        "annotations"@.len() == 11,
{
    reveal_strlit("type");
    reveal_strlit("text");
    reveal_strlit("role");
    reveal_strlit("id");
    reveal_strlit("call_id");
    reveal_strlit("content");
    reveal_strlit("name");
    reveal_strlit("arguments");
    reveal_strlit("input");
    reveal_strlit("phase");
    reveal_strlit("output");
    reveal_strlit("annotations");
}

/// Whether an item is the result of a call, in the model's own terms, that tells it
/// some words.
pub open spec fn tells_result(
    item: Json,
    tool_type: ToolType,
    call_id: Seq<char>,
    words: Seq<char>,
) -> bool {
    &&& text_at(item, "type"@) == Some(
        match tool_type {
            ToolType::Function => "function_call_output"@,
            ToolType::Custom => "custom_tool_call_output"@,
        },
    )
    &&& text_at(item, "call_id"@) == Some(call_id)
    &&& text_at(item, "output"@) == Some(words)
}

/// The model is told what a tool that succeeded gave: a text word for word, and
/// every other value as its JSON text.
pub proof fn law_output_of_a_tool_is_told(
    call_id: Seq<char>,
    tool_type: ToolType,
    words: Seq<char>,
    value: Json,
    supports_phase: bool,
)
    requires
        is_proper(value),
        !(value is Text),
    ensures
        ({
            let told = input_of(
                ItemView::ToolResult {
                    call_id,
                    tool_type,
                    status: StatusView::Success,
                    output: Cbor::Text(words),
                },
                supports_phase,
            );
            told.len() == 1 && tells_result(told[0], tool_type, call_id, words)
        }),
        ({
            let told = input_of(
                ItemView::ToolResult {
                    call_id,
                    tool_type,
                    status: StatusView::Success,
                    output: cbor_of_json(value),
                },
                supports_phase,
            );
            told.len() == 1 && tells_result(told[0], tool_type, call_id, written_json(value))
        }),
{
    lemma_result(call_id, tool_type, StatusView::Success, Cbor::Text(words), words, supports_phase);
    crate::convert::law_shown_json_survives_cbor(value);
    lemma_result(
        call_id,
        tool_type,
        StatusView::Success,
        cbor_of_json(value),
        written_json(value),
        supports_phase,
    );
}

proof fn lemma_result(
    call_id: Seq<char>,
    tool_type: ToolType,
    status: StatusView,
    output: Cbor,
    words: Seq<char>,
    supports_phase: bool,
)
    requires
        crate::provider::input::outcome_text(status, crate::provider::input::plain_text(output))
            == words,
    ensures
        ({
            let told = input_of(
                ItemView::ToolResult { call_id, tool_type, status, output },
                supports_phase,
            );
            told.len() == 1 && tells_result(told[0], tool_type, call_id, words)
        }),
{
    lemma_keys();
    let told = input_of(ItemView::ToolResult { call_id, tool_type, status, output }, supports_phase);
    let members = told[0]->Object_0;
    lemma_first_member(members, "type"@, 0);
    lemma_first_member(members, "call_id"@, 1);
    lemma_first_member(members, "output"@, 2);
}

/// The model is told why a call did not succeed, whatever output it left.
pub proof fn law_failure_of_a_tool_is_told(
    call_id: Seq<char>,
    tool_type: ToolType,
    words: Seq<char>,
    output: Cbor,
    supports_phase: bool,
)
    ensures
        ({
            let told = input_of(
                ItemView::ToolResult {
                    call_id,
                    tool_type,
                    status: StatusView::Error { message: words },
                    output,
                },
                supports_phase,
            );
            told.len() == 1 && tells_result(told[0], tool_type, call_id, "ERROR: "@ + words)
        }),
        ({
            let told = input_of(
                ItemView::ToolResult {
                    call_id,
                    tool_type,
                    status: StatusView::Cancelled { reason: words },
                    output,
                },
                supports_phase,
            );
            told.len() == 1 && tells_result(told[0], tool_type, call_id, "CANCELLED: "@ + words)
        }),
{
    lemma_result(
        call_id,
        tool_type,
        StatusView::Error { message: words },
        output,
        "ERROR: "@ + words,
        supports_phase,
    );
    lemma_result(
        call_id,
        tool_type,
        StatusView::Cancelled { reason: words },
        output,
        "CANCELLED: "@ + words,
        supports_phase,
    );
}

/// Whether an item is a call of a tool with an input.
pub open spec fn tells_call(
    item: Json,
    tool_type: ToolType,
    call_id: Seq<char>,
    input: Seq<char>,
) -> bool {
    &&& text_at(item, "type"@) == Some(
        match tool_type {
            ToolType::Function => "function_call"@,
            ToolType::Custom => "custom_tool_call"@,
        },
    )
    &&& text_at(item, "call_id"@) == Some(call_id)
    &&& text_at(
        item,
        match tool_type {
            ToolType::Function => "arguments"@,
            ToolType::Custom => "input"@,
        },
    ) == Some(input)
}

proof fn lemma_call(
    call_id: Seq<char>,
    name: Seq<char>,
    tool_type: ToolType,
    arguments: Cbor,
    supports_phase: bool,
)
    ensures
        ({
            let told = input_of(
                ItemView::ToolCall { call_id, name, tool_type, arguments },
                supports_phase,
            );
            &&& told.len() == 1
            &&& tells_call(
                told[0],
                tool_type,
                call_id,
                match tool_type {
                    ToolType::Function => crate::provider::input::cbor_json_text(arguments),
                    ToolType::Custom => crate::provider::input::plain_text(arguments),
                },
            )
            &&& text_at(told[0], "name"@) == Some(crate::provider::request::encoded_name(name))
            &&& text_at(told[0], "id"@) matches Some(id) && call_id.is_suffix_of(id)
        }),
{
    lemma_keys();
    let told = input_of(ItemView::ToolCall { call_id, name, tool_type, arguments }, supports_phase);
    let members = told[0]->Object_0;
    lemma_first_member(members, "type"@, 0);
    lemma_first_member(members, "id"@, 1);
    lemma_first_member(members, "call_id"@, 2);
    lemma_first_member(members, "name"@, 3);
    match tool_type {
        ToolType::Function => {
            lemma_first_member(members, "arguments"@, 4);
            let id = "fc_"@ + call_id;
            assert(id.subrange(id.len() - call_id.len(), id.len() as int) =~= call_id);
        },
        ToolType::Custom => {
            lemma_first_member(members, "input"@, 4);
            let id = "ctc_"@ + call_id;
            assert(id.subrange(id.len() - call_id.len(), id.len() as int) =~= call_id);
        },
    }
    assert(call_id.subrange(0, call_id.len() as int) =~= call_id);
}

/// A call is sent again as it came: its id, and its input as the JSON text of what
/// it was, or word for word where the tool takes a text.
pub proof fn law_call_is_sent_again(
    call_id: Seq<char>,
    name: Seq<char>,
    arguments: Json,
    input: Seq<char>,
    supports_phase: bool,
)
    requires
        is_proper(arguments),
    ensures
        ({
            let told = input_of(
                ItemView::ToolCall {
                    call_id,
                    name,
                    tool_type: ToolType::Function,
                    arguments: cbor_of_json(arguments),
                },
                supports_phase,
            );
            told.len() == 1 && tells_call(
                told[0],
                ToolType::Function,
                call_id,
                written_json(arguments),
            )
        }),
        ({
            let told = input_of(
                ItemView::ToolCall {
                    call_id,
                    name,
                    tool_type: ToolType::Custom,
                    arguments: Cbor::Text(input),
                },
                supports_phase,
            );
            told.len() == 1 && tells_call(told[0], ToolType::Custom, call_id, input)
        }),
{
    crate::convert::law_shown_json_survives_cbor(arguments);
    lemma_call(call_id, name, ToolType::Function, cbor_of_json(arguments), supports_phase);
    lemma_call(call_id, name, ToolType::Custom, Cbor::Text(input), supports_phase);
}

/// A message of the user is sent with all its texts, in their order and word for
/// word; one without any is not sent.
pub proof fn law_user_message_is_sent(
    content: Seq<Seq<char>>,
    phase: Option<MessagePhase>,
    supports_phase: bool,
)
    ensures
        ({
            let told = input_of(
                ItemView::Message { role: ContextRole::User, content, phase },
                supports_phase,
            );
            &&& content.len() == 0 ==> told.len() == 0
            &&& content.len() > 0 ==> {
                &&& told.len() == 1
                &&& text_at(told[0], "role"@) == Some("user"@)
                &&& at(told[0], "content"@) matches Json::Array(parts) && {
                    &&& parts.len() == content.len()
                    &&& forall|k: int|
                        0 <= k < parts.len() ==> text_at(#[trigger] parts[k], "type"@) == Some(
                            "input_text"@,
                        ) && text_at(parts[k], "text"@) == Some(content[k])
                }
            }
        }),
{
    lemma_keys();
    if content.len() > 0 {
        let told = input_of(
            ItemView::Message { role: ContextRole::User, content, phase },
            supports_phase,
        );
        let members = told[0]->Object_0;
        lemma_first_member(members, "role"@, 0);
        lemma_first_member(members, "content"@, 1);
        let parts = at(told[0], "content"@)->Array_0;
        assert forall|k: int| 0 <= k < parts.len() implies text_at(#[trigger] parts[k], "type"@)
            == Some("input_text"@) && text_at(parts[k], "text"@) == Some(content[k]) by {
            lemma_first_member(parts[k]->Object_0, "type"@, 0);
            lemma_first_member(parts[k]->Object_0, "text"@, 1);
        }
    }
}

/// A message of the assistant is sent with all its texts in one, a line break
/// between any two, and with its phase where the backend takes phases: its own, or
/// that of a final answer. One without texts is not sent, nor is a message of the
/// system.
pub proof fn law_assistant_message_is_sent(
    content: Seq<Seq<char>>,
    phase: Option<MessagePhase>,
    supports_phase: bool,
)
    ensures
        ({
            let told = input_of(
                ItemView::Message { role: ContextRole::Assistant, content, phase },
                supports_phase,
            );
            &&& content.len() == 0 ==> told.len() == 0
            &&& content.len() > 0 ==> {
                &&& told.len() == 1
                &&& text_at(told[0], "type"@) == Some("message"@)
                &&& text_at(told[0], "role"@) == Some("assistant"@)
                &&& at(told[0], "content"@) matches Json::Array(parts) && {
                    &&& parts.len() == 1
                    &&& text_at(parts[0], "type"@) == Some("output_text"@)
                    &&& text_at(parts[0], "text"@) == Some(join_of(content, "\n"@))
                }
                &&& text_at(told[0], "phase"@) == match phase {
                    _ if !supports_phase => None,
                    Some(MessagePhase::Commentary) => Some("commentary"@),
                    _ => Some("final_answer"@),
                }
            }
        }),
        input_of(
            ItemView::Message { role: ContextRole::System, content, phase },
            supports_phase,
        ).len() == 0,
{
    lemma_keys();
    if content.len() > 0 {
        let told = input_of(
            ItemView::Message { role: ContextRole::Assistant, content, phase },
            supports_phase,
        );
        let members = told[0]->Object_0;
        lemma_first_member(members, "type"@, 0);
        lemma_first_member(members, "role"@, 1);
        lemma_first_member(members, "content"@, 2);
        lemma_first_member(members, "phase"@, 3);
        let parts = at(told[0], "content"@)->Array_0;
        lemma_first_member(parts[0]->Object_0, "type"@, 0);
        lemma_first_member(parts[0]->Object_0, "text"@, 1);
    }
}

/// Items that the provider gave are sent again as they were.
pub proof fn law_provider_items_are_sent_again(value: Json, supports_phase: bool)
    requires
        is_proper(value),
    ensures
        input_of(ItemView::Reasoning(cbor_of_json(value)), supports_phase) == seq![value],
        input_of(ItemView::Compaction(cbor_of_json(value)), supports_phase) == seq![value],
        input_of(ItemView::UnknownProviderItem(cbor_of_json(value)), supports_phase) == seq![value],
{
    crate::convert::law_shown_json_survives_cbor(value);
}

/// Whether an item of a conversation is left out of a request.
pub open spec fn is_left_out(item: ItemView) -> bool {
    item matches ItemView::Message { role, content, .. } && (role == ContextRole::System
        || content.len() == 0)
}

/// Where nothing is left out, a request has one item for each of the conversation,
/// in the same order.
pub proof fn law_conversation_keeps_its_order(items: Seq<ItemView>, supports_phase: bool)
    requires
        forall|k: int| 0 <= k < items.len() ==> !is_left_out(#[trigger] items[k]),
    ensures
        inputs_of(items, supports_phase).len() == items.len(),
        forall|k: int|
            0 <= k < items.len() ==> seq![#[trigger] inputs_of(items, supports_phase)[k]]
                == input_of(items[k], supports_phase),
    decreases items.len(),
{
    if items.len() > 0 {
        let front = items.drop_last();
        assert forall|k: int| 0 <= k < front.len() implies !is_left_out(#[trigger] front[k]) by {
            assert(front[k] == items[k]);
        }
        law_conversation_keeps_its_order(front, supports_phase);
        let last = input_of(items.last(), supports_phase);
        assert(!is_left_out(items[items.len() - 1]));
        assert(last.len() == 1);
        let all = inputs_of(items, supports_phase);
        assert forall|k: int| 0 <= k < items.len() implies seq![
            #[trigger] inputs_of(items, supports_phase)[k],
        ] == input_of(items[k], supports_phase) by {
            if k < front.len() {
                assert(all[k] == inputs_of(front, supports_phase)[k]);
                assert(front[k] == items[k]);
            } else {
                assert(all[k] == last[0]);
                assert(seq![last[0]] =~= last);
            }
        }
    }
}

/// An item that is left out leaves nothing behind.
pub proof fn law_left_out_items_leave_nothing(item: ItemView, supports_phase: bool)
    ensures
        (input_of(item, supports_phase).len() == 0) == is_left_out(item),
        input_of(item, supports_phase).len() <= 1,
{
}

} // verus!
