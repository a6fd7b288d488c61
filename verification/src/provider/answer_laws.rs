//! Laws of how a stream is read and a prompt is answered.

use vstd::prelude::*;

use crate::convert::cbor_of_json;
use crate::json::Json;
use crate::json_text::parsed_json;
use crate::proto::OriginatorView;
use crate::provider::context::{ContextRole, ItemView, MessagePhase, ToolType};
use crate::provider::finish::{
    answer_items, backend_of_turn, error_finished, output_of, simple_of, slot_items, slots_items,
    stop_reason_of, stream_finished, BackendView, StopReason, WsPoolDelta,
};
use crate::provider::http::{
    compact_request, line_piece, line_pieces, piece_read, reading_result, reply_pieces,
    turn_request, PieceView, ReadingView, ReplyView,
};
use crate::provider::request::{PayloadView, Transport};
use crate::provider::responses::ConfigView;
use crate::provider::stream::{
    applied, error_text, messages_text, ErrorView, SlotView, StreamView,
};
use crate::text::decimal_of;
use crate::value::Cbor;

verus! {

/// A message of the model becomes a message of the assistant with its text and
/// phase; an empty one becomes nothing.
pub proof fn law_message_becomes_an_item(text: Seq<char>, phase: Option<MessagePhase>)
    ensures
        text.len() > 0 ==> slot_items(SlotView::Message { text, phase }) == seq![
            ItemView::Message { role: ContextRole::Assistant, content: seq![text], phase },
        ],
        text.len() == 0 ==> slot_items(SlotView::Message { text, phase }).len() == 0,
{
}

/// A call of the model becomes a call with its id and name. A function is given
/// what the JSON of its input stands for, or the input itself where it is no JSON;
/// another tool is given its input word for word.
pub proof fn law_call_becomes_an_item(
    id: Seq<char>,
    name: Seq<char>,
    arguments: Seq<char>,
    value: Json,
)
    ensures
        parsed_json(arguments) == Ok::<Json, Seq<char>>(value) ==> slot_items(
            SlotView::ToolCall { tool_type: ToolType::Function, id, name, arguments },
        ) == seq![
            ItemView::ToolCall {
                call_id: id,
                name,
                tool_type: ToolType::Function,
                arguments: cbor_of_json(value),
            },
        ],
        parsed_json(arguments) is Err ==> slot_items(
            SlotView::ToolCall { tool_type: ToolType::Function, id, name, arguments },
        ) == seq![
            ItemView::ToolCall {
                call_id: id,
                name,
                tool_type: ToolType::Function,
                arguments: Cbor::Text(arguments),
            },
        ],
        slot_items(SlotView::ToolCall { tool_type: ToolType::Custom, id, name, arguments }) == seq![
            ItemView::ToolCall {
                call_id: id,
                name,
                tool_type: ToolType::Custom,
                arguments: Cbor::Text(arguments),
            },
        ],
{
}

/// The items of a response come out in the order of their index, none of them lost:
/// what stands before an index and what stands behind it come out apart.
pub proof fn law_items_come_out_in_order(a: Seq<(u64, SlotView)>, b: Seq<(u64, SlotView)>)
    ensures
        slots_items(a + b) == slots_items(a) + slots_items(b),
        messages_text(a + b) == messages_text(a) + messages_text(b),
    decreases b.len(),
{
    if b.len() == 0 {
        assert(a + b =~= a);
        assert(slots_items(a) + slots_items(b) =~= slots_items(a));
        assert(messages_text(a) + messages_text(b) =~= messages_text(a));
    } else {
        law_items_come_out_in_order(a, b.drop_last());
        assert((a + b).drop_last() =~= a + b.drop_last());
        assert((a + b).last() == b.last());
        assert(slots_items(a + b) =~= slots_items(a) + slots_items(b));
        assert(messages_text(a + b) =~= messages_text(a) + messages_text(b));
    }
}

/// One item of a response comes out as what it becomes, and is shown as its text
/// where it is a message.
pub proof fn law_single_item_comes_out(index: u64, slot: SlotView)
    ensures
        slots_items(seq![(index, slot)]) == slot_items(slot),
        slot matches SlotView::Message { text, .. } ==> messages_text(seq![(index, slot)]) == text,
        !(slot is Message) ==> messages_text(seq![(index, slot)]).len() == 0,
{
    let one = seq![(index, slot)];
    assert(one.drop_last() =~= seq![]);
    assert(slots_items(one.drop_last()) =~= seq![]);
    assert(messages_text(one.drop_last()) =~= seq![]);
    assert(slots_items(one) =~= slot_items(slot));
    if let SlotView::Message { text, .. } = slot {
        assert(messages_text(one) =~= text);
    }
}

/// A model that calls a tool is answered by tools; one that does not has come to
/// the end of its turn; a compaction is neither.
pub proof fn law_calls_are_answered(items: Seq<ItemView>)
    ensures
        stop_reason_of(items) == StopReason::Compaction <==> (exists|k: int|
            0 <= k < items.len() && (#[trigger] items[k]) is Compaction),
        stop_reason_of(items) == StopReason::EndTurn <==> (forall|k: int|
            0 <= k < items.len() ==> !((#[trigger] items[k]) is Compaction) && !(items[k]
                is ToolCall)),
        stop_reason_of(items) != StopReason::Error,
{
    let compaction = |item: ItemView| crate::provider::finish::is_compaction(item);
    let call = |item: ItemView| crate::provider::finish::is_tool_call(item);
    if exists|k: int| 0 <= k < items.len() && (#[trigger] items[k]) is Compaction {
        let k = choose|k: int| 0 <= k < items.len() && (#[trigger] items[k]) is Compaction;
        assert(compaction(items[k]));
    }
    if exists|k: int| 0 <= k < items.len() && (#[trigger] items[k]) is ToolCall {
        let k = choose|k: int| 0 <= k < items.len() && (#[trigger] items[k]) is ToolCall;
        assert(call(items[k]));
    }
}

/// An answer is for the prompt that was asked and for whom it was asked by. It holds
/// the items of the response, the tokens that it took and what it is called.
pub proof fn law_answer_tells_the_response(
    session_prompt_id: Seq<char>,
    originator: OriginatorView,
    config: ConfigView,
    transport: Transport,
    state: StreamView,
    delta: Option<WsPoolDelta>,
)
    ensures
        ({
            let backend = backend_of_turn(config, transport, state.stale_chain_fallback);
            let answer = stream_finished(session_prompt_id, originator, backend, state, delta);
            &&& answer.session_prompt_id == session_prompt_id
            &&& answer.originator == originator
            &&& output_of(state).len() > 0 ==> answer.output_items == output_of(state)
            &&& answer.stop_reason == stop_reason_of(answer.output_items)
            &&& answer.provider_response_id == state.response_id
            &&& answer.ws_pool_delta == delta
            &&& answer.usage matches Some(usage) ==> {
                &&& usage.input_tokens == state.input_tokens
                &&& usage.cached_tokens == state.cached_tokens
                &&& usage.output_tokens == state.output_tokens
            }
            &&& (answer.usage is None) == (state.input_tokens is None && state.cached_tokens is None
                && state.output_tokens is None)
            &&& answer.backend matches Some(told) && {
                &&& told.base_url == config.base_url
                &&& told.transport == transport
                &&& told.stale_chain_fallback == state.stale_chain_fallback
            }
        }),
{
}

/// What a response and a compaction left is all in the answer, the items of the
/// response first.
pub proof fn law_output_is_complete(state: StreamView)
    ensures
        state.compacted_input_items.len() == 0 ==> output_of(state) == slots_items(state.slots),
        output_of(state).len() == slots_items(state.slots).len()
            + state.compacted_input_items.len(),
        slots_items(state.slots).is_prefix_of(output_of(state)),
        forall|k: int, value: Json|
            0 <= k < state.compacted_input_items.len() && #[trigger] parsed_json(
                state.compacted_input_items[k],
            ) == Ok::<Json, Seq<char>>(value) ==> output_of(state)[slots_items(state.slots).len()
                + k] == ItemView::Compaction(#[trigger] cbor_of_json(value)),
        answer_items(state).len() > 0,
{
    let front = slots_items(state.slots);
    assert(output_of(state).subrange(0, front.len() as int) =~= front);
    if state.compacted_input_items.len() == 0 {
        assert(output_of(state) =~= front);
    }
}

/// An error is told to the prompt that was asked, in its words.
pub proof fn law_error_is_told(
    session_prompt_id: Seq<char>,
    originator: OriginatorView,
    backend: BackendView,
    words: Seq<char>,
    delta: Option<WsPoolDelta>,
)
    ensures
        ({
            let answer = error_finished(session_prompt_id, originator, backend, words, delta);
            &&& answer.session_prompt_id == session_prompt_id
            &&& answer.originator == originator
            &&& answer.stop_reason == StopReason::Error
            &&& answer.output_items.len() == 1
            &&& answer.output_items[0] matches ItemView::Message { role, content, .. } && role
                == ContextRole::Assistant && content.len() == 1 && words.is_suffix_of(content[0])
        }),
        ({
            let answer = simple_of(session_prompt_id, originator, words);
            &&& answer.session_prompt_id == session_prompt_id
            &&& answer.originator == originator
            &&& answer.stop_reason == StopReason::EndTurn
            &&& answer.output_items.len() == 1
            &&& answer.output_items[0] matches ItemView::Message { role, content, .. } && role
                == ContextRole::Assistant && content == seq![words]
        }),
{
    let told = "LLM error: "@ + words;
    assert(told.subrange(told.len() - words.len(), told.len() as int) =~= words);
}

/// What is said of an error ends with what is known of it, and names its status.
pub proof fn law_error_text_tells_why(code: u16, words: Seq<char>)
    ensures
        words.is_suffix_of(error_text(ErrorView::HttpStatus(code, words))),
        words.is_suffix_of(error_text(ErrorView::Http(words))),
        words.is_suffix_of(error_text(ErrorView::Json(words))),
        words.is_suffix_of(error_text(ErrorView::Io(words))),
        ("HTTP "@ + decimal_of(code as nat)).is_prefix_of(
            error_text(ErrorView::HttpStatus(code, words)),
        ),
{
    let status = error_text(ErrorView::HttpStatus(code, words));
    let start = "HTTP "@ + decimal_of(code as nat);
    assert(status.subrange(0, start.len() as int) =~= start);
    assert(status.subrange(status.len() - words.len(), status.len() as int) =~= words);
    let http = error_text(ErrorView::Http(words));
    assert(http.subrange(http.len() - words.len(), http.len() as int) =~= words);
    let json = error_text(ErrorView::Json(words));
    assert(json.subrange(json.len() - words.len(), json.len() as int) =~= words);
    let io = error_text(ErrorView::Io(words));
    assert(io.subrange(io.len() - words.len(), io.len() as int) =~= words);
}

/// A line of a stream that carries data carries the event that its JSON stands
/// for; the word for the end ends the stream, and every other line is nothing.
pub proof fn law_data_lines_carry_events(data: Seq<char>, line: Seq<char>, event: Json)
    ensures
        data != "[DONE]"@ && parsed_json(data) == Ok::<Json, Seq<char>>(event) ==> line_piece(
            "data: "@ + data,
        ) == PieceView::Event(event),
        data != "[DONE]"@ && parsed_json(data) is Err ==> line_piece("data: "@ + data)
            == PieceView::Ignored,
        line_piece("data: "@ + "[DONE]"@) == PieceView::End,
        !("data: "@.is_prefix_of(line)) ==> line_piece(line) == PieceView::Ignored,
{
    let one = "data: "@ + data;
    assert(one.subrange(0, "data: "@.len() as int) =~= "data: "@);
    assert(one.skip("data: "@.len() as int) =~= data);
    let end = "data: "@ + "[DONE]"@;
    assert(end.subrange(0, "data: "@.len() as int) =~= "data: "@);
    assert(end.skip("data: "@.len() as int) =~= "[DONE]"@);
}

/// Every line of an answer is read, in order; a connection that breaks fails the
/// stream behind them.
pub proof fn law_every_line_is_read(lines: Seq<Seq<char>>, why: Seq<char>)
    ensures
        ({
            let whole = reply_pieces(ReplyView::Body { lines, broken: None });
            let broken = reply_pieces(ReplyView::Body { lines, broken: Some(why) });
            &&& whole.len() == lines.len()
            &&& forall|k: int| 0 <= k < lines.len() ==> #[trigger] whole[k] == line_piece(lines[k])
            &&& broken == whole.push(PieceView::Failed(ErrorView::Io(why)))
        }),
{
    let whole = line_pieces(lines);
    assert forall|k: int| 0 <= k < lines.len() implies #[trigger] whole[k] == line_piece(
        lines[k],
    ) by {}
}

/// A stream that has not ended takes every event, and shows all the text that has
/// come in whenever there is something new; a stream that has ended takes nothing.
pub proof fn law_events_are_taken_until_the_end(reading: ReadingView, event: Json, piece: PieceView)
    ensures
        reading.end is None ==> {
            let next = piece_read(reading, PieceView::Event(event));
            &&& next.state == applied(reading.state, event).state
            &&& applied(reading.state, event).updated ==> {
                &&& next.updates.len() == reading.updates.len() + 1
                &&& next.updates.drop_last() == reading.updates
                &&& next.updates.last().text == messages_text(next.state.slots)
                &&& next.updates.last().thinking == next.state.thinking
            }
            &&& !applied(reading.state, event).updated ==> next.updates == reading.updates
            &&& applied(reading.state, event).outcome == Ok::<bool, Seq<char>>(false) ==> next.end
                is None
            &&& applied(reading.state, event).outcome == Ok::<bool, Seq<char>>(true)
                ==> reading_result(next) == Ok::<StreamView, ErrorView>(next.state)
            &&& applied(reading.state, event).outcome matches Err(words) ==> (reading_result(next)
                matches Err(ErrorView::HttpStatus(_, told)) && told == words)
        },
        reading.end is Some ==> piece_read(reading, piece) == reading,
{
    if reading.end is None && applied(reading.state, event).updated {
        let next = piece_read(reading, PieceView::Event(event));
        assert(next.updates.drop_last() =~= reading.updates);
    }
}

/// A request goes to the backend's address with its credential and its account,
/// whether or not the address ends with a slash.
pub proof fn law_request_carries_credentials(config: ConfigView, request: PayloadView)
    ensures
        turn_request(config, request).headers.contains(
            ("Authorization"@, "Bearer "@ + config.api_key),
        ),
        compact_request(config, request).headers.contains(
            ("Authorization"@, "Bearer "@ + config.api_key),
        ),
        config.account_id matches Some(account) ==> turn_request(config, request).headers.contains(
            ("chatgpt-account-id"@, account),
        ) && compact_request(config, request).headers.contains(("chatgpt-account-id"@, account)),
        config.base_url.len() > 0 && config.base_url.last() != '/' ==> turn_request(
            config,
            request,
        ).url == config.base_url + "/codex/responses"@ && compact_request(config, request).url
            == config.base_url + "/codex/responses/compact"@,
        ({
            let slashed = ConfigView { base_url: config.base_url.push('/'), ..config };
            &&& turn_request(slashed, request).url == turn_request(config, request).url
            &&& compact_request(slashed, request).url == compact_request(config, request).url
        }),
{
    let turn = turn_request(config, request).headers;
    let compact = compact_request(config, request).headers;
    assert(turn[2] == ("Authorization"@, "Bearer "@ + config.api_key));
    assert(compact[1] == ("Authorization"@, "Bearer "@ + config.api_key));
    if let Some(account) = config.account_id {
        assert(turn[4] == ("chatgpt-account-id"@, account));
        assert(compact[3] == ("chatgpt-account-id"@, account));
    }
    assert(config.base_url.push('/').drop_last() =~= config.base_url);
}

} // verus!
