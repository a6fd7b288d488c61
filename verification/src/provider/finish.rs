//! How a prompt is answered.

use vstd::prelude::*;

use crate::convert::{cbor_of_json, json_result, json_to_cbor};
use crate::json::{Json, JsonValue};
use crate::json_text::{parse_json, parsed_json};
use crate::proto::{OriginatorView, PromptOriginator};
use crate::provider::context::{
    item_views, ContextItem, ContextRole, ItemView, MessagePhase, ToolType,
};
use crate::provider::models::{ModelId, ModelIdView};
use crate::provider::request::Transport;
use crate::provider::responses::{ConfigView, ResponsesConfig};
use crate::provider::stream::{slot_views, Slot, SlotView, StreamState, StreamView};
use crate::text::{opt_view, views};
use crate::value::{Cbor, CborValue};

verus! {

/// Why a model stopped.
#[derive(Clone, Copy, Debug, PartialEq, Eq, Structural)]
pub enum StopReason {
    EndTurn,
    ToolCalls,
    Compaction,
    Error,
}

/// The tokens that a response took.
#[derive(Clone, Copy, Debug, PartialEq, Eq, Structural)]
pub struct Usage {
    pub input_tokens: Option<u64>,
    pub cached_tokens: Option<u64>,
    pub output_tokens: Option<u64>,
}

/// What a turn did to the connections that are kept open.
#[derive(Clone, Copy, Debug, PartialEq, Eq, Structural)]
pub struct WsPoolDelta {
    pub upgrades: u32,
    pub silent_reconnects: u32,
    pub chain_strips_on_fresh: u32,
}

/// What was done to the connections that are kept open so far.
#[derive(Clone, Copy, Debug, PartialEq, Eq, Structural)]
pub struct WsPoolStats {
    pub upgrades: u64,
    pub silent_reconnects: u64,
    pub chain_strips_on_fresh: u64,
}

/// What answered a prompt.
#[derive(Debug, PartialEq, Eq)]
pub struct ProviderBackend {
    pub base_url: String,
    pub transport: Transport,
    pub stale_chain_fallback: bool,
}

/// What answered a prompt, as mathematics.
pub struct BackendView {
    pub base_url: Seq<char>,
    pub transport: Transport,
    pub stale_chain_fallback: bool,
}

impl View for ProviderBackend {
    type V = BackendView;

    open spec fn view(&self) -> BackendView {
        BackendView {
            base_url: self.base_url@,
            transport: self.transport,
            stale_chain_fallback: self.stale_chain_fallback,
        }
    }
}

/// The view of an optional backend.
pub open spec fn opt_backend(backend: Option<ProviderBackend>) -> Option<BackendView> {
    match backend {
        Some(backend) => Some(backend@),
        None => None,
    }
}

/// The answer to a prompt.
#[derive(Debug)]
pub struct ResponseFinished {
    pub session_prompt_id: String,
    pub output_items: Vec<ContextItem>,
    pub stop_reason: StopReason,
    pub originator: PromptOriginator,
    pub usage: Option<Usage>,
    pub backend: Option<ProviderBackend>,
    pub provider_response_id: Option<String>,
    pub ws_pool_delta: Option<WsPoolDelta>,
}

/// The answer to a prompt, as mathematics.
pub struct FinishedView {
    pub session_prompt_id: Seq<char>,
    pub output_items: Seq<ItemView>,
    pub stop_reason: StopReason,
    pub originator: OriginatorView,
    pub usage: Option<Usage>,
    pub backend: Option<BackendView>,
    pub provider_response_id: Option<Seq<char>>,
    pub ws_pool_delta: Option<WsPoolDelta>,
}

impl View for ResponseFinished {
    type V = FinishedView;

    open spec fn view(&self) -> FinishedView {
        FinishedView {
            session_prompt_id: self.session_prompt_id@,
            output_items: item_views(self.output_items@),
            stop_reason: self.stop_reason,
            originator: self.originator@,
            usage: self.usage,
            backend: opt_backend(self.backend),
            provider_response_id: opt_view(self.provider_response_id),
            ws_pool_delta: self.ws_pool_delta,
        }
    }
}

/// What answers a prompt over a backend.
pub open spec fn backend_of_turn(config: ConfigView, transport: Transport, stale: bool) -> BackendView {
    BackendView { base_url: config.base_url, transport, stale_chain_fallback: stale }
}

/// What answers a prompt over a backend.
pub fn backend_descriptor(config: &ResponsesConfig, transport: Transport, stale: bool) -> (backend:
    ProviderBackend)
    ensures
        backend@ == backend_of_turn(config@, transport, stale),
{
    ProviderBackend {
        base_url: config.base_url.clone(),
        transport,
        stale_chain_fallback: stale,
    }
}

/// How far a counter went on, as far as that fits.
pub open spec fn grown(before: u64, after: u64) -> u32 {
    if after <= before {
        0
    } else if after - before <= u32::MAX {
        (after - before) as u32
    } else {
        u32::MAX
    }
}

/// How far a counter went on, as far as that fits.
fn growth(before: u64, after: u64) -> (n: u32)
    ensures
        n == grown(before, after),
{
    if after <= before {
        0
    } else if after - before <= 4294967295u64 {
        (after - before) as u32
    } else {
        4294967295u32
    }
}

/// What a turn did to the connections, out of the counters before and after it.
pub fn compute_ws_pool_delta(before: WsPoolStats, after: WsPoolStats) -> (delta: WsPoolDelta)
    ensures
        delta == (WsPoolDelta {
            upgrades: grown(before.upgrades, after.upgrades),
            silent_reconnects: grown(before.silent_reconnects, after.silent_reconnects),
            chain_strips_on_fresh: grown(
                before.chain_strips_on_fresh,
                after.chain_strips_on_fresh,
            ),
        }),
{
    WsPoolDelta {
        upgrades: growth(before.upgrades, after.upgrades),
        silent_reconnects: growth(before.silent_reconnects, after.silent_reconnects),
        chain_strips_on_fresh: growth(
            before.chain_strips_on_fresh,
            after.chain_strips_on_fresh,
        ),
    }
}

/// A message of the assistant.
pub open spec fn assistant_text(text: Seq<char>) -> ItemView {
    ItemView::Message { role: ContextRole::Assistant, content: seq![text], phase: None }
}

/// A message of the assistant.
pub fn assistant_text_item(text: String) -> (item: ContextItem)
    ensures
        item@ == assistant_text(text@),
{
    assistant_message_of(text, None)
}

/// A message of the assistant with a phase.
fn assistant_message_of(text: String, phase: Option<MessagePhase>) -> (item: ContextItem)
    ensures
        item@ == (ItemView::Message {
            role: ContextRole::Assistant,
            content: seq![text@],
            phase,
        }),
{
    let mut content: Vec<String> = Vec::new();
    content.push(text);
    assert(views(content@) =~= seq![text@]);
    ContextItem::Message { role: ContextRole::Assistant, content, phase }
}

/// Whether an item is a compaction.
pub open spec fn is_compaction(item: ItemView) -> bool {
    item is Compaction
}

/// Whether an item is a tool call.
pub open spec fn is_tool_call(item: ItemView) -> bool {
    item is ToolCall
}

/// Whether some item is as a condition asks.
pub open spec fn any_item(items: Seq<ItemView>, holds: spec_fn(ItemView) -> bool) -> bool {
    exists|i: int| 0 <= i < items.len() && holds(#[trigger] items[i])
}

/// Why a model stopped, as the items of its response tell.
pub open spec fn stop_reason_of(items: Seq<ItemView>) -> StopReason {
    if any_item(items, |item: ItemView| is_compaction(item)) {
        StopReason::Compaction
    } else if any_item(items, |item: ItemView| is_tool_call(item)) {
        StopReason::ToolCalls
    } else {
        StopReason::EndTurn
    }
}

/// Why a model stopped, as the items of its response tell.
pub fn stop_reason_from_output_items(items: &Vec<ContextItem>) -> (reason: StopReason)
    ensures
        reason == stop_reason_of(item_views(items@)),
{
    let ghost all = item_views(items@);
    let mut compaction = false;
    let mut call = false;
    let mut i: usize = 0;
    while i < items.len()
        invariant
            i <= items@.len(),
            all == item_views(items@),
            compaction == exists|j: int| 0 <= j < i && is_compaction(#[trigger] all[j]),
            call == exists|j: int| 0 <= j < i && is_tool_call(#[trigger] all[j]),
        decreases items.len() - i,
    {
        assert(all[i as int] == items@[i as int]@);
        match &items[i] {
            ContextItem::Compaction(_) => {
                assert(is_compaction(all[i as int]));
                compaction = true;
            },
            ContextItem::ToolCall { .. } => {
                assert(is_tool_call(all[i as int]));
                call = true;
            },
            _ => {},
        }
        i += 1;
    }
    if compaction {
        let ghost j = choose|j: int| 0 <= j < i && is_compaction(#[trigger] all[j]);
        assert((|item: ItemView| is_compaction(item))(all[j]));
        StopReason::Compaction
    } else {
        assert(!any_item(all, |item: ItemView| is_compaction(item)));
        if call {
            let ghost j = choose|j: int| 0 <= j < i && is_tool_call(#[trigger] all[j]);
            assert((|item: ItemView| is_tool_call(item))(all[j]));
            StopReason::ToolCalls
        } else {
            assert(!any_item(all, |item: ItemView| is_tool_call(item)));
            StopReason::EndTurn
        }
    }
}

/// A value out of JSON; the text itself where it is none.
pub open spec fn parsed_value(parsed: Result<Json, Seq<char>>, text: Seq<char>) -> Cbor {
    match parsed {
        Ok(value) => cbor_of_json(value),
        Err(_) => Cbor::Text(text),
    }
}

/// A value out of JSON; the text itself where it is none.
pub fn value_from_parsed(parsed: Result<JsonValue, String>, text: String) -> (value: CborValue)
    ensures
        value@ == parsed_value(json_result(parsed), text@),
{
    match parsed {
        Ok(value) => json_to_cbor(&value),
        Err(_) => CborValue::Text(text),
    }
}

/// A value out of JSON text.
pub fn value_from_text(text: String) -> (value: CborValue)
    ensures
        value@ == parsed_value(parsed_json(text@), text@),
{
    let parsed = parse_json(text.as_str());
    value_from_parsed(parsed, text)
}

/// The item of the conversation that an item of a response becomes; none where
/// it is an empty message.
pub open spec fn slot_items(slot: SlotView) -> Seq<ItemView> {
    match slot {
        SlotView::Message { text, phase } => if text.len() == 0 {
            seq![]
        } else {
            seq![
                ItemView::Message { role: ContextRole::Assistant, content: seq![text], phase },
            ]
        },
        SlotView::ToolCall { tool_type, id, name, arguments } => seq![
            ItemView::ToolCall {
                call_id: id,
                name,
                tool_type,
                arguments: match tool_type {
                    ToolType::Function => parsed_value(parsed_json(arguments), arguments),
                    ToolType::Custom => Cbor::Text(arguments),
                },
            },
        ],
        SlotView::Reasoning(item) => seq![ItemView::Reasoning(cbor_of_json(item))],
    }
}

/// The items of the conversation that the items of a response become.
pub open spec fn slots_items(slots: Seq<(u64, SlotView)>) -> Seq<ItemView>
    decreases slots.len(),
{
    if slots.len() == 0 {
        seq![]
    } else {
        slots_items(slots.drop_last()) + slot_items(slots.last().1)
    }
}

/// The items that a compaction left.
pub open spec fn compaction_items(texts: Seq<Seq<char>>) -> Seq<ItemView> {
    texts.map_values(|text: Seq<char>| ItemView::Compaction(parsed_value(parsed_json(text), text)))
}

/// The items of the conversation that a response becomes.
pub open spec fn output_of(state: StreamView) -> Seq<ItemView> {
    slots_items(state.slots) + compaction_items(state.compacted_input_items)
}

/// The items of the conversation that a response becomes.
pub fn into_output_items(state: &StreamState) -> (items: Vec<ContextItem>)
    ensures
        item_views(items@) == output_of(state@),
{
    let ghost slots = slot_views(state.slots@);
    let mut items: Vec<ContextItem> = Vec::new();
    let mut i: usize = 0;
    assert(item_views(items@) =~= seq![]);
    while i < state.slots.len()
        invariant
            i <= state.slots@.len(),
            slots == slot_views(state.slots@),
            item_views(items@) == slots_items(slots.take(i as int)),
        decreases state.slots.len() - i,
    {
        let ghost before = items@;
        assert(slots.take(i + 1).drop_last() =~= slots.take(i as int));
        assert(slots.take(i + 1).last() == (state.slots@[i as int].0, state.slots@[i as int].1@));
        let item: Option<ContextItem> = match &state.slots[i].1 {
            Slot::Message { text, phase } => {
                if text.as_str().is_empty() {
                    None
                } else {
                    Some(assistant_message_of(text.clone(), *phase))
                }
            },
            Slot::ToolCall { tool_type, id, name, arguments } => {
                let value = match tool_type {
                    ToolType::Function => value_from_text(arguments.clone()),
                    ToolType::Custom => CborValue::Text(arguments.clone()),
                };
                Some(
                    ContextItem::ToolCall {
                        call_id: id.clone(),
                        name: name.clone(),
                        tool_type: *tool_type,
                        arguments: value,
                    },
                )
            },
            Slot::Reasoning(item) => Some(ContextItem::Reasoning(json_to_cbor(item))),
        };
        match item {
            Some(item) => {
                assert(slot_items(state.slots@[i as int].1@) =~= seq![item@]);
                items.push(item);
                assert(item_views(items@) =~= item_views(before) + seq![item@]);
            },
            None => {
                assert(item_views(items@) + seq![] =~= item_views(before));
            },
        }
        i += 1;
    }
    assert(slots.take(i as int) =~= slots);
    let ghost front = item_views(items@);
    let ghost texts = views(state.compacted_input_items@);
    let ghost all = compaction_items(texts);
    let mut k: usize = 0;
    assert(front + all.take(0) =~= front);
    while k < state.compacted_input_items.len()
        invariant
            k <= state.compacted_input_items@.len(),
            texts == views(state.compacted_input_items@),
            all == compaction_items(texts),
            item_views(items@) == front + all.take(k as int),
        decreases state.compacted_input_items.len() - k,
    {
        let ghost before = items@;
        let value = value_from_text(state.compacted_input_items[k].clone());
        let item = ContextItem::Compaction(value);
        items.push(item);
        assert(texts[k as int] == state.compacted_input_items@[k as int]@);
        assert(item@ == all[k as int]);
        assert(item_views(items@) =~= item_views(before).push(item@));
        k += 1;
        assert(item_views(items@) =~= front + all.take(k as int));
    }
    assert(all.take(k as int) =~= all);
    items
}

/// The tokens that a response took, where it says any.
pub open spec fn usage_of(state: StreamView) -> Option<Usage> {
    if state.input_tokens is None && state.cached_tokens is None && state.output_tokens is None {
        None
    } else {
        Some(
            Usage {
                input_tokens: state.input_tokens,
                cached_tokens: state.cached_tokens,
                output_tokens: state.output_tokens,
            },
        )
    }
}

/// The answer that a plain text is.
pub open spec fn simple_of(
    session_prompt_id: Seq<char>,
    originator: OriginatorView,
    text: Seq<char>,
) -> FinishedView {
    FinishedView {
        session_prompt_id,
        output_items: seq![assistant_text(text)],
        stop_reason: StopReason::EndTurn,
        originator,
        usage: None,
        backend: None,
        provider_response_id: None,
        ws_pool_delta: None,
    }
}

/// The answer that a plain text is.
pub fn simple_finished(session_prompt_id: &str, originator: &PromptOriginator, text: String) -> (finished:
    ResponseFinished)
    ensures
        finished@ == simple_of(session_prompt_id@, originator@, text@),
{
    let mut output_items: Vec<ContextItem> = Vec::new();
    let item = assistant_text_item(text);
    output_items.push(item);
    assert(item_views(output_items@) =~= seq![item@]);
    ResponseFinished {
        session_prompt_id: session_prompt_id.to_owned(),
        output_items,
        stop_reason: StopReason::EndTurn,
        originator: originator.copy(),
        usage: None,
        backend: None,
        provider_response_id: None,
        ws_pool_delta: None,
    }
}

/// The answer to a prompt that the harness cancelled.
pub open spec fn canceled_of(session_prompt_id: Seq<char>, originator: OriginatorView) -> FinishedView {
    simple_of(session_prompt_id, originator, "(cancelled by harness)"@)
}

/// The answer to a prompt that the harness cancelled.
pub fn finish_canceled(session_prompt_id: &str, originator: &PromptOriginator) -> (finished:
    ResponseFinished)
    ensures
        finished@ == canceled_of(session_prompt_id@, originator@),
{
    simple_finished(session_prompt_id, originator, "(cancelled by harness)".to_owned())
}

/// The view of an optional model.
pub open spec fn opt_model(model: Option<ModelId>) -> Option<ModelIdView> {
    match model {
        Some(model) => Some(model@),
        None => None,
    }
}

/// Why a prompt has no backend.
pub open spec fn missing_text(model: Option<ModelIdView>) -> Seq<char> {
    match model {
        Some(model) => "cannot resolve provider backend for: "@ + model.text(),
        None => "no model specified"@,
    }
}

/// The answer to a prompt that has no backend.
pub fn finish_missing_backend(
    session_prompt_id: &str,
    originator: &PromptOriginator,
    model: &Option<ModelId>,
) -> (finished: ResponseFinished)
    ensures
        finished@ == simple_of(session_prompt_id@, originator@, missing_text(opt_model(*model))),
{
    let text = match model {
        Some(model) => {
            let mut text = "cannot resolve provider backend for: ".to_owned();
            let name = model.text();
            text.append(name.as_str());
            text
        },
        None => "no model specified".to_owned(),
    };
    simple_finished(session_prompt_id, originator, text)
}

/// The items of an answer: those of the response, or a word that it had none.
pub open spec fn answer_items(state: StreamView) -> Seq<ItemView> {
    if output_of(state).len() == 0 {
        seq![assistant_text("(provider returned an empty response)"@)]
    } else {
        output_of(state)
    }
}

/// The answer that a response is.
pub open spec fn stream_finished(
    session_prompt_id: Seq<char>,
    originator: OriginatorView,
    backend: BackendView,
    state: StreamView,
    delta: Option<WsPoolDelta>,
) -> FinishedView {
    FinishedView {
        session_prompt_id,
        output_items: answer_items(state),
        stop_reason: stop_reason_of(answer_items(state)),
        originator,
        usage: usage_of(state),
        backend: Some(backend),
        provider_response_id: state.response_id,
        ws_pool_delta: delta,
    }
}

/// The answer that a response is.
pub fn finish_stream(
    session_prompt_id: &str,
    originator: &PromptOriginator,
    backend: ProviderBackend,
    state: &StreamState,
    delta: Option<WsPoolDelta>,
) -> (finished: ResponseFinished)
    ensures
        finished@ == stream_finished(
            session_prompt_id@,
            originator@,
            backend@,
            state@,
            delta,
        ),
{
    let mut output_items = into_output_items(state);
    assert(output_items@.len() == item_views(output_items@).len());
    if output_items.len() == 0 {
        let item = assistant_text_item("(provider returned an empty response)".to_owned());
        output_items.push(item);
        assert(item_views(output_items@) =~= seq![item@]);
    }
    let usage: Option<Usage> = if state.input_tokens.is_none() && state.cached_tokens.is_none()
        && state.output_tokens.is_none() {
        None
    } else {
        Some(
            Usage {
                input_tokens: state.input_tokens,
                cached_tokens: state.cached_tokens,
                output_tokens: state.output_tokens,
            },
        )
    };
    ResponseFinished {
        session_prompt_id: session_prompt_id.to_owned(),
        stop_reason: stop_reason_from_output_items(&output_items),
        output_items,
        originator: originator.copy(),
        usage,
        backend: Some(backend),
        provider_response_id: state.response_id.clone(),
        ws_pool_delta: delta,
    }
}

/// The answer that an error is.
pub open spec fn error_finished(
    session_prompt_id: Seq<char>,
    originator: OriginatorView,
    backend: BackendView,
    error: Seq<char>,
    delta: Option<WsPoolDelta>,
) -> FinishedView {
    FinishedView {
        session_prompt_id,
        output_items: seq![assistant_text("LLM error: "@ + error)],
        stop_reason: StopReason::Error,
        originator,
        usage: None,
        backend: Some(backend),
        provider_response_id: None,
        ws_pool_delta: delta,
    }
}

/// The answer that an error is.
pub fn finish_error(
    session_prompt_id: &str,
    originator: &PromptOriginator,
    backend: ProviderBackend,
    error: &str,
    delta: Option<WsPoolDelta>,
) -> (finished: ResponseFinished)
    ensures
        finished@ == error_finished(
            session_prompt_id@,
            originator@,
            backend@,
            error@,
            delta,
        ),
{
    let mut text = "LLM error: ".to_owned();
    text.append(error);
    let item = assistant_text_item(text);
    let mut output_items: Vec<ContextItem> = Vec::new();
    output_items.push(item);
    assert(item_views(output_items@) =~= seq![item@]);
    ResponseFinished {
        session_prompt_id: session_prompt_id.to_owned(),
        output_items,
        stop_reason: StopReason::Error,
        originator: originator.copy(),
        usage: None,
        backend: Some(backend),
        provider_response_id: None,
        ws_pool_delta: delta,
    }
}

/// An answer is never empty.
pub proof fn law_answer_is_never_empty(state: StreamView)
    ensures
        answer_items(state).len() > 0,
{
}

} // verus!
