//! What a stream of events makes of a response.

use vstd::prelude::*;

use crate::json::{
    at, get, get_text, get_text_in, get_unsigned, get_unsigned_in, member, opt_json, or_else,
    text_at, unsigned_at, Json, JsonValue,
};
use crate::provider::context::{MessagePhase, ToolType};
use crate::text::{decimal, decimal_of, ends_with, opt_view, same_text, views};

verus! {

/// Why a request failed.
#[derive(Debug, PartialEq, Eq)]
pub enum LlmError {
    /// The status and the body of the answer; no status where a stream broke.
    HttpStatus(u16, String),
    Http(String),
    Json(String),
    Io(String),
}

/// Why a request failed, as mathematics.
pub enum ErrorView {
    HttpStatus(u16, Seq<char>),
    Http(Seq<char>),
    Json(Seq<char>),
    Io(Seq<char>),
}

impl View for LlmError {
    type V = ErrorView;

    open spec fn view(&self) -> ErrorView {
        match self {
            LlmError::HttpStatus(code, body) => ErrorView::HttpStatus(*code, body@),
            LlmError::Http(text) => ErrorView::Http(text@),
            LlmError::Json(text) => ErrorView::Json(text@),
            LlmError::Io(text) => ErrorView::Io(text@),
        }
    }
}

/// Why a request failed, in words.
pub open spec fn error_text(error: ErrorView) -> Seq<char> {
    match error {
        ErrorView::HttpStatus(code, body) => "HTTP "@ + decimal_of(code as nat) + ": "@ + body,
        ErrorView::Http(text) => "HTTP request failed: "@ + text,
        ErrorView::Json(text) => "invalid JSON: "@ + text,
        ErrorView::Io(text) => "I/O error: "@ + text,
    }
}

impl LlmError {
    /// Why the request failed, in words.
    pub fn text(&self) -> (text: String)
        ensures
            text@ == error_text(self@),
    {
        match self {
            LlmError::HttpStatus(code, body) => {
                let mut text = "HTTP ".to_owned();
                let number = decimal(*code as u64);
                text.append(number.as_str());
                text.append(": ");
                text.append(body.as_str());
                text
            },
            LlmError::Http(detail) => {
                let mut text = "HTTP request failed: ".to_owned();
                text.append(detail.as_str());
                text
            },
            LlmError::Json(detail) => {
                let mut text = "invalid JSON: ".to_owned();
                text.append(detail.as_str());
                text
            },
            LlmError::Io(detail) => {
                let mut text = "I/O error: ".to_owned();
                text.append(detail.as_str());
                text
            },
        }
    }
}

/// One item of a response as it comes in.
#[derive(Debug)]
pub enum Slot {
    Message { text: String, phase: Option<MessagePhase> },
    ToolCall { tool_type: ToolType, id: String, name: String, arguments: String },
    Reasoning(JsonValue),
}

/// One item of a response, as mathematics.
pub enum SlotView {
    Message { text: Seq<char>, phase: Option<MessagePhase> },
    ToolCall { tool_type: ToolType, id: Seq<char>, name: Seq<char>, arguments: Seq<char> },
    Reasoning(Json),
}

impl View for Slot {
    type V = SlotView;

    open spec fn view(&self) -> SlotView {
        match self {
            Slot::Message { text, phase } => SlotView::Message { text: text@, phase: *phase },
            Slot::ToolCall { tool_type, id, name, arguments } => SlotView::ToolCall {
                tool_type: *tool_type,
                id: id@,
                name: name@,
                arguments: arguments@,
            },
            Slot::Reasoning(item) => SlotView::Reasoning(item@),
        }
    }
}

/// The views of a list of items.
pub open spec fn slot_views(slots: Seq<(u64, Slot)>) -> Seq<(u64, SlotView)> {
    slots.map_values(|s: (u64, Slot)| (s.0, s.1@))
}

/// What is taken from a response besides its texts and calls.
#[derive(Clone, Copy, Debug, PartialEq, Eq)]
pub struct Extras {
    /// The phase of a message.
    pub phase: bool,
    /// Reasoning that can be sent again.
    pub reasoning: bool,
}

/// A response as far as it has come in. Its items stand in the order of their
/// index.
#[derive(Debug)]
pub struct StreamState {
    pub extras: Extras,
    pub slots: Vec<(u64, Slot)>,
    pub thinking: Option<String>,
    pub input_tokens: Option<u64>,
    pub cached_tokens: Option<u64>,
    pub output_tokens: Option<u64>,
    pub response_id: Option<String>,
    pub provider_terminal_event: Option<JsonValue>,
    /// Whether the response that the request went on from was refused.
    pub stale_chain_fallback: bool,
    /// The items that a compaction left, as JSON.
    pub compacted_input_items: Vec<String>,
}

/// A response as far as it has come in, as mathematics.
pub struct StreamView {
    pub extras: Extras,
    pub slots: Seq<(u64, SlotView)>,
    pub thinking: Option<Seq<char>>,
    pub input_tokens: Option<u64>,
    pub cached_tokens: Option<u64>,
    pub output_tokens: Option<u64>,
    pub response_id: Option<Seq<char>>,
    pub provider_terminal_event: Option<Json>,
    pub stale_chain_fallback: bool,
    pub compacted_input_items: Seq<Seq<char>>,
}

impl View for StreamState {
    type V = StreamView;

    open spec fn view(&self) -> StreamView {
        StreamView {
            extras: self.extras,
            slots: slot_views(self.slots@),
            thinking: opt_view(self.thinking),
            input_tokens: self.input_tokens,
            cached_tokens: self.cached_tokens,
            output_tokens: self.output_tokens,
            response_id: opt_view(self.response_id),
            provider_terminal_event: opt_json(self.provider_terminal_event),
            stale_chain_fallback: self.stale_chain_fallback,
            compacted_input_items: views(self.compacted_input_items@),
        }
    }
}

/// The item at an index.
pub open spec fn slot_at(slots: Seq<(u64, SlotView)>, index: u64) -> Option<SlotView>
    decreases slots.len(),
{
    if slots.len() == 0 {
        None
    } else if slots[0].0 == index {
        Some(slots[0].1)
    } else {
        slot_at(slots.drop_first(), index)
    }
}

/// The items with the one at an index replaced, or put in its place.
pub open spec fn with_slot(slots: Seq<(u64, SlotView)>, index: u64, slot: SlotView) -> Seq<
    (u64, SlotView),
>
    decreases slots.len(),
{
    if slots.len() == 0 {
        seq![(index, slot)]
    } else if slots[0].0 == index {
        seq![(index, slot)] + slots.drop_first()
    } else if index < slots[0].0 {
        seq![(index, slot)] + slots
    } else {
        seq![slots[0]] + with_slot(slots.drop_first(), index, slot)
    }
}

/// The text of the messages among some items.
pub open spec fn messages_text(slots: Seq<(u64, SlotView)>) -> Seq<char>
    decreases slots.len(),
{
    if slots.len() == 0 {
        seq![]
    } else {
        match slots.last().1 {
            SlotView::Message { text, .. } => messages_text(slots.drop_last()) + text,
            _ => messages_text(slots.drop_last()),
        }
    }
}

/// A tool call, as mathematics.
pub struct CallView {
    pub id: Seq<char>,
    pub name: Seq<char>,
    pub arguments: Seq<char>,
}

impl StreamView {
    /// A response of which nothing has come in, and everything is taken.
    pub open spec fn fresh() -> StreamView {
        StreamView {
            extras: Extras { phase: true, reasoning: true },
            slots: seq![],
            thinking: None,
            input_tokens: None,
            cached_tokens: None,
            output_tokens: None,
            response_id: None,
            provider_terminal_event: None,
            stale_chain_fallback: false,
            compacted_input_items: seq![],
        }
    }

    /// A response of which nothing has come in.
    pub open spec fn taking(extras: Extras) -> StreamView {
        StreamView { extras, ..StreamView::fresh() }
    }

    /// The text that has come in.
    pub open spec fn text(self) -> Seq<char> {
        messages_text(self.slots)
    }

    /// The message at an index; an empty one where there is none.
    pub open spec fn message_at(self, index: u64) -> (Seq<char>, Option<MessagePhase>) {
        match slot_at(self.slots, index) {
            Some(SlotView::Message { text, phase }) => (text, phase),
            _ => (seq![], None),
        }
    }

    /// The call at an index; an empty one where there is none.
    pub open spec fn call_at(self, index: u64) -> CallView {
        match slot_at(self.slots, index) {
            Some(SlotView::ToolCall { id, name, arguments, .. }) => CallView {
                id,
                name,
                arguments,
            },
            _ => CallView { id: seq![], name: seq![], arguments: seq![] },
        }
    }

    /// The response with a message at an index.
    pub open spec fn with_message(
        self,
        index: u64,
        text: Seq<char>,
        phase: Option<MessagePhase>,
    ) -> StreamView {
        StreamView {
            slots: with_slot(self.slots, index, SlotView::Message { text, phase }),
            ..self
        }
    }

    /// The response with a call at an index.
    pub open spec fn with_call(self, index: u64, tool_type: ToolType, call: CallView) -> StreamView {
        StreamView {
            slots: with_slot(
                self.slots,
                index,
                SlotView::ToolCall {
                    tool_type,
                    id: call.id,
                    name: call.name,
                    arguments: call.arguments,
                },
            ),
            ..self
        }
    }

    /// The response with a text for a message that keeps its phase.
    pub open spec fn with_text(self, index: u64, text: Seq<char>) -> StreamView {
        self.with_message(index, text, self.message_at(index).1)
    }

    /// The response with other arguments for a call.
    pub open spec fn with_arguments(
        self,
        index: u64,
        tool_type: ToolType,
        arguments: Seq<char>,
    ) -> StreamView {
        self.with_call(index, tool_type, CallView { arguments, ..self.call_at(index) })
    }
}

/// What an event changes.
pub struct Applied {
    pub state: StreamView,
    /// Whether the response is complete, or why it failed.
    pub outcome: Result<bool, Seq<char>>,
    /// Whether there is something new to show.
    pub updated: bool,
}

/// Nothing to show, and more to come.
pub open spec fn quiet(state: StreamView) -> Applied {
    Applied { state, outcome: Ok(false), updated: false }
}

/// Something new to show, and more to come.
pub open spec fn shown(state: StreamView) -> Applied {
    Applied { state, outcome: Ok(false), updated: true }
}

/// The response failed.
pub open spec fn failed(state: StreamView, message: Seq<char>) -> Applied {
    Applied { state, outcome: Err(message), updated: false }
}

/// A text, or another where there is none.
pub open spec fn text_or(text: Option<Seq<char>>, other: Seq<char>) -> Seq<char> {
    match text {
        Some(text) => text,
        None => other,
    }
}

/// The index of the item that an event is about; the first where it does not
/// say.
pub open spec fn index_in(event: Json) -> u64 {
    match unsigned_at(event, "output_index"@) {
        Some(index) => index,
        None => 0,
    }
}

/// The phase that a message says it is; none where it is no message or says
/// nothing that is known.
pub open spec fn phase_in(item: Json) -> Option<MessagePhase> {
    if text_at(item, "type"@) != Some("message"@) {
        None
    } else if text_at(item, "phase"@) == Some("commentary"@) {
        Some(MessagePhase::Commentary)
    } else if text_at(item, "phase"@) == Some("final_answer"@) {
        Some(MessagePhase::FinalAnswer)
    } else {
        None
    }
}

/// The text of a part of a message; nothing where it is no text part.
pub open spec fn part_text(part: Json) -> Seq<char> {
    if text_at(part, "type"@) == Some("output_text"@) || text_at(part, "type"@) == Some("text"@) {
        text_or(text_at(part, "text"@), seq![])
    } else {
        seq![]
    }
}

/// The text of the parts of a message, one after the other.
pub open spec fn parts_text(parts: Seq<Json>) -> Seq<char>
    decreases parts.len(),
{
    if parts.len() == 0 {
        seq![]
    } else {
        parts_text(parts.drop_last()) + part_text(parts.last())
    }
}

/// The text of a message; nothing where it is empty.
pub open spec fn message_text_in(item: Json) -> Option<Seq<char>> {
    let text = match at(item, "content"@) {
        Json::Array(parts) => parts_text(parts),
        _ => seq![],
    };
    if text.len() == 0 {
        None
    } else {
        Some(text)
    }
}

/// How an item of a response takes its input, where it is a tool call.
pub open spec fn call_type(item: Json) -> Option<ToolType> {
    if text_at(item, "type"@) == Some("function_call"@) {
        Some(ToolType::Function)
    } else if text_at(item, "type"@) == Some("custom_tool_call"@) {
        Some(ToolType::Custom)
    } else {
        None
    }
}

/// A tool call with what an item says of it. Its input stays where some has come
/// in.
pub open spec fn call_with(call: CallView, item: Json, tool_type: ToolType) -> CallView {
    let input = match tool_type {
        ToolType::Function => text_at(item, "arguments"@),
        ToolType::Custom => text_at(item, "input"@),
    };
    CallView {
        id: text_or(text_at(item, "call_id"@), call.id),
        name: text_or(text_at(item, "name"@), call.name),
        arguments: if call.arguments.len() == 0 {
            text_or(input, call.arguments)
        } else {
            call.arguments
        },
    }
}

/// What an item that is added or done changes.
pub open spec fn item_applied(state: StreamView, item: Json, index: u64, done: bool) -> Applied {
    match call_type(item) {
        Some(tool_type) => quiet(
            state.with_call(index, tool_type, call_with(state.call_at(index), item, tool_type)),
        ),
        None => if text_at(item, "type"@) == Some("message"@) {
            let phase = if state.extras.phase {
                phase_in(item)
            } else {
                None
            };
            let marked = state.with_message(index, state.message_at(index).0, phase);
            match message_text_in(item) {
                Some(text) if done => {
                    let next = marked.with_text(index, text);
                    Applied {
                        state: next,
                        outcome: Ok(false),
                        updated: next.text() != marked.text(),
                    }
                },
                _ => quiet(marked),
            }
        } else if done && state.extras.reasoning && text_at(item, "type"@) == Some("reasoning"@)
            && text_at(item, "encrypted_content"@) is Some {
            quiet(
                StreamView {
                    slots: with_slot(state.slots, index, SlotView::Reasoning(item)),
                    ..state
                },
            )
        } else {
            quiet(state)
        },
    }
}

/// A number in the usage that an event reports, inside of its response or of
/// itself.
pub open spec fn usage_in(event: Json, key: Seq<char>) -> Option<u64> {
    or_else(
        unsigned_at(at(at(event, "response"@), "usage"@), key),
        unsigned_at(at(event, "usage"@), key),
    )
}

/// The number of cached tokens that an event reports.
pub open spec fn cached_in(event: Json) -> Option<u64> {
    or_else(
        unsigned_at(
            at(at(at(event, "response"@), "usage"@), "input_tokens_details"@),
            "cached_tokens"@,
        ),
        unsigned_at(at(at(event, "usage"@), "input_tokens_details"@), "cached_tokens"@),
    )
}

/// A response that is complete: what its last event reports fills what is not
/// known yet.
pub open spec fn completed(state: StreamView, event: Json) -> StreamView {
    StreamView {
        provider_terminal_event: Some(event),
        input_tokens: or_else(state.input_tokens, usage_in(event, "input_tokens"@)),
        cached_tokens: or_else(state.cached_tokens, cached_in(event)),
        output_tokens: or_else(state.output_tokens, usage_in(event, "output_tokens"@)),
        response_id: or_else(
            state.response_id,
            or_else(text_at(at(event, "response"@), "id"@), text_at(event, "id"@)),
        ),
        ..state
    }
}

/// What an `error` event says: its message, and its code where it has one.
pub open spec fn stream_error(event: Json) -> Seq<char> {
    let detail = text_or(
        or_else(text_at(at(event, "error"@), "message"@), text_at(event, "message"@)),
        "unknown error"@,
    );
    match or_else(
        or_else(text_at(at(event, "error"@), "code"@), text_at(event, "code"@)),
        text_at(at(event, "error"@), "type"@),
    ) {
        Some(code) => "stream error: "@ + detail + " (type="@ + code + ")"@,
        None => "stream error: "@ + detail,
    }
}

/// What an event of the stream changes.
pub open spec fn applied(state: StreamView, event: Json) -> Applied {
    let kind = text_or(text_at(event, "type"@), seq![]);
    let index = index_in(event);
    let delta = text_at(event, "delta"@);
    if kind == "response.output_text.delta"@ {
        match delta {
            Some(delta) => shown(state.with_text(index, state.message_at(index).0 + delta)),
            None => quiet(state),
        }
    } else if kind == "response.output_text.done"@ {
        match text_at(event, "text"@) {
            Some(text) => shown(state.with_text(index, text)),
            None => quiet(state),
        }
    } else if kind == "response.reasoning_summary_text.delta"@ {
        match delta {
            Some(delta) => shown(
                StreamView { thinking: Some(text_or(state.thinking, seq![]) + delta), ..state },
            ),
            None => quiet(state),
        }
    } else if kind == "response.reasoning_summary_part.added"@ {
        match state.thinking {
            Some(thinking) => if thinking.len() > 0 && !("\n\n"@.is_suffix_of(thinking)) {
                quiet(StreamView { thinking: Some(thinking + "\n\n"@), ..state })
            } else {
                quiet(state)
            },
            None => quiet(state),
        }
    } else if kind == "response.function_call_arguments.delta"@ {
        match delta {
            Some(delta) => quiet(
                state.with_arguments(
                    index,
                    ToolType::Function,
                    state.call_at(index).arguments + delta,
                ),
            ),
            None => quiet(state),
        }
    } else if kind == "response.function_call_arguments.done"@ {
        match text_at(event, "arguments"@) {
            Some(arguments) => quiet(state.with_arguments(index, ToolType::Function, arguments)),
            None => quiet(state),
        }
    } else if kind == "response.custom_tool_call_input.delta"@ {
        match delta {
            Some(delta) => quiet(
                state.with_arguments(
                    index,
                    ToolType::Custom,
                    state.call_at(index).arguments + delta,
                ),
            ),
            None => quiet(state),
        }
    } else if kind == "response.custom_tool_call_input.done"@ {
        match text_at(event, "input"@) {
            Some(input) => quiet(state.with_arguments(index, ToolType::Custom, input)),
            None => quiet(state),
        }
    } else if kind == "response.output_item.added"@ || kind == "response.output_item.done"@ {
        match member(event, "item"@) {
            Some(item) => item_applied(state, item, index, kind == "response.output_item.done"@),
            None => quiet(state),
        }
    } else if kind == "response.completed"@ || kind == "response.done"@ {
        Applied { state: completed(state, event), outcome: Ok(true), updated: false }
    } else if kind == "response.incomplete"@ {
        failed(
            state,
            "response incomplete: "@ + text_or(
                text_at(at(at(event, "response"@), "incomplete_details"@), "reason"@),
                "unknown reason"@,
            ),
        )
    } else if kind == "response.failed"@ {
        failed(
            state,
            "response failed: "@ + text_or(
                or_else(
                    text_at(at(at(event, "response"@), "error"@), "message"@),
                    text_at(at(at(event, "response"@), "error"@), "code"@),
                ),
                "unknown error"@,
            ),
        )
    } else if kind == "error"@ {
        failed(state, stream_error(event))
    } else {
        quiet(state)
    }
}

/// What came of an event.
#[derive(Clone, Copy, Debug, PartialEq, Eq, Structural)]
pub struct EventStep {
    /// Whether the response is complete.
    pub done: bool,
    /// Whether there is something new to show.
    pub updated: bool,
}

impl StreamState {
    /// A response of which nothing has come in, and everything is taken.
    pub fn new() -> (state: StreamState)
        ensures
            state@ == StreamView::fresh(),
    {
        StreamState::taking(Extras { phase: true, reasoning: true })
    }

    /// A response of which nothing has come in.
    pub fn taking(extras: Extras) -> (state: StreamState)
        ensures
            state@ == StreamView::taking(extras),
    {
        let state = StreamState {
            extras,
            slots: Vec::new(),
            thinking: None,
            input_tokens: None,
            cached_tokens: None,
            output_tokens: None,
            response_id: None,
            provider_terminal_event: None,
            stale_chain_fallback: false,
            compacted_input_items: Vec::new(),
        };
        assert(state@.slots =~= seq![]);
        assert(state@.compacted_input_items =~= seq![]);
        state
    }

    /// The text that has come in.
    pub fn text(&self) -> (text: String)
        ensures
            text@ == self@.text(),
    {
        let ghost all = slot_views(self.slots@);
        let mut text = String::new();
        let mut i: usize = 0;
        assert(text@ =~= seq![]);
        while i < self.slots.len()
            invariant
                i <= self.slots@.len(),
                all == slot_views(self.slots@),
                text@ == messages_text(all.take(i as int)),
            decreases self.slots.len() - i,
        {
            assert(all.take(i + 1).drop_last() =~= all.take(i as int));
            assert(all.take(i + 1).last() == (self.slots@[i as int].0, self.slots@[i as int].1@));
            if let Slot::Message { text: more, .. } = &self.slots[i].1 {
                text.append(more.as_str());
            }
            i += 1;
        }
        assert(all.take(i as int) =~= all);
        text
    }

    /// The item at an index.
    fn slot(&self, index: u64) -> (found: Option<&Slot>)
        ensures
            match found {
                Some(slot) => slot_at(self@.slots, index) == Some(slot@),
                None => slot_at(self@.slots, index) is None,
            },
    {
        let ghost all = slot_views(self.slots@);
        let mut i: usize = 0;
        assert(all.skip(0) =~= all);
        while i < self.slots.len()
            invariant
                i <= self.slots@.len(),
                all == slot_views(self.slots@),
                slot_at(all.skip(i as int), index) == slot_at(all, index),
            decreases self.slots.len() - i,
        {
            assert(all.skip(i as int)[0] == (
                self.slots@[i as int].0,
                self.slots@[i as int].1@,
            ));
            if self.slots[i].0 == index {
                return Some(&self.slots[i].1);
            }
            i += 1;
            assert(all.skip(i - 1).drop_first() =~= all.skip(i as int));
        }
        None
    }

    /// Puts an item at an index.
    fn put_slot(&mut self, index: u64, slot: Slot)
        ensures
            final(self)@ == (StreamView {
                slots: with_slot(old(self)@.slots, index, slot@),
                ..old(self)@
            }),
    {
        let ghost all = slot_views(self.slots@);
        let ghost v = slot@;
        let n: usize = self.slots.len();
        let mut i: usize = 0;
        assert(all.skip(0) =~= all);
        assert(all.take(0) + with_slot(all, index, v) =~= with_slot(all, index, v));
        while i < n && self.slots[i].0 < index
            invariant
                i <= n == self.slots@.len(),
                *self == *old(self),
                all == slot_views(self.slots@),
                all.take(i as int) + with_slot(all.skip(i as int), index, v) == with_slot(
                    all,
                    index,
                    v,
                ),
            decreases n - i,
        {
            let ghost rest = all.skip(i as int);
            assert(rest[0] == (self.slots@[i as int].0, self.slots@[i as int].1@));
            assert(rest.drop_first() =~= all.skip(i + 1));
            assert(all.take(i as int) + (seq![rest[0]] + with_slot(all.skip(i + 1), index, v))
                =~= all.take(i + 1) + with_slot(all.skip(i + 1), index, v));
            i += 1;
        }
        let ghost rest = all.skip(i as int);
        let mut slots: Vec<(u64, Slot)> = Vec::new();
        core::mem::swap(&mut self.slots, &mut slots);
        if i < n {
            assert(rest[0] == (slots@[i as int].0, slots@[i as int].1@));
        }
        if i < n && slots[i].0 == index {
            slots.set(i, (index, slot));
            assert(slot_views(slots@) =~= all.take(i as int) + (seq![(index, v)]
                + rest.drop_first()));
        } else if i < n {
            slots.insert(i, (index, slot));
            assert(slot_views(slots@) =~= all.take(i as int) + (seq![(index, v)] + rest));
        } else {
            slots.push((index, slot));
            assert(rest =~= seq![]);
            assert(slot_views(slots@) =~= all.take(i as int) + seq![(index, v)]);
        }
        self.slots = slots;
    }

    /// The message at an index; an empty one where there is none.
    fn message(&self, index: u64) -> (message: (String, Option<MessagePhase>))
        ensures
            (message.0@, message.1) == self@.message_at(index),
    {
        match self.slot(index) {
            Some(Slot::Message { text, phase }) => (text.clone(), *phase),
            _ => {
                let text = String::new();
                assert(text@ =~= seq![]);
                (text, None)
            },
        }
    }

    /// The call at an index; an empty one where there is none.
    fn call(&self, index: u64) -> (call: (String, String, String))
        ensures
            self@.call_at(index) == (CallView {
                id: call.0@,
                name: call.1@,
                arguments: call.2@,
            }),
    {
        match self.slot(index) {
            Some(Slot::ToolCall { id, name, arguments, .. }) => (
                id.clone(),
                name.clone(),
                arguments.clone(),
            ),
            _ => {
                let empty = (String::new(), String::new(), String::new());
                assert(empty.0@ =~= seq![]);
                assert(empty.1@ =~= seq![]);
                assert(empty.2@ =~= seq![]);
                empty
            },
        }
    }

    /// Gives the message at an index a text.
    pub fn set_message_text_at(&mut self, index: u64, text: &str)
        ensures
            final(self)@ == old(self)@.with_text(index, text@),
    {
        let (_, phase) = self.message(index);
        self.put_slot(index, Slot::Message { text: text.to_owned(), phase });
    }

    /// Adds to the text of the message at an index.
    pub fn append_message_delta_at(&mut self, index: u64, delta: &str)
        ensures
            final(self)@ == old(self)@.with_text(
                index,
                old(self)@.message_at(index).0 + delta@,
            ),
    {
        let (mut text, phase) = self.message(index);
        text.append(delta);
        self.put_slot(index, Slot::Message { text, phase });
    }

    /// Marks the phase of the message at an index.
    pub fn set_message_phase_at(&mut self, index: u64, phase: Option<MessagePhase>)
        ensures
            final(self)@ == old(self)@.with_message(index, old(self)@.message_at(index).0, phase),
    {
        let (text, _) = self.message(index);
        self.put_slot(index, Slot::Message { text, phase });
    }

    /// Gives the call at an index other arguments.
    fn set_arguments_at(&mut self, index: u64, tool_type: ToolType, given: &str, adds: bool)
        ensures
            final(self)@ == old(self)@.with_arguments(
                index,
                tool_type,
                if adds {
                    old(self)@.call_at(index).arguments + given@
                } else {
                    given@
                },
            ),
    {
        let (id, name, before) = self.call(index);
        let mut arguments = if adds {
            before
        } else {
            let none = String::new();
            assert(none@ =~= seq![]);
            none
        };
        arguments.append(given);
        assert(seq![] + given@ =~= given@);
        self.put_slot(index, Slot::ToolCall { tool_type, id, name, arguments });
    }

    /// Takes what an item says of the call at an index.
    fn merge_call(&mut self, index: u64, tool_type: ToolType, item: &JsonValue)
        ensures
            final(self)@ == old(self)@.with_call(
                index,
                tool_type,
                call_with(old(self)@.call_at(index), item@, tool_type),
            ),
    {
        let (mut id, mut name, mut arguments) = self.call(index);
        if let Some(given) = get_text(item, "call_id") {
            id = given;
        }
        if let Some(given) = get_text(item, "name") {
            name = given;
        }
        if arguments.as_str().is_empty() {
            let input = match tool_type {
                ToolType::Function => get_text(item, "arguments"),
                ToolType::Custom => get_text(item, "input"),
            };
            if let Some(given) = input {
                arguments = given;
            }
        }
        self.put_slot(index, Slot::ToolCall { tool_type, id, name, arguments });
    }

    /// Takes an item that is added or done. Tells whether there is something new
    /// to show.
    fn apply_item(&mut self, item: &JsonValue, index: u64, done: bool) -> (updated: bool)
        ensures
            item_applied(old(self)@, item@, index, done) == (Applied {
                state: final(self)@,
                outcome: Ok(false),
                updated,
            }),
    {
        let kind = get_text(item, "type");
        match parse_call_type(&kind) {
            Some(tool_type) => {
                self.merge_call(index, tool_type, item);
                return false;
            },
            None => {},
        }
        if is_kind(&kind, "message") {
            let phase = if self.extras.phase {
                parse_phase_from_item(item)
            } else {
                None
            };
            self.set_message_phase_at(index, phase);
            if done {
                if let Some(text) = message_text_from_output_item(item) {
                    let before = self.text();
                    self.set_message_text_at(index, text.as_str());
                    let after = self.text();
                    return !same_text(before.as_str(), after.as_str());
                }
            }
            return false;
        }
        if done && self.extras.reasoning && is_kind(&kind, "reasoning") && get_text(item, "encrypted_content").is_some() {
            self.put_slot(index, Slot::Reasoning(item.copy()));
        }
        false
    }

    /// Takes the last event of a response.
    fn complete(&mut self, event: &JsonValue)
        ensures
            final(self)@ == completed(old(self)@, event@),
    {
        self.provider_terminal_event = Some(event.copy());
        if self.input_tokens.is_none() {
            self.input_tokens = usage_number(event, "input_tokens");
        }
        if self.cached_tokens.is_none() {
            self.cached_tokens = cached_number(event);
        }
        if self.output_tokens.is_none() {
            self.output_tokens = usage_number(event, "output_tokens");
        }
        if self.response_id.is_none() {
            self.response_id = match get_text_in(event, "response", "id") {
                Some(id) => Some(id),
                None => get_text(event, "id"),
            };
        }
    }

    /// Takes an event of the stream.
    pub fn apply_event(&mut self, event: &JsonValue) -> (step: Result<EventStep, LlmError>)
        ensures
            final(self)@ == applied(old(self)@, event@).state,
            match step {
                Ok(step) => applied(old(self)@, event@).outcome == Ok::<bool, Seq<char>>(step.done)
                    && applied(old(self)@, event@).updated == step.updated,
                Err(error) => match applied(old(self)@, event@).outcome {
                    Err(message) => error@ == ErrorView::HttpStatus(0, message),
                    Ok(_) => false,
                },
            },
    {
        let quiet_step = EventStep { done: false, updated: false };
        let shown_step = EventStep { done: false, updated: true };
        let kind_text = get_text(event, "type");
        let kind = match &kind_text {
            Some(kind) => kind.as_str(),
            None => {
                proof {
                    reveal_strlit("");
                    assert(""@ =~= seq![]);
                }
                ""
            },
        };
        let index = match get_unsigned(event, "output_index") {
            Some(index) => index,
            None => 0,
        };
        if same_text(kind, "response.output_text.delta") {
            match get_text(event, "delta") {
                Some(delta) => {
                    self.append_message_delta_at(index, delta.as_str());
                    Ok(shown_step)
                },
                None => Ok(quiet_step),
            }
        } else if same_text(kind, "response.output_text.done") {
            match get_text(event, "text") {
                Some(text) => {
                    self.set_message_text_at(index, text.as_str());
                    Ok(shown_step)
                },
                None => Ok(quiet_step),
            }
        } else if same_text(kind, "response.reasoning_summary_text.delta") {
            match get_text(event, "delta") {
                Some(delta) => {
                    self.add_thinking(delta.as_str());
                    Ok(shown_step)
                },
                None => Ok(quiet_step),
            }
        } else if same_text(kind, "response.reasoning_summary_part.added") {
            self.start_thinking_part();
            Ok(quiet_step)
        } else if same_text(kind, "response.function_call_arguments.delta") {
            if let Some(delta) = get_text(event, "delta") {
                self.set_arguments_at(index, ToolType::Function, delta.as_str(), true);
            }
            Ok(quiet_step)
        } else if same_text(kind, "response.function_call_arguments.done") {
            if let Some(arguments) = get_text(event, "arguments") {
                self.set_arguments_at(index, ToolType::Function, arguments.as_str(), false);
            }
            Ok(quiet_step)
        } else if same_text(kind, "response.custom_tool_call_input.delta") {
            if let Some(delta) = get_text(event, "delta") {
                self.set_arguments_at(index, ToolType::Custom, delta.as_str(), true);
            }
            Ok(quiet_step)
        } else if same_text(kind, "response.custom_tool_call_input.done") {
            if let Some(input) = get_text(event, "input") {
                self.set_arguments_at(index, ToolType::Custom, input.as_str(), false);
            }
            Ok(quiet_step)
        } else if same_text(kind, "response.output_item.added") || same_text(
            kind,
            "response.output_item.done",
        ) {
            let done = same_text(kind, "response.output_item.done");
            match get(event, "item") {
                Some(item) => {
                    let updated = self.apply_item(item, index, done);
                    Ok(EventStep { done: false, updated })
                },
                None => Ok(quiet_step),
            }
        } else if same_text(kind, "response.completed") || same_text(kind, "response.done") {
            self.complete(event);
            Ok(EventStep { done: true, updated: false })
        } else if same_text(kind, "response.incomplete") {
            Err(LlmError::HttpStatus(0, incomplete_message(event)))
        } else if same_text(kind, "response.failed") {
            Err(LlmError::HttpStatus(0, failed_message(event)))
        } else if same_text(kind, "error") {
            Err(LlmError::HttpStatus(0, stream_error_message(event)))
        } else {
            Ok(quiet_step)
        }
    }

    /// Adds to what the model thought.
    fn add_thinking(&mut self, delta: &str)
        ensures
            final(self)@ == (StreamView {
                thinking: Some(text_or(old(self)@.thinking, seq![]) + delta@),
                ..old(self)@
            }),
    {
        let mut thinking = match &self.thinking {
            Some(thinking) => thinking.clone(),
            None => {
                let none = String::new();
                assert(none@ =~= seq![]);
                none
            },
        };
        thinking.append(delta);
        self.thinking = Some(thinking);
    }

    /// Sets what the model thought apart from what it thinks next.
    fn start_thinking_part(&mut self)
        ensures
            final(self)@ == (match old(self)@.thinking {
                Some(thinking) => if thinking.len() > 0 && !("\n\n"@.is_suffix_of(thinking)) {
                    StreamView { thinking: Some(thinking + "\n\n"@), ..old(self)@ }
                } else {
                    old(self)@
                },
                None => old(self)@,
            }),
    {
        let mut next: Option<String> = None;
        if let Some(thinking) = &self.thinking {
            if !thinking.as_str().is_empty() && !ends_with(thinking.as_str(), "\n\n") {
                let mut more = thinking.clone();
                more.append("\n\n");
                next = Some(more);
            }
        }
        if next.is_some() {
            self.thinking = next;
        }
    }
}

/// Whether a type is there and is a given one.
fn is_kind(kind: &Option<String>, wanted: &str) -> (b: bool)
    ensures
        b == (opt_view(*kind) == Some(wanted@)),
{
    match kind {
        Some(kind) => same_text(kind.as_str(), wanted),
        None => false,
    }
}

/// How an item with a type takes its input, where it is a tool call.
fn parse_call_type(kind: &Option<String>) -> (tool_type: Option<ToolType>)
    ensures
        tool_type == (if opt_view(*kind) == Some("function_call"@) {
            Some(ToolType::Function)
        } else if opt_view(*kind) == Some("custom_tool_call"@) {
            Some(ToolType::Custom)
        } else {
            None
        }),
{
    if is_kind(kind, "function_call") {
        Some(ToolType::Function)
    } else if is_kind(kind, "custom_tool_call") {
        Some(ToolType::Custom)
    } else {
        None
    }
}

/// The phase that a message says it is.
pub fn parse_phase_from_item(item: &JsonValue) -> (phase: Option<MessagePhase>)
    ensures
        phase == phase_in(item@),
{
    let kind = get_text(item, "type");
    if !is_kind(&kind, "message") {
        return None;
    }
    let phase = get_text(item, "phase");
    if is_kind(&phase, "commentary") {
        Some(MessagePhase::Commentary)
    } else if is_kind(&phase, "final_answer") {
        Some(MessagePhase::FinalAnswer)
    } else {
        None
    }
}

/// The text of a message.
pub fn message_text_from_output_item(item: &JsonValue) -> (text: Option<String>)
    ensures
        opt_view(text) == message_text_in(item@),
{
    broadcast use crate::json::group_json_views;

    let mut text = String::new();
    assert(text@ =~= seq![]);
    if let Some(JsonValue::Array(parts)) = get(item, "content") {
        let ghost all = crate::json::json_views(parts@);
        assert(at(item@, "content"@) == Json::Array(all));
        let mut i: usize = 0;
        while i < parts.len()
            invariant
                i <= parts@.len(),
                all == crate::json::json_views(parts@),
                text@ == parts_text(all.take(i as int)),
            decreases parts.len() - i,
        {
            assert(all.take(i + 1).drop_last() =~= all.take(i as int));
            assert(all.take(i + 1).last() == parts@[i as int]@);
            let ghost before = text@;
            let kind = get_text(&parts[i], "type");
            if is_kind(&kind, "output_text") || is_kind(&kind, "text") {
                if let Some(more) = get_text(&parts[i], "text") {
                    text.append(more.as_str());
                } else {
                    assert(before + seq![] =~= before);
                }
            } else {
                assert(before + seq![] =~= before);
            }
            i += 1;
        }
        assert(all.take(i as int) =~= all);
    }
    if text.as_str().is_empty() {
        None
    } else {
        Some(text)
    }
}

/// A number in the usage that an event reports.
fn usage_number(event: &JsonValue, key: &str) -> (number: Option<u64>)
    ensures
        number == usage_in(event@, key@),
{
    let inner = match get(event, "response") {
        Some(response) => get_unsigned_in(response, "usage", key),
        None => None,
    };
    match inner {
        Some(number) => Some(number),
        None => get_unsigned_in(event, "usage", key),
    }
}

/// The number of cached tokens that an event reports.
fn cached_number(event: &JsonValue) -> (number: Option<u64>)
    ensures
        number == cached_in(event@),
{
    let inner = match get(event, "response") {
        Some(response) => match get(response, "usage") {
            Some(usage) => get_unsigned_in(usage, "input_tokens_details", "cached_tokens"),
            None => None,
        },
        None => None,
    };
    match inner {
        Some(number) => Some(number),
        None => match get(event, "usage") {
            Some(usage) => get_unsigned_in(usage, "input_tokens_details", "cached_tokens"),
            None => None,
        },
    }
}

/// Why a response is incomplete.
fn incomplete_message(event: &JsonValue) -> (message: String)
    ensures
        message@ == "response incomplete: "@ + text_or(
            text_at(at(at(event@, "response"@), "incomplete_details"@), "reason"@),
            "unknown reason"@,
        ),
{
    let reason = match get(event, "response") {
        Some(response) => get_text_in(response, "incomplete_details", "reason"),
        None => None,
    };
    let mut message = "response incomplete: ".to_owned();
    match reason {
        Some(reason) => message.append(reason.as_str()),
        None => message.append("unknown reason"),
    }
    message
}

/// Why a response failed.
fn failed_message(event: &JsonValue) -> (message: String)
    ensures
        message@ == "response failed: "@ + text_or(
            or_else(
                text_at(at(at(event@, "response"@), "error"@), "message"@),
                text_at(at(at(event@, "response"@), "error"@), "code"@),
            ),
            "unknown error"@,
        ),
{
    let detail = match get(event, "response") {
        Some(response) => match get_text_in(response, "error", "message") {
            Some(detail) => Some(detail),
            None => get_text_in(response, "error", "code"),
        },
        None => None,
    };
    let mut message = "response failed: ".to_owned();
    match detail {
        Some(detail) => message.append(detail.as_str()),
        None => message.append("unknown error"),
    }
    message
}

/// What an `error` event says.
fn stream_error_message(event: &JsonValue) -> (message: String)
    ensures
        message@ == stream_error(event@),
{
    let detail = match get_text_in(event, "error", "message") {
        Some(detail) => Some(detail),
        None => get_text(event, "message"),
    };
    let code = match get_text_in(event, "error", "code") {
        Some(code) => Some(code),
        None => match get_text(event, "code") {
            Some(code) => Some(code),
            None => get_text_in(event, "error", "type"),
        },
    };
    let mut message = "stream error: ".to_owned();
    match detail {
        Some(detail) => message.append(detail.as_str()),
        None => message.append("unknown error"),
    }
    if let Some(code) = code {
        message.append(" (type=");
        message.append(code.as_str());
        message.append(")");
    }
    message
}

} // verus!
