//! Laws of what the events of a response make of it.

use vstd::prelude::*;

use crate::json::{at, member, text_at, unsigned_at, Json};
use crate::provider::context::{MessagePhase, ToolType};
use crate::provider::stream::{
    applied, parts_text, slot_at, with_slot, SlotView, StreamView,
};
use crate::provider::stream_laws::{in_order, law_item_is_found_where_it_was_put, lemma_with_slot_in_order};

verus! {

/// Whether items are others but for the one at an index, which is the given one.
pub open spec fn differs_at(
    before: Seq<(u64, SlotView)>,
    after: Seq<(u64, SlotView)>,
    index: u64,
    slot: SlotView,
) -> bool {
    &&& in_order(after)
    &&& after.contains((index, slot))
    &&& forall|i: u64, s: SlotView|
        i != index ==> (#[trigger] after.contains((i, s)) <==> before.contains((i, s)))
}

/// Whether there is no item at an index.
pub open spec fn is_free(slots: Seq<(u64, SlotView)>, index: u64) -> bool {
    forall|s: SlotView| !(#[trigger] slots.contains((index, s)))
}

/// What is found at an index is what stands there.
proof fn lemma_slot_stands(slots: Seq<(u64, SlotView)>, index: u64)
    requires
        in_order(slots),
    ensures
        match slot_at(slots, index) {
            Some(slot) => slots.contains((index, slot)),
            None => is_free(slots, index),
        },
        forall|s: SlotView| #[trigger]
            slots.contains((index, s)) ==> slot_at(slots, index) == Some(s),
    decreases slots.len(),
{
    if slots.len() > 0 {
        let rest = slots.drop_first();
        assert(in_order(rest)) by {
            assert forall|i: int, j: int| 0 <= i < j < rest.len() implies #[trigger] rest[i].0
                < #[trigger] rest[j].0 by {
                assert(rest[i] == slots[i + 1] && rest[j] == slots[j + 1]);
            }
        }
        lemma_slot_stands(rest, index);
        assert forall|s: SlotView| #[trigger] slots.contains((index, s)) implies slot_at(
            slots,
            index,
        ) == Some(s) by {
            let k = choose|k: int| 0 <= k < slots.len() && slots[k] == (index, s);
            if k > 0 {
                assert(slots[0].0 < slots[k].0);
                assert(rest[k - 1] == (index, s));
                assert(rest.contains((index, s)));
            }
        }
        if slots[0].0 == index {
            assert(slots[0] == (index, slots[0].1));
            assert(slots.contains((index, slots[0].1)));
        } else if let Some(slot) = slot_at(rest, index) {
            let k = choose|k: int| 0 <= k < rest.len() && rest[k] == (index, slot);
            assert(slots[k + 1] == (index, slot));
        }
    }
}

/// An item that is put in changes what stands at its index, and nothing else.
pub proof fn law_item_is_put_in(slots: Seq<(u64, SlotView)>, index: u64, slot: SlotView)
    requires
        in_order(slots),
    ensures
        differs_at(slots, with_slot(slots, index, slot), index, slot),
{
    let after = with_slot(slots, index, slot);
    lemma_with_slot_in_order(slots, index, slot);
    law_item_is_found_where_it_was_put(slots, index, slot, index);
    lemma_slot_stands(after, index);
    assert forall|i: u64, s: SlotView| i != index implies (#[trigger] after.contains((i, s))
        <==> slots.contains((i, s))) by {
        law_item_is_found_where_it_was_put(slots, index, slot, i);
        lemma_slot_stands(after, i);
        lemma_slot_stands(slots, i);
    }
}

/// What tells the types of events apart.
proof fn lemma_kinds()
    ensures
        "response.output_text.delta"@.len() == 26,
        "response.output_text.delta"@[16] == 't',
        "response.output_text.done"@.len() == 25,
        "response.output_text.done"@[16] == 't',
        "response.reasoning_summary_text.delta"@.len() == 37,
        "response.reasoning_summary_text.delta"@[9] == 'r',
        "response.reasoning_summary_text.delta"@[27] == 't',
        "response.reasoning_summary_part.added"@.len() == 37,
        "response.reasoning_summary_part.added"@[9] == 'r',
        "response.reasoning_summary_part.added"@[27] == 'p',
        "response.function_call_arguments.delta"@.len() == 38,
        "response.function_call_arguments.done"@.len() == 37,
        "response.function_call_arguments.done"@[9] == 'f',
        "response.custom_tool_call_input.delta"@.len() == 37,
        "response.custom_tool_call_input.delta"@[9] == 'c',
        "response.custom_tool_call_input.done"@.len() == 36,
        "response.output_item.added"@.len() == 26,
        "response.output_item.added"@[16] == 'i',
        "response.output_item.done"@.len() == 25,
        "response.output_item.done"@[16] == 'i',
        "response.completed"@.len() == 18,
        "response.done"@.len() == 13,
        "response.incomplete"@.len() == 19,
        "response.failed"@.len() == 15,
        "error"@.len() == 5,
{
    reveal_strlit("response.output_text.delta");
    reveal_strlit("response.output_text.done");
    reveal_strlit("response.reasoning_summary_text.delta");
    reveal_strlit("response.reasoning_summary_part.added");
    reveal_strlit("response.function_call_arguments.delta");
    reveal_strlit("response.function_call_arguments.done");
    reveal_strlit("response.custom_tool_call_input.delta");
    reveal_strlit("response.custom_tool_call_input.done");
    reveal_strlit("response.output_item.added");
    reveal_strlit("response.output_item.done");
    reveal_strlit("response.completed");
    reveal_strlit("response.done");
    reveal_strlit("response.incomplete");
    reveal_strlit("response.failed");
    reveal_strlit("error");
}

/// Whether an event has a type and is about the item at an index.
pub open spec fn is_event(event: Json, kind: Seq<char>, index: u64) -> bool {
    text_at(event, "type"@) == Some(kind) && unsigned_at(event, "output_index"@) == Some(index)
}

/// Whether an event brings more of the input of a call.
pub open spec fn is_input_delta(event: Json, tool_type: ToolType, index: u64, delta: Seq<char>) -> bool {
    is_event(
        event,
        match tool_type {
            ToolType::Function => "response.function_call_arguments.delta"@,
            ToolType::Custom => "response.custom_tool_call_input.delta"@,
        },
        index,
    ) && text_at(event, "delta"@) == Some(delta)
}

/// Whether an event brings the whole input of a call.
pub open spec fn is_input_done(event: Json, tool_type: ToolType, index: u64, input: Seq<char>) -> bool {
    match tool_type {
        ToolType::Function => is_event(event, "response.function_call_arguments.done"@, index)
            && text_at(event, "arguments"@) == Some(input),
        ToolType::Custom => is_event(event, "response.custom_tool_call_input.done"@, index)
            && text_at(event, "input"@) == Some(input),
    }
}

/// More of the input of a call is put behind what has come of it: the call stays
/// the same otherwise, and so does everything else.
pub proof fn law_more_input_is_put_behind(
    state: StreamView,
    event: Json,
    tool_type: ToolType,
    index: u64,
    delta: Seq<char>,
    id: Seq<char>,
    name: Seq<char>,
    arguments: Seq<char>,
)
    requires
        in_order(state.slots),
        is_input_delta(event, tool_type, index, delta),
        state.slots.contains((index, SlotView::ToolCall { tool_type, id, name, arguments })),
    ensures
        differs_at(
            state.slots,
            applied(state, event).state.slots,
            index,
            SlotView::ToolCall { tool_type, id, name, arguments: arguments + delta },
        ),
        applied(state, event).state == (StreamView {
            slots: applied(state, event).state.slots,
            ..state
        }),
        applied(state, event).outcome == Ok::<bool, Seq<char>>(false),
{
    lemma_kinds();
    lemma_slot_stands(state.slots, index);
    law_item_is_put_in(
        state.slots,
        index,
        SlotView::ToolCall { tool_type, id, name, arguments: arguments + delta },
    );
}

/// The first of the input of a call that nothing is known of starts the call.
pub proof fn law_first_input_starts_a_call(
    state: StreamView,
    event: Json,
    tool_type: ToolType,
    index: u64,
    delta: Seq<char>,
)
    requires
        in_order(state.slots),
        is_input_delta(event, tool_type, index, delta),
        is_free(state.slots, index),
    ensures
        differs_at(
            state.slots,
            applied(state, event).state.slots,
            index,
            SlotView::ToolCall { tool_type, id: seq![], name: seq![], arguments: delta },
        ),
{
    lemma_kinds();
    lemma_slot_stands(state.slots, index);
    assert(Seq::<char>::empty() + delta =~= delta);
    law_item_is_put_in(
        state.slots,
        index,
        SlotView::ToolCall { tool_type, id: seq![], name: seq![], arguments: delta },
    );
}

/// The whole input of a call takes the place of what has come of it, however much
/// that was: the call stays the same otherwise, and so does everything else.
pub proof fn law_whole_input_replaces_its_parts(
    state: StreamView,
    event: Json,
    tool_type: ToolType,
    index: u64,
    input: Seq<char>,
    id: Seq<char>,
    name: Seq<char>,
    arguments: Seq<char>,
)
    requires
        in_order(state.slots),
        is_input_done(event, tool_type, index, input),
        state.slots.contains((index, SlotView::ToolCall { tool_type, id, name, arguments })),
    ensures
        differs_at(
            state.slots,
            applied(state, event).state.slots,
            index,
            SlotView::ToolCall { tool_type, id, name, arguments: input },
        ),
        applied(state, event).state == (StreamView {
            slots: applied(state, event).state.slots,
            ..state
        }),
        applied(state, event).outcome == Ok::<bool, Seq<char>>(false),
{
    lemma_kinds();
    lemma_slot_stands(state.slots, index);
    law_item_is_put_in(
        state.slots,
        index,
        SlotView::ToolCall { tool_type, id, name, arguments: input },
    );
}

/// A response after some events.
pub open spec fn after_events(state: StreamView, events: Seq<Json>) -> StreamView
    decreases events.len(),
{
    if events.len() == 0 {
        state
    } else {
        applied(after_events(state, events.drop_last()), events.last()).state
    }
}

/// Whether events bring the input of a call, one part after the other.
pub open spec fn bring_input(
    events: Seq<Json>,
    tool_type: ToolType,
    index: u64,
    deltas: Seq<Seq<char>>,
) -> bool {
    &&& events.len() == deltas.len()
    &&& forall|k: int|
        0 <= k < events.len() ==> is_input_delta(#[trigger] events[k], tool_type, index, deltas[k])
}

/// The input of a call is what its parts add up to.
pub proof fn law_input_is_what_its_parts_add_up_to(
    state: StreamView,
    events: Seq<Json>,
    tool_type: ToolType,
    index: u64,
    deltas: Seq<Seq<char>>,
    id: Seq<char>,
    name: Seq<char>,
    arguments: Seq<char>,
)
    requires
        in_order(state.slots),
        bring_input(events, tool_type, index, deltas),
        state.slots.contains((index, SlotView::ToolCall { tool_type, id, name, arguments })),
    ensures
        differs_at(
            state.slots,
            after_events(state, events).slots,
            index,
            SlotView::ToolCall { tool_type, id, name, arguments: arguments + deltas.flatten() },
        ),
        after_events(state, events) == (StreamView {
            slots: after_events(state, events).slots,
            ..state
        }),
    decreases events.len(),
{
    if events.len() == 0 {
        assert(deltas.flatten() =~= seq![]);
        assert(arguments + deltas.flatten() =~= arguments);
    } else {
        let front = deltas.drop_last();
        let before = after_events(state, events.drop_last());
        assert forall|k: int| 0 <= k < events.drop_last().len() implies is_input_delta(
            #[trigger] events.drop_last()[k],
            tool_type,
            index,
            front[k],
        ) by {
            assert(is_input_delta(events[k], tool_type, index, deltas[k]));
        }
        law_input_is_what_its_parts_add_up_to(
            state,
            events.drop_last(),
            tool_type,
            index,
            front,
            id,
            name,
            arguments,
        );
        assert(is_input_delta(events[events.len() - 1], tool_type, index, deltas.last()));
        law_more_input_is_put_behind(
            before,
            events.last(),
            tool_type,
            index,
            deltas.last(),
            id,
            name,
            arguments + front.flatten(),
        );
        front.lemma_flatten_push(deltas.last());
        assert(front.push(deltas.last()) =~= deltas);
        assert((arguments + front.flatten()) + deltas.last() =~= arguments + deltas.flatten());
    }
}

/// A call whose input came in parts and then as a whole has the whole as its
/// input; where the parts add up to the whole, the whole changed nothing.
pub proof fn law_whole_input_is_the_input(
    state: StreamView,
    events: Seq<Json>,
    done: Json,
    tool_type: ToolType,
    index: u64,
    deltas: Seq<Seq<char>>,
    input: Seq<char>,
    id: Seq<char>,
    name: Seq<char>,
    arguments: Seq<char>,
)
    requires
        in_order(state.slots),
        bring_input(events, tool_type, index, deltas),
        is_input_done(done, tool_type, index, input),
        state.slots.contains((index, SlotView::ToolCall { tool_type, id, name, arguments })),
    ensures
        differs_at(
            state.slots,
            after_events(state, events.push(done)).slots,
            index,
            SlotView::ToolCall { tool_type, id, name, arguments: input },
        ),
        input == arguments + deltas.flatten() ==> differs_at(
            after_events(state, events).slots,
            after_events(state, events.push(done)).slots,
            index,
            SlotView::ToolCall { tool_type, id, name, arguments: arguments + deltas.flatten() },
        ),
{
    law_input_is_what_its_parts_add_up_to(
        state,
        events,
        tool_type,
        index,
        deltas,
        id,
        name,
        arguments,
    );
    let before = after_events(state, events);
    law_whole_input_replaces_its_parts(
        before,
        done,
        tool_type,
        index,
        input,
        id,
        name,
        arguments + deltas.flatten(),
    );
    assert(events.push(done).drop_last() =~= events);
}

/// A call that nothing was known of, and whose input came in parts and then as a
/// whole, has the whole as its input.
pub proof fn law_fresh_call_has_the_whole_input(
    state: StreamView,
    events: Seq<Json>,
    done: Json,
    tool_type: ToolType,
    index: u64,
    deltas: Seq<Seq<char>>,
    input: Seq<char>,
)
    requires
        in_order(state.slots),
        is_free(state.slots, index),
        events.len() > 0,
        bring_input(events, tool_type, index, deltas),
        is_input_done(done, tool_type, index, input),
    ensures
        differs_at(
            state.slots,
            after_events(state, events.push(done)).slots,
            index,
            SlotView::ToolCall { tool_type, id: seq![], name: seq![], arguments: input },
        ),
{
    let first = applied(state, events[0]).state;
    assert(is_input_delta(events[0], tool_type, index, deltas[0]));
    law_first_input_starts_a_call(state, events[0], tool_type, index, deltas[0]);
    let rest = events.drop_first();
    let parts = deltas.drop_first();
    assert forall|k: int| 0 <= k < rest.len() implies is_input_delta(
        #[trigger] rest[k],
        tool_type,
        index,
        parts[k],
    ) by {
        assert(is_input_delta(events[k + 1], tool_type, index, deltas[k + 1]));
    }
    law_whole_input_is_the_input(
        first,
        rest,
        done,
        tool_type,
        index,
        parts,
        input,
        seq![],
        seq![],
        deltas[0],
    );
    lemma_events_one_by_one(state, events.push(done));
    assert(events.push(done).drop_first() =~= rest.push(done));
    assert(events.push(done)[0] == events[0]);
}

/// Events can be taken one after the other.
proof fn lemma_events_one_by_one(state: StreamView, events: Seq<Json>)
    requires
        events.len() > 0,
    ensures
        after_events(state, events) == after_events(
            applied(state, events[0]).state,
            events.drop_first(),
        ),
    decreases events.len(),
{
    let first = applied(state, events[0]).state;
    if events.len() == 1 {
        assert(events.drop_last() =~= seq![]);
        assert(after_events(state, events.drop_last()) == state);
    } else {
        lemma_events_one_by_one(state, events.drop_last());
        assert(events.drop_last().drop_first() =~= events.drop_first().drop_last());
        assert(events.drop_first().last() == events.last());
        assert(events.drop_last()[0] == events[0]);
    }
}

/// The call that an item names has the item's id and name, whether the item is
/// added or done. Its input is what has come of it; where nothing has, what the
/// item says.
pub proof fn law_item_names_its_call(
    state: StreamView,
    event: Json,
    item: Json,
    done: bool,
    tool_type: ToolType,
    index: u64,
    id: Seq<char>,
    name: Seq<char>,
    input: Seq<char>,
)
    requires
        in_order(state.slots),
        is_event(
            event,
            if done {
                "response.output_item.done"@
            } else {
                "response.output_item.added"@
            },
            index,
        ),
        member(event, "item"@) == Some(item),
        text_at(item, "type"@) == Some(
            match tool_type {
                ToolType::Function => "function_call"@,
                ToolType::Custom => "custom_tool_call"@,
            },
        ),
        text_at(item, "call_id"@) == Some(id),
        text_at(item, "name"@) == Some(name),
        text_at(
            item,
            match tool_type {
                ToolType::Function => "arguments"@,
                ToolType::Custom => "input"@,
            },
        ) == Some(input),
    ensures
        is_free(state.slots, index) ==> differs_at(
            state.slots,
            applied(state, event).state.slots,
            index,
            SlotView::ToolCall { tool_type, id, name, arguments: input },
        ),
        forall|old_type: ToolType, old_id: Seq<char>, old_name: Seq<char>, arguments: Seq<char>|
            #[trigger] state.slots.contains(
                (
                    index,
                    SlotView::ToolCall {
                        tool_type: old_type,
                        id: old_id,
                        name: old_name,
                        arguments,
                    },
                ),
            ) ==> differs_at(
                state.slots,
                applied(state, event).state.slots,
                index,
                SlotView::ToolCall {
                    tool_type,
                    id,
                    name,
                    arguments: if arguments.len() > 0 {
                        arguments
                    } else {
                        input
                    },
                },
            ),
        applied(state, event).state == (StreamView {
            slots: applied(state, event).state.slots,
            ..state
        }),
{
    lemma_kinds();
    reveal_strlit("function_call");
    reveal_strlit("custom_tool_call");
    assert("function_call"@.len() == 13 && "custom_tool_call"@.len() == 16);
    lemma_slot_stands(state.slots, index);
    let after = applied(state, event).state;
    let call = state.call_at(index);
    law_item_is_put_in(
        state.slots,
        index,
        SlotView::ToolCall {
            tool_type,
            id,
            name,
            arguments: if call.arguments.len() > 0 {
                call.arguments
            } else {
                input
            },
        },
    );
    assert(Seq::<char>::empty().len() == 0);
}

/// More of a message is put behind what has come of it, and is to be shown.
pub proof fn law_more_text_is_put_behind(
    state: StreamView,
    event: Json,
    index: u64,
    delta: Seq<char>,
)
    requires
        in_order(state.slots),
        is_event(event, "response.output_text.delta"@, index),
        text_at(event, "delta"@) == Some(delta),
    ensures
        is_free(state.slots, index) ==> differs_at(
            state.slots,
            applied(state, event).state.slots,
            index,
            SlotView::Message { text: delta, phase: None },
        ),
        forall|text: Seq<char>, phase: Option<MessagePhase>| #[trigger]
            state.slots.contains((index, SlotView::Message { text, phase })) ==> differs_at(
                state.slots,
                applied(state, event).state.slots,
                index,
                SlotView::Message { text: text + delta, phase },
            ),
        applied(state, event).state == (StreamView {
            slots: applied(state, event).state.slots,
            ..state
        }),
        applied(state, event).updated,
        applied(state, event).outcome == Ok::<bool, Seq<char>>(false),
{
    lemma_kinds();
    lemma_slot_stands(state.slots, index);
    let (text, phase) = state.message_at(index);
    assert(Seq::<char>::empty() + delta =~= delta);
    law_item_is_put_in(state.slots, index, SlotView::Message { text: text + delta, phase });
}

/// The whole text of a message takes the place of what has come of it, and is to be
/// shown.
pub proof fn law_whole_text_replaces_its_parts(
    state: StreamView,
    event: Json,
    index: u64,
    whole: Seq<char>,
)
    requires
        in_order(state.slots),
        is_event(event, "response.output_text.done"@, index),
        text_at(event, "text"@) == Some(whole),
    ensures
        is_free(state.slots, index) ==> differs_at(
            state.slots,
            applied(state, event).state.slots,
            index,
            SlotView::Message { text: whole, phase: None },
        ),
        forall|text: Seq<char>, phase: Option<MessagePhase>| #[trigger]
            state.slots.contains((index, SlotView::Message { text, phase })) ==> differs_at(
                state.slots,
                applied(state, event).state.slots,
                index,
                SlotView::Message { text: whole, phase },
            ),
        applied(state, event).state == (StreamView {
            slots: applied(state, event).state.slots,
            ..state
        }),
        applied(state, event).updated,
        applied(state, event).outcome == Ok::<bool, Seq<char>>(false),
{
    lemma_kinds();
    lemma_slot_stands(state.slots, index);
    let (text, phase) = state.message_at(index);
    law_item_is_put_in(state.slots, index, SlotView::Message { text: whole, phase });
}

/// Whether a message has the given texts as its parts.
pub open spec fn has_text_parts(item: Json, texts: Seq<Seq<char>>) -> bool {
    &&& text_at(item, "type"@) == Some("message"@)
    &&& at(item, "content"@) matches Json::Array(parts) && {
        &&& parts.len() == texts.len()
        &&& forall|k: int|
            0 <= k < parts.len() ==> text_at(#[trigger] parts[k], "type"@) == Some(
                "output_text"@,
            ) && text_at(parts[k], "text"@) == Some(texts[k])
    }
}

proof fn lemma_parts_text(parts: Seq<Json>, texts: Seq<Seq<char>>)
    requires
        parts.len() == texts.len(),
        forall|k: int|
            0 <= k < parts.len() ==> text_at(#[trigger] parts[k], "type"@) == Some(
                "output_text"@,
            ) && text_at(parts[k], "text"@) == Some(texts[k]),
    ensures
        parts_text(parts) == texts.flatten(),
    decreases parts.len(),
{
    if parts.len() == 0 {
        assert(texts.flatten() =~= seq![]);
    } else {
        let front = texts.drop_last();
        assert forall|k: int| 0 <= k < parts.drop_last().len() implies text_at(
            #[trigger] parts.drop_last()[k],
            "type"@,
        ) == Some("output_text"@) && text_at(parts.drop_last()[k], "text"@) == Some(front[k]) by {
            assert(parts.drop_last()[k] == parts[k]);
        }
        lemma_parts_text(parts.drop_last(), front);
        assert(parts.last() == parts[parts.len() - 1]);
        front.lemma_flatten_push(texts.last());
        assert(front.push(texts.last()) =~= texts);
    }
}

/// A message that is done has the text of all its parts, one after the other,
/// whatever has come of it; and the phase that it names, where phases are taken.
pub proof fn law_done_message_has_all_its_text(
    state: StreamView,
    event: Json,
    item: Json,
    index: u64,
    texts: Seq<Seq<char>>,
)
    requires
        in_order(state.slots),
        is_event(event, "response.output_item.done"@, index),
        member(event, "item"@) == Some(item),
        has_text_parts(item, texts),
        texts.flatten().len() > 0,
    ensures
        state.extras.phase && text_at(item, "phase"@) == Some("commentary"@) ==> differs_at(
            state.slots,
            applied(state, event).state.slots,
            index,
            SlotView::Message { text: texts.flatten(), phase: Some(MessagePhase::Commentary) },
        ),
        state.extras.phase && text_at(item, "phase"@) == Some("final_answer"@) ==> differs_at(
            state.slots,
            applied(state, event).state.slots,
            index,
            SlotView::Message { text: texts.flatten(), phase: Some(MessagePhase::FinalAnswer) },
        ),
        !state.extras.phase || text_at(item, "phase"@) is None ==> differs_at(
            state.slots,
            applied(state, event).state.slots,
            index,
            SlotView::Message { text: texts.flatten(), phase: None },
        ),
        applied(state, event).state == (StreamView {
            slots: applied(state, event).state.slots,
            ..state
        }),
        applied(state, event).outcome == Ok::<bool, Seq<char>>(false),
{
    lemma_kinds();
    reveal_strlit("function_call");
    reveal_strlit("custom_tool_call");
    reveal_strlit("message");
    reveal_strlit("commentary");
    reveal_strlit("final_answer");
    assert("function_call"@.len() == 13 && "custom_tool_call"@.len() == 16 && "message"@.len() == 7);
    assert("commentary"@.len() == 10 && "final_answer"@.len() == 12);
    let parts = at(item, "content"@)->Array_0;
    lemma_parts_text(parts, texts);
    let phase = if state.extras.phase {
        crate::provider::stream::phase_in(item)
    } else {
        None
    };
    let marked = state.with_message(index, state.message_at(index).0, phase);
    let first = SlotView::Message { text: state.message_at(index).0, phase };
    let last = SlotView::Message { text: texts.flatten(), phase };
    law_item_is_put_in(state.slots, index, first);
    lemma_slot_stands(marked.slots, index);
    assert(marked.message_at(index).1 == phase);
    law_item_is_put_in(marked.slots, index, last);
    assert(applied(state, event).state.slots == with_slot(marked.slots, index, last));
}

/// Whether items are others but for the one at an index, which is a message.
pub open spec fn has_message(
    before: Seq<(u64, SlotView)>,
    after: Seq<(u64, SlotView)>,
    index: u64,
    text: Seq<char>,
    phase: Option<MessagePhase>,
) -> bool {
    differs_at(before, after, index, SlotView::Message { text, phase })
}

/// A message that is added keeps the text that has come of it.
pub proof fn law_added_message_keeps_its_text(
    state: StreamView,
    event: Json,
    item: Json,
    index: u64,
    text: Seq<char>,
    phase: Option<MessagePhase>,
)
    requires
        in_order(state.slots),
        is_event(event, "response.output_item.added"@, index),
        member(event, "item"@) == Some(item),
        text_at(item, "type"@) == Some("message"@),
        state.slots.contains((index, SlotView::Message { text, phase })),
    ensures
        exists|marked: Option<MessagePhase>|
            has_message(state.slots, applied(state, event).state.slots, index, text, marked),
{
    lemma_kinds();
    reveal_strlit("function_call");
    reveal_strlit("custom_tool_call");
    reveal_strlit("message");
    assert("function_call"@.len() == 13 && "custom_tool_call"@.len() == 16 && "message"@.len() == 7);
    lemma_slot_stands(state.slots, index);
    let marked = if state.extras.phase {
        crate::provider::stream::phase_in(item)
    } else {
        None
    };
    law_item_is_put_in(state.slots, index, SlotView::Message { text, phase: marked });
    assert(has_message(state.slots, applied(state, event).state.slots, index, text, marked));
}

/// Reasoning that can be sent again is kept word for word where it is taken.
pub proof fn law_reasoning_is_kept_whole(state: StreamView, event: Json, item: Json, index: u64)
    requires
        in_order(state.slots),
        state.extras.reasoning,
        is_event(event, "response.output_item.done"@, index),
        member(event, "item"@) == Some(item),
        text_at(item, "type"@) == Some("reasoning"@),
        text_at(item, "encrypted_content"@) is Some,
    ensures
        differs_at(
            state.slots,
            applied(state, event).state.slots,
            index,
            SlotView::Reasoning(item),
        ),
        applied(state, event).state == (StreamView {
            slots: applied(state, event).state.slots,
            ..state
        }),
{
    lemma_kinds();
    reveal_strlit("function_call");
    reveal_strlit("custom_tool_call");
    reveal_strlit("message");
    reveal_strlit("reasoning");
    assert("function_call"@.len() == 13 && "custom_tool_call"@.len() == 16 && "message"@.len() == 7
        && "reasoning"@.len() == 9);
    law_item_is_put_in(state.slots, index, SlotView::Reasoning(item));
}

/// A summary of reasoning is shown as it comes in, each part behind the one before,
/// and an empty line stands between two parts.
pub proof fn law_summary_is_put_together(state: StreamView, event: Json, delta: Seq<char>)
    ensures
        text_at(event, "type"@) == Some("response.reasoning_summary_text.delta"@) && text_at(
            event,
            "delta"@,
        ) == Some(delta) ==> {
            let after = applied(state, event);
            &&& after.updated
            &&& after.state == StreamView { thinking: after.state.thinking, ..state }
            &&& state.thinking is None ==> after.state.thinking == Some(delta)
            &&& state.thinking matches Some(before) ==> after.state.thinking == Some(before + delta)
        },
        text_at(event, "type"@) == Some("response.reasoning_summary_part.added"@) ==> {
            let after = applied(state, event);
            &&& !after.updated
            &&& after.state == StreamView { thinking: after.state.thinking, ..state }
            &&& state.thinking is None ==> after.state.thinking is None
            &&& state.thinking matches Some(before) ==> (after.state.thinking matches Some(now) && {
                &&& before.len() == 0 ==> now == before
                &&& before.len() > 0 ==> "\n\n"@.is_suffix_of(now)
                &&& now == before || (now == before + "\n\n"@ && !"\n\n"@.is_suffix_of(before))
            })
        },
{
    lemma_kinds();
    assert(Seq::<char>::empty() + delta =~= delta);
    if let Some(before) = state.thinking {
        let now = before + "\n\n"@;
        assert(now.subrange(now.len() - "\n\n"@.len(), now.len() as int) =~= "\n\n"@);
    }
}

/// The last event of a response says that it is complete, what it took and what it
/// is called; its items stay.
pub proof fn law_last_event_tells_usage(state: StreamView, event: Json, tokens: u64, id: Seq<char>)
    requires
        text_at(event, "type"@) == Some("response.completed"@) || text_at(event, "type"@) == Some(
            "response.done"@,
        ),
    ensures
        applied(state, event).outcome == Ok::<bool, Seq<char>>(true),
        applied(state, event).state.slots == state.slots,
        applied(state, event).state.thinking == state.thinking,
        applied(state, event).state.extras == state.extras,
        applied(state, event).state.compacted_input_items == state.compacted_input_items,
        applied(state, event).state.provider_terminal_event == Some(event),
        state.input_tokens is None && unsigned_at(
            at(at(event, "response"@), "usage"@),
            "input_tokens"@,
        ) == Some(tokens) ==> applied(state, event).state.input_tokens == Some(tokens),
        state.output_tokens is None && unsigned_at(
            at(at(event, "response"@), "usage"@),
            "output_tokens"@,
        ) == Some(tokens) ==> applied(state, event).state.output_tokens == Some(tokens),
        state.cached_tokens is None && unsigned_at(
            at(at(at(event, "response"@), "usage"@), "input_tokens_details"@),
            "cached_tokens"@,
        ) == Some(tokens) ==> applied(state, event).state.cached_tokens == Some(tokens),
        state.response_id is None && text_at(at(event, "response"@), "id"@) == Some(id)
            ==> applied(state, event).state.response_id == Some(id),
        state.input_tokens is Some ==> applied(state, event).state.input_tokens
            == state.input_tokens,
        state.output_tokens is Some ==> applied(state, event).state.output_tokens
            == state.output_tokens,
        state.cached_tokens is Some ==> applied(state, event).state.cached_tokens
            == state.cached_tokens,
        state.response_id is Some ==> applied(state, event).state.response_id == state.response_id,
{
    lemma_kinds();
}

/// A response that failed, or came to no end, is refused with the words that the
/// event says of it.
pub proof fn law_failure_is_told_in_its_words(state: StreamView, event: Json, words: Seq<char>)
    ensures
        text_at(event, "type"@) == Some("response.failed"@) && text_at(
            at(at(event, "response"@), "error"@),
            "message"@,
        ) == Some(words) ==> applied(state, event).outcome == Err::<bool, Seq<char>>(
            "response failed: "@ + words,
        ),
        text_at(event, "type"@) == Some("response.incomplete"@) && text_at(
            at(at(event, "response"@), "incomplete_details"@),
            "reason"@,
        ) == Some(words) ==> applied(state, event).outcome == Err::<bool, Seq<char>>(
            "response incomplete: "@ + words,
        ),
        text_at(event, "type"@) == Some("error"@) && text_at(at(event, "error"@), "message"@)
            == Some(words) ==> (applied(state, event).outcome matches Err(told) && ("stream error: "@
            + words).is_prefix_of(told)),
        text_at(event, "type"@) == Some("error"@) ==> applied(state, event).outcome is Err,
        text_at(event, "type"@) == Some("response.failed"@) ==> applied(state, event).outcome is Err,
        text_at(event, "type"@) == Some("response.incomplete"@) ==> applied(state, event).outcome
            is Err,
{
    lemma_kinds();
    if text_at(event, "type"@) == Some("error"@) && text_at(at(event, "error"@), "message"@)
        == Some(words) {
        let told = applied(state, event).outcome->Err_0;
        let start = "stream error: "@ + words;
        assert(start =~= told.subrange(0, start.len() as int));
    }
}

/// An event of another type changes nothing.
pub proof fn law_other_events_change_nothing(state: StreamView, event: Json)
    requires
        text_at(event, "type"@) matches Some(kind) ==> !("response."@.is_prefix_of(kind)) && kind
            != "error"@,
    ensures
        applied(state, event).state == state,
        applied(state, event).outcome == Ok::<bool, Seq<char>>(false),
        !applied(state, event).updated,
{
    lemma_kinds();
    reveal_strlit("response.");
    reveal_strlit("response.output_text.delta");
    reveal_strlit("response.output_text.done");
    reveal_strlit("response.reasoning_summary_text.delta");
    reveal_strlit("response.reasoning_summary_part.added");
    reveal_strlit("response.function_call_arguments.delta");
    reveal_strlit("response.function_call_arguments.done");
    reveal_strlit("response.custom_tool_call_input.delta");
    reveal_strlit("response.custom_tool_call_input.done");
    reveal_strlit("response.output_item.added");
    reveal_strlit("response.output_item.done");
    reveal_strlit("response.completed");
    reveal_strlit("response.done");
    reveal_strlit("response.incomplete");
    reveal_strlit("response.failed");
    let start = "response."@;
    assert(start =~= "response.output_text.delta"@.subrange(0, 9));
    assert(start =~= "response.output_text.done"@.subrange(0, 9));
    assert(start =~= "response.reasoning_summary_text.delta"@.subrange(0, 9));
    assert(start =~= "response.reasoning_summary_part.added"@.subrange(0, 9));
    assert(start =~= "response.function_call_arguments.delta"@.subrange(0, 9));
    assert(start =~= "response.function_call_arguments.done"@.subrange(0, 9));
    assert(start =~= "response.custom_tool_call_input.delta"@.subrange(0, 9));
    assert(start =~= "response.custom_tool_call_input.done"@.subrange(0, 9));
    assert(start =~= "response.output_item.added"@.subrange(0, 9));
    assert(start =~= "response.output_item.done"@.subrange(0, 9));
    assert(start =~= "response.completed"@.subrange(0, 9));
    assert(start =~= "response.done"@.subrange(0, 9));
    assert(start =~= "response.incomplete"@.subrange(0, 9));
    assert(start =~= "response.failed"@.subrange(0, 9));
}

} // verus!
