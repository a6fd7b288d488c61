//! Laws of streams and of what they leave.

use vstd::prelude::*;

use crate::convert::{cbor_of_json, is_proper};
use crate::json::{text_at, Json};
use crate::provider::context::{ItemView, MessagePhase, ToolType};
use crate::provider::finish::slot_items;
use crate::provider::http::{piece_read, pieces_read, PieceView};
use crate::provider::input::inputs_of;
use crate::provider::stream::{
    applied, item_applied, messages_text, slot_at, with_slot, CallView, Extras, SlotView, StreamView,
};

verus! {

/// Whether items stand in the order of their index, each index once.
pub open spec fn in_order(slots: Seq<(u64, SlotView)>) -> bool {
    forall|i: int, j: int|
        0 <= i < j < slots.len() ==> #[trigger] slots[i].0 < #[trigger] slots[j].0
}

/// Where the items of a list with one more come from.
proof fn lemma_with_slot_sources(slots: Seq<(u64, SlotView)>, index: u64, slot: SlotView, k: int)
    requires
        0 <= k < with_slot(slots, index, slot).len(),
    ensures
        with_slot(slots, index, slot)[k] == (index, slot) || slots.contains(
            with_slot(slots, index, slot)[k],
        ),
    decreases slots.len(),
{
    let next = with_slot(slots, index, slot);
    if slots.len() == 0 {
    } else if slots[0].0 == index {
        if k > 0 {
            assert(next[k] == slots[k]);
        }
    } else if index < slots[0].0 {
        if k > 0 {
            assert(next[k] == slots[k - 1]);
        }
    } else {
        if k == 0 {
            assert(next[0] == slots[0]);
        } else {
            let rest = slots.drop_first();
            lemma_with_slot_sources(rest, index, slot, k - 1);
            assert(next[k] == with_slot(rest, index, slot)[k - 1]);
            if rest.contains(next[k]) {
                let m = choose|m: int| 0 <= m < rest.len() && rest[m] == next[k];
                assert(slots[m + 1] == next[k]);
            }
        }
    }
}

/// An item that is put in leaves the items in order.
pub proof fn lemma_with_slot_in_order(slots: Seq<(u64, SlotView)>, index: u64, slot: SlotView)
    requires
        in_order(slots),
    ensures
        in_order(with_slot(slots, index, slot)),
    decreases slots.len(),
{
    let next = with_slot(slots, index, slot);
    if slots.len() == 0 {
    } else if slots[0].0 == index {
        assert forall|i: int, j: int| 0 <= i < j < next.len() implies #[trigger] next[i].0
            < #[trigger] next[j].0 by {
            assert(next[i].0 == slots[i].0);
            assert(next[j].0 == slots[j].0);
        }
    } else if index < slots[0].0 {
        assert forall|i: int, j: int| 0 <= i < j < next.len() implies #[trigger] next[i].0
            < #[trigger] next[j].0 by {
            assert(next[j] == slots[j - 1]);
            if i > 0 {
                assert(next[i] == slots[i - 1]);
            } else if j > 1 {
                assert(slots[0].0 < slots[j - 1].0);
            }
        }
    } else {
        let rest = slots.drop_first();
        assert(in_order(rest)) by {
            assert forall|i: int, j: int| 0 <= i < j < rest.len() implies #[trigger] rest[i].0
                < #[trigger] rest[j].0 by {
                assert(rest[i] == slots[i + 1] && rest[j] == slots[j + 1]);
            }
        }
        lemma_with_slot_in_order(rest, index, slot);
        let inner = with_slot(rest, index, slot);
        assert forall|i: int, j: int| 0 <= i < j < next.len() implies #[trigger] next[i].0
            < #[trigger] next[j].0 by {
            assert(next[j] == inner[j - 1]);
            if i > 0 {
                assert(next[i] == inner[i - 1]);
            } else {
                lemma_with_slot_sources(rest, index, slot, j - 1);
                if rest.contains(inner[j - 1]) {
                    let m = choose|m: int| 0 <= m < rest.len() && rest[m] == inner[j - 1];
                    assert(rest[m] == slots[m + 1]);
                    assert(slots[0].0 < slots[m + 1].0);
                }
            }
        }
    }
}

/// The items of a response stay in the order of their index, whatever comes in.
pub proof fn law_items_stay_in_order(state: StreamView, event: Json)
    requires
        in_order(state.slots),
    ensures
        in_order(applied(state, event).state.slots),
{
    assert forall|index: u64, slot: SlotView| in_order(#[trigger] with_slot(state.slots, index, slot)) by {
        lemma_with_slot_in_order(state.slots, index, slot);
    }
    assert forall|index: u64, a: SlotView, b: SlotView|
        in_order(#[trigger] with_slot(with_slot(state.slots, index, a), index, b)) by {
        lemma_with_slot_in_order(state.slots, index, a);
        lemma_with_slot_in_order(with_slot(state.slots, index, a), index, b);
    }
}

/// An item that is put in is found at its index, and the items at other indices
/// stay.
pub proof fn law_item_is_found_where_it_was_put(
    slots: Seq<(u64, SlotView)>,
    index: u64,
    slot: SlotView,
    other: u64,
)
    requires
        in_order(slots),
    ensures
        slot_at(with_slot(slots, index, slot), index) == Some(slot),
        other != index ==> slot_at(with_slot(slots, index, slot), other) == slot_at(slots, other),
    decreases slots.len(),
{
    let next = with_slot(slots, index, slot);
    if slots.len() == 0 {
        assert(next.drop_first() =~= seq![]);
        assert(slot_at(next.drop_first(), other) is None);
    } else if slots[0].0 == index {
        assert(next.drop_first() =~= slots.drop_first());
    } else if index < slots[0].0 {
        assert(next.drop_first() =~= slots);
    } else {
        let rest = slots.drop_first();
        assert(in_order(rest)) by {
            assert forall|i: int, j: int| 0 <= i < j < rest.len() implies #[trigger] rest[i].0
                < #[trigger] rest[j].0 by {
                assert(rest[i] == slots[i + 1] && rest[j] == slots[j + 1]);
            }
        }
        law_item_is_found_where_it_was_put(rest, index, slot, other);
        assert(next.drop_first() =~= with_slot(rest, index, slot));
    }
}

/// An event that reports a failure changes nothing of what has come in.
pub proof fn law_failure_changes_nothing(state: StreamView, event: Json)
    requires
        applied(state, event).outcome is Err,
    ensures
        applied(state, event).state == state,
        !applied(state, event).updated,
{
}

/// Reasoning without encrypted content is not kept: it could not be sent again.
pub proof fn law_bare_reasoning_is_dropped(state: StreamView, item: Json, index: u64, done: bool)
    requires
        text_at(item, "type"@) == Some("reasoning"@),
        text_at(item, "encrypted_content"@) is None,
    ensures
        item_applied(state, item, index, done).state == state,
{
    reveal_strlit("reasoning");
    reveal_strlit("message");
    reveal_strlit("function_call");
    reveal_strlit("custom_tool_call");
    assert("reasoning"@.len() == 9);
    assert("message"@.len() == 7);
    assert("function_call"@.len() == 13);
    assert("custom_tool_call"@.len() == 16);
}

/// Reasoning that was kept is sent again word for word.
pub proof fn law_reasoning_is_replayed(item: Json, supports_phase: bool)
    requires
        is_proper(item),
    ensures
        inputs_of(slot_items(SlotView::Reasoning(item)), supports_phase) == seq![item],
{
    let items = slot_items(SlotView::Reasoning(item));
    crate::convert::law_shown_json_survives_cbor(item);
    assert(items =~= seq![ItemView::Reasoning(cbor_of_json(item))]);
    assert(items.drop_last() =~= seq![]);
    assert(inputs_of(items.drop_last(), supports_phase) =~= seq![]);
    assert(seq![] + seq![item] =~= seq![item]);
}

/// A response of which nothing but deltas of one message have come in.
pub open spec fn fed(index: u64, deltas: Seq<Seq<char>>) -> StreamView
    decreases deltas.len(),
{
    if deltas.len() == 0 {
        StreamView::fresh()
    } else {
        let before = fed(index, deltas.drop_last());
        before.with_text(index, before.message_at(index).0 + deltas.last())
    }
}

/// The text of a message is what its deltas add up to.
pub proof fn law_deltas_add_up(index: u64, deltas: Seq<Seq<char>>)
    ensures
        fed(index, deltas).text() == deltas.flatten(),
        deltas.len() > 0 ==> fed(index, deltas).slots == seq![
            (index, SlotView::Message { text: deltas.flatten(), phase: None }),
        ],
    decreases deltas.len(),
{
    let state = fed(index, deltas);
    let none: Seq<(u64, SlotView)> = seq![];
    assert(messages_text(none) =~= seq![]);
    if deltas.len() == 0 {
        assert(deltas.flatten() =~= seq![]);
    } else {
        let front = deltas.drop_last();
        law_deltas_add_up(index, front);
        let before = fed(index, front);
        front.lemma_flatten_push(deltas.last());
        assert(front.push(deltas.last()) =~= deltas);
        assert(before.message_at(index).0 =~= front.flatten() && before.message_at(index).1
            is None) by {
            if front.len() == 0 {
                assert(front.flatten() =~= seq![]);
            }
        }
        let slot = SlotView::Message { text: deltas.flatten(), phase: None };
        assert(before.message_at(index).0 + deltas.last() =~= deltas.flatten());
        assert(state.slots =~= seq![(index, slot)]) by {
            if front.len() > 0 {
                assert(before.slots.drop_first() =~= none);
            }
        }
        assert(state.slots.drop_last() =~= none);
        assert(none.len() == 0);
        assert(messages_text(state.slots) =~= deltas.flatten());
    }
}

/// Whether an item holds nothing that is not to be taken.
pub open spec fn is_wanted(slot: SlotView, extras: Extras) -> bool {
    match slot {
        SlotView::Message { phase, .. } => phase is Some ==> extras.phase,
        SlotView::ToolCall { .. } => true,
        SlotView::Reasoning(_) => extras.reasoning,
    }
}

/// Whether a response holds nothing that is not to be taken.
pub open spec fn holds_wanted(state: StreamView) -> bool {
    forall|i: int| 0 <= i < state.slots.len() ==> is_wanted((#[trigger] state.slots[i]).1, state.extras)
}

proof fn lemma_slot_is_wanted(slots: Seq<(u64, SlotView)>, extras: Extras, index: u64)
    requires
        forall|i: int| 0 <= i < slots.len() ==> is_wanted((#[trigger] slots[i]).1, extras),
    ensures
        slot_at(slots, index) matches Some(slot) ==> is_wanted(slot, extras),
    decreases slots.len(),
{
    if slots.len() > 0 {
        let rest = slots.drop_first();
        assert forall|i: int| 0 <= i < rest.len() implies is_wanted(
            (#[trigger] rest[i]).1,
            extras,
        ) by {
            assert(rest[i] == slots[i + 1]);
        }
        lemma_slot_is_wanted(rest, extras, index);
    }
}

/// A wanted item that is put in leaves nothing unwanted.
proof fn lemma_with_wanted(state: StreamView, index: u64, slot: SlotView)
    requires
        holds_wanted(state),
        is_wanted(slot, state.extras),
    ensures
        holds_wanted(StreamView { slots: with_slot(state.slots, index, slot), ..state }),
{
    let next = with_slot(state.slots, index, slot);
    assert forall|i: int| 0 <= i < next.len() implies is_wanted(
        (#[trigger] next[i]).1,
        state.extras,
    ) by {
        lemma_with_slot_sources(state.slots, index, slot, i);
        if state.slots.contains(next[i]) {
            let m = choose|m: int| 0 <= m < state.slots.len() && state.slots[m] == next[i];
            assert(is_wanted(state.slots[m].1, state.extras));
        }
    }
}

proof fn lemma_with_wanted_text(state: StreamView, index: u64, text: Seq<char>)
    requires
        holds_wanted(state),
    ensures
        holds_wanted(state.with_text(index, text)),
{
    lemma_slot_is_wanted(state.slots, state.extras, index);
    let phase = state.message_at(index).1;
    lemma_with_wanted(state, index, SlotView::Message { text, phase });
}

/// Nothing is taken from an event that is not to be taken: no phase where
/// messages carry none, and no reasoning where none was asked for.
pub proof fn law_only_what_is_wanted_is_taken(state: StreamView, event: Json)
    requires
        holds_wanted(state),
    ensures
        applied(state, event).state.extras == state.extras,
        holds_wanted(applied(state, event).state),
{
    assert forall|index: u64, text: Seq<char>| holds_wanted(#[trigger] state.with_text(index, text)) by {
        lemma_with_wanted_text(state, index, text);
    }
    assert forall|index: u64, tool_type: ToolType, call: CallView|
        holds_wanted(#[trigger] state.with_call(index, tool_type, call)) by {
        let slot = SlotView::ToolCall {
            tool_type,
            id: call.id,
            name: call.name,
            arguments: call.arguments,
        };
        lemma_with_wanted(state, index, slot);
    }
    assert forall|index: u64, text: Seq<char>, phase: Option<MessagePhase>|
        phase is Some ==> state.extras.phase implies holds_wanted(
        #[trigger] state.with_message(index, text, phase),
    ) by {
        lemma_with_wanted(state, index, SlotView::Message { text, phase });
    }
    assert forall|index: u64, text: Seq<char>, phase: Option<MessagePhase>, last: Seq<char>|
        phase is Some ==> state.extras.phase implies holds_wanted(
        #[trigger] state.with_message(index, text, phase).with_text(index, last),
    ) by {
        lemma_with_wanted(state, index, SlotView::Message { text, phase });
        lemma_with_wanted_text(state.with_message(index, text, phase), index, last);
    }
    assert forall|index: u64, item: Json| state.extras.reasoning implies holds_wanted(
        StreamView {
            slots: #[trigger] with_slot(state.slots, index, SlotView::Reasoning(item)),
            ..state
        },
    ) by {
        lemma_with_wanted(state, index, SlotView::Reasoning(item));
    }
}

/// A stream leaves nothing that is not to be taken, however it goes.
pub proof fn law_a_stream_leaves_what_is_wanted(extras: Extras, pieces: Seq<PieceView>)
    ensures
        pieces_read(extras, pieces).state.extras == extras,
        holds_wanted(pieces_read(extras, pieces).state),
    decreases pieces.len(),
{
    if pieces.len() > 0 {
        law_a_stream_leaves_what_is_wanted(extras, pieces.drop_last());
        let before = pieces_read(extras, pieces.drop_last());
        assert(pieces_read(extras, pieces) == piece_read(before, pieces.last()));
        if let PieceView::Event(event) = pieces.last() {
            law_only_what_is_wanted_is_taken(before.state, event);
        }
    }
}

} // verus!
