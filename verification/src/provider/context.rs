//! The conversation that a prompt carries, its tools, and how it is answered.

use vstd::prelude::*;

use crate::json::{opt_json, Json, JsonValue};
use crate::text::{copy_texts, opt_view, same_text, views};
use crate::value::{entry_views, group_cbor_views, value_views, Cbor, CborValue};

verus! {

/// Who speaks in a message.
#[derive(Clone, Copy, Debug, PartialEq, Eq, Structural)]
pub enum ContextRole {
    System,
    User,
    Assistant,
}

/// What part of an answer a message is.
#[derive(Clone, Copy, Debug, PartialEq, Eq, Structural)]
pub enum MessagePhase {
    Commentary,
    FinalAnswer,
}

/// How a tool takes its input.
#[derive(Clone, Copy, Debug, PartialEq, Eq, Structural)]
pub enum ToolType {
    Function,
    Custom,
}

/// How a tool call ended.
#[derive(Debug, PartialEq, Eq)]
pub enum ToolResultStatus {
    Success,
    Error { message: String },
    Cancelled { reason: String },
}

/// One item of a conversation.
#[derive(Debug, PartialEq, Eq)]
pub enum ContextItem {
    Message { role: ContextRole, content: Vec<String>, phase: Option<MessagePhase> },
    ToolCall { call_id: String, name: String, tool_type: ToolType, arguments: CborValue },
    ToolResult { call_id: String, tool_type: ToolType, status: ToolResultStatus, output: CborValue },
    Reasoning(CborValue),
    Compaction(CborValue),
    UnknownProviderItem(CborValue),
}

/// How a tool call ended, as mathematics.
pub enum StatusView {
    Success,
    Error { message: Seq<char> },
    Cancelled { reason: Seq<char> },
}

impl View for ToolResultStatus {
    type V = StatusView;

    open spec fn view(&self) -> StatusView {
        match self {
            ToolResultStatus::Success => StatusView::Success,
            ToolResultStatus::Error { message } => StatusView::Error { message: message@ },
            ToolResultStatus::Cancelled { reason } => StatusView::Cancelled { reason: reason@ },
        }
    }
}

/// One item of a conversation, as mathematics.
pub enum ItemView {
    Message { role: ContextRole, content: Seq<Seq<char>>, phase: Option<MessagePhase> },
    ToolCall { call_id: Seq<char>, name: Seq<char>, tool_type: ToolType, arguments: Cbor },
    ToolResult { call_id: Seq<char>, tool_type: ToolType, status: StatusView, output: Cbor },
    Reasoning(Cbor),
    Compaction(Cbor),
    UnknownProviderItem(Cbor),
}

impl View for ContextItem {
    type V = ItemView;

    open spec fn view(&self) -> ItemView {
        match self {
            ContextItem::Message { role, content, phase } => ItemView::Message {
                role: *role,
                content: views(content@),
                phase: *phase,
            },
            ContextItem::ToolCall { call_id, name, tool_type, arguments } => ItemView::ToolCall {
                call_id: call_id@,
                name: name@,
                tool_type: *tool_type,
                arguments: arguments@,
            },
            ContextItem::ToolResult { call_id, tool_type, status, output } => ItemView::ToolResult {
                call_id: call_id@,
                tool_type: *tool_type,
                status: status@,
                output: output@,
            },
            ContextItem::Reasoning(item) => ItemView::Reasoning(item@),
            ContextItem::Compaction(item) => ItemView::Compaction(item@),
            ContextItem::UnknownProviderItem(item) => ItemView::UnknownProviderItem(item@),
        }
    }
}

/// The views of a list of items.
pub open spec fn item_views(items: Seq<ContextItem>) -> Seq<ItemView> {
    items.map_values(|item: ContextItem| item@)
}

impl ToolResultStatus {
    /// A copy of the status.
    pub fn copy(&self) -> (status: ToolResultStatus)
        ensures
            status@ == self@,
    {
        match self {
            ToolResultStatus::Success => ToolResultStatus::Success,
            ToolResultStatus::Error { message } => ToolResultStatus::Error {
                message: message.clone(),
            },
            ToolResultStatus::Cancelled { reason } => ToolResultStatus::Cancelled {
                reason: reason.clone(),
            },
        }
    }
}

impl ContextItem {
    /// A copy of the item.
    pub fn copy(&self) -> (item: ContextItem)
        ensures
            item@ == self@,
    {
        match self {
            ContextItem::Message { role, content, phase } => ContextItem::Message {
                role: *role,
                content: copy_texts(content),
                phase: *phase,
            },
            ContextItem::ToolCall { call_id, name, tool_type, arguments } => ContextItem::ToolCall {
                call_id: call_id.clone(),
                name: name.clone(),
                tool_type: *tool_type,
                arguments: arguments.copy(),
            },
            ContextItem::ToolResult { call_id, tool_type, status, output } =>
                ContextItem::ToolResult {
                call_id: call_id.clone(),
                tool_type: *tool_type,
                status: status.copy(),
                output: output.copy(),
            },
            ContextItem::Reasoning(item) => ContextItem::Reasoning(item.copy()),
            ContextItem::Compaction(item) => ContextItem::Compaction(item.copy()),
            ContextItem::UnknownProviderItem(item) => ContextItem::UnknownProviderItem(item.copy()),
        }
    }
}

/// Copies of a list of items.
pub fn copy_items(items: &Vec<ContextItem>) -> (copies: Vec<ContextItem>)
    ensures
        item_views(copies@) == item_views(items@),
{
    let mut copies: Vec<ContextItem> = Vec::new();
    let mut i: usize = 0;
    assert(item_views(copies@) =~= item_views(items@).take(0));
    while i < items.len()
        invariant
            i <= items@.len(),
            item_views(copies@) == item_views(items@).take(i as int),
        decreases items.len() - i,
    {
        let ghost before = copies@;
        let item = items[i].copy();
        copies.push(item);
        assert(item_views(copies@) =~= item_views(before).push(item@));
        i += 1;
        assert(item_views(copies@) =~= item_views(items@).take(i as int));
    }
    assert(item_views(items@).take(i as int) =~= item_views(items@));
    copies
}

/// Whether two values are the same.
pub fn same_value(a: &CborValue, b: &CborValue) -> (same: bool)
    ensures
        same == (a@ == b@),
    decreases a,
{
    broadcast use group_cbor_views;

    match (a, b) {
        (CborValue::Null, CborValue::Null) => true,
        (CborValue::Bool(x), CborValue::Bool(y)) => *x == *y,
        (CborValue::Integer(x), CborValue::Integer(y)) => *x == *y,
        (CborValue::Float(x), CborValue::Float(y)) => same_text(x.as_str(), y.as_str()),
        (CborValue::Text(x), CborValue::Text(y)) => same_text(x.as_str(), y.as_str()),
        (CborValue::Bytes(x), CborValue::Bytes(y)) => {
            if x.len() != y.len() {
                return false;
            }
            let mut i: usize = 0;
            while i < x.len()
                invariant
                    i <= x@.len() == y@.len(),
                    a@ == Cbor::Bytes(x@),
                    b@ == Cbor::Bytes(y@),
                    forall|j: int| 0 <= j < i ==> x@[j] == y@[j],
                decreases x.len() - i,
            {
                if x[i] != y[i] {
                    assert(x@ != y@);
                    return false;
                }
                i += 1;
            }
            assert(x@ =~= y@);
            true
        },
        (CborValue::Array(x), CborValue::Array(y)) => {
            let ghost xs = value_views(x@);
            let ghost ys = value_views(y@);
            if x.len() != y.len() {
                assert(xs.len() != ys.len());
                return false;
            }
            let mut i: usize = 0;
            while i < x.len()
                invariant
                    i <= x@.len() == y@.len(),
                    *a is Array && *x == (*a)->Array_0,
                    xs == value_views(x@) && ys == value_views(y@),
                    a@ == Cbor::Array(xs) && b@ == Cbor::Array(ys),
                    forall|j: int| 0 <= j < i ==> xs[j] == ys[j],
                decreases x.len() - i,
            {
                assert(decreases_to!(*a => *x));
                assert(decreases_to!(*x => x@[i as int]));
                if !same_value(&x[i], &y[i]) {
                    assert(xs[i as int] != ys[i as int]);
                    return false;
                }
                i += 1;
            }
            assert(xs =~= ys);
            true
        },
        (CborValue::Dict(x), CborValue::Dict(y)) => {
            let ghost xs = entry_views(x@);
            let ghost ys = entry_views(y@);
            if x.len() != y.len() {
                assert(xs.len() != ys.len());
                return false;
            }
            let mut i: usize = 0;
            while i < x.len()
                invariant
                    i <= x@.len() == y@.len(),
                    *a is Dict && *x == (*a)->Dict_0,
                    xs == entry_views(x@) && ys == entry_views(y@),
                    a@ == Cbor::Dict(xs) && b@ == Cbor::Dict(ys),
                    forall|j: int| 0 <= j < i ==> xs[j] == ys[j],
                decreases x.len() - i,
            {
                assert(decreases_to!(*a => *x));
                assert(decreases_to!(*x => x@[i as int]));
                if !same_value(&x[i].0, &y[i].0) || !same_value(&x[i].1, &y[i].1) {
                    assert(xs[i as int] != ys[i as int]);
                    return false;
                }
                i += 1;
            }
            assert(xs =~= ys);
            true
        },
        (CborValue::Tag(s, x), CborValue::Tag(t, y)) => *s == *t && same_value(x, y),
        _ => false,
    }
}

/// Whether two lists of texts are the same.
fn same_texts(a: &Vec<String>, b: &Vec<String>) -> (same: bool)
    ensures
        same == (views(a@) == views(b@)),
{
    if a.len() != b.len() {
        assert(views(a@).len() != views(b@).len());
        return false;
    }
    let mut i: usize = 0;
    while i < a.len()
        invariant
            i <= a@.len() == b@.len(),
            forall|j: int| 0 <= j < i ==> views(a@)[j] == views(b@)[j],
        decreases a.len() - i,
    {
        if !same_text(a[i].as_str(), b[i].as_str()) {
            assert(views(a@)[i as int] != views(b@)[i as int]);
            return false;
        }
        i += 1;
    }
    assert(views(a@) =~= views(b@));
    true
}

/// Whether two items are the same.
pub fn same_item(a: &ContextItem, b: &ContextItem) -> (same: bool)
    ensures
        same == (a@ == b@),
{
    match (a, b) {
        (
            ContextItem::Message { role: r, content: c, phase: p },
            ContextItem::Message { role: s, content: d, phase: q },
        ) => {
            let phases = match (p, q) {
                (Some(p), Some(q)) => *p == *q,
                (None, None) => true,
                _ => false,
            };
            *r == *s && phases && same_texts(c, d)
        },
        (
            ContextItem::ToolCall { call_id: i, name: n, tool_type: t, arguments: x },
            ContextItem::ToolCall { call_id: j, name: m, tool_type: u, arguments: y },
        ) => same_text(i.as_str(), j.as_str()) && same_text(n.as_str(), m.as_str()) && *t == *u
            && same_value(x, y),
        (
            ContextItem::ToolResult { call_id: i, tool_type: t, status: v, output: x },
            ContextItem::ToolResult { call_id: j, tool_type: u, status: w, output: y },
        ) => {
            let statuses = match (v, w) {
                (ToolResultStatus::Success, ToolResultStatus::Success) => true,
                (
                    ToolResultStatus::Error { message: m },
                    ToolResultStatus::Error { message: n },
                ) => same_text(m.as_str(), n.as_str()),
                (
                    ToolResultStatus::Cancelled { reason: m },
                    ToolResultStatus::Cancelled { reason: n },
                ) => same_text(m.as_str(), n.as_str()),
                _ => false,
            };
            statuses && same_text(i.as_str(), j.as_str()) && *t == *u && same_value(x, y)
        },
        (ContextItem::Reasoning(x), ContextItem::Reasoning(y)) => same_value(x, y),
        (ContextItem::Compaction(x), ContextItem::Compaction(y)) => same_value(x, y),
        (ContextItem::UnknownProviderItem(x), ContextItem::UnknownProviderItem(y)) => same_value(
            x,
            y,
        ),
        _ => false,
    }
}

/// The rules that the input of a tool follows.
#[derive(Clone, Copy, Debug, PartialEq, Eq, Structural)]
pub enum ToolGrammarSyntax {
    Lark,
    Regex,
}

/// What the input of a tool looks like.
#[derive(Debug, PartialEq, Eq)]
pub enum ToolFormat {
    Text,
    Grammar { syntax: ToolGrammarSyntax, definition: String },
}

/// A tool that a model can call.
#[derive(Debug, PartialEq, Eq)]
pub struct ToolDefinition {
    pub name: String,
    pub model_visible_name: Option<String>,
    pub description: Option<String>,
    pub tool_type: ToolType,
    pub parameters: Option<JsonValue>,
    pub format: Option<ToolFormat>,
}

/// What the input of a tool looks like, as mathematics.
pub enum FormatView {
    Text,
    Grammar { syntax: ToolGrammarSyntax, definition: Seq<char> },
}

impl View for ToolFormat {
    type V = FormatView;

    open spec fn view(&self) -> FormatView {
        match self {
            ToolFormat::Text => FormatView::Text,
            ToolFormat::Grammar { syntax, definition } => FormatView::Grammar {
                syntax: *syntax,
                definition: definition@,
            },
        }
    }
}

/// A tool that a model can call, as mathematics.
pub struct ToolView {
    pub name: Seq<char>,
    pub model_visible_name: Option<Seq<char>>,
    pub description: Option<Seq<char>>,
    pub tool_type: ToolType,
    pub parameters: Option<Json>,
    pub format: Option<FormatView>,
}

/// The view of an optional format.
pub open spec fn opt_format(format: Option<ToolFormat>) -> Option<FormatView> {
    match format {
        Some(format) => Some(format@),
        None => None,
    }
}

impl View for ToolDefinition {
    type V = ToolView;

    open spec fn view(&self) -> ToolView {
        ToolView {
            name: self.name@,
            model_visible_name: opt_view(self.model_visible_name),
            description: opt_view(self.description),
            tool_type: self.tool_type,
            parameters: opt_json(self.parameters),
            format: opt_format(self.format),
        }
    }
}

/// The views of a list of tools.
pub open spec fn tool_views(tools: Seq<ToolDefinition>) -> Seq<ToolView> {
    tools.map_values(|tool: ToolDefinition| tool@)
}

} // verus!
