//! Events that the shell extension takes and sends.

use vstd::prelude::*;

use crate::proto::{OriginatorView, PromptOriginator};
use crate::shell::display::{FailureView, OutputView, StateView, ToolFailure, ToolOutput,
    ToolUseState};
use crate::text::opt_view;
use crate::value::{opt_cbor, Cbor, CborValue};

verus! {

/// A tool call that the harness started.
#[derive(Debug)]
pub struct ToolStarted {
    pub call_id: String,
    pub tool_name: String,
    pub agent_id: String,
    pub arguments: CborValue,
    pub originator: PromptOriginator,
}

/// A tool call, as mathematics.
pub struct StartedView {
    pub call_id: Seq<char>,
    pub tool_name: Seq<char>,
    pub agent_id: Seq<char>,
    pub arguments: Cbor,
    pub originator: OriginatorView,
}

impl View for ToolStarted {
    type V = StartedView;

    open spec fn view(&self) -> StartedView {
        StartedView {
            call_id: self.call_id@,
            tool_name: self.tool_name@,
            agent_id: self.agent_id@,
            arguments: self.arguments@,
            originator: self.originator@,
        }
    }
}

impl ToolStarted {
    /// A copy of the call.
    pub fn copy(&self) -> (call: ToolStarted)
        ensures
            call@ == self@,
    {
        ToolStarted {
            call_id: self.call_id.clone(),
            tool_name: self.tool_name.clone(),
            agent_id: self.agent_id.clone(),
            arguments: self.arguments.copy(),
            originator: self.originator.copy(),
        }
    }
}

/// An event that the shell extension sends.
#[allow(inconsistent_fields)]
#[derive(Debug)]
pub enum Event {
    ToolResult {
        call_id: String,
        tool_name: String,
        result: CborValue,
        display: Option<ToolUseState>,
        originator: PromptOriginator,
    },
    ToolError {
        call_id: String,
        tool_name: String,
        message: String,
        details: Option<CborValue>,
        display: Option<ToolUseState>,
        originator: PromptOriginator,
    },
    ToolProgress {
        call_id: String,
        tool_name: String,
        message: Option<String>,
        display: Option<ToolUseState>,
    },
    ToolCancelled { call_id: String, tool_name: String },
    /// The directory lock tool is offered, switched on or off.
    DirLockToolRegister { enabled: bool },
    AgentMetadataSet { agent_id: String, key: String, value: CborValue, inheritable: bool },
    AgentContextPublish { agent_id: String, key: String, value: String },
    ExtensionContextReady { agent_id: String },
    AgentUserMessageInjected { agent_id: String, text: String },
    ActionResult { invocation_id: String, action_id: String, text: String },
    ActionError { invocation_id: String, action_id: String, message: String },
    ShellCommandFinished {
        command_id: String,
        command: String,
        include_in_context: bool,
        target_agent_id: Option<String>,
        output: String,
        exit_code: Option<i32>,
        cancelled: bool,
    },
    ConfigError { message: String },
}

/// An event that the shell extension sends, as mathematics.
#[allow(inconsistent_fields)]
pub enum EventView {
    ToolResult {
        call_id: Seq<char>,
        tool_name: Seq<char>,
        result: Cbor,
        display: Option<StateView>,
        originator: OriginatorView,
    },
    ToolError {
        call_id: Seq<char>,
        tool_name: Seq<char>,
        message: Seq<char>,
        details: Option<Cbor>,
        display: Option<StateView>,
        originator: OriginatorView,
    },
    ToolProgress {
        call_id: Seq<char>,
        tool_name: Seq<char>,
        message: Option<Seq<char>>,
        display: Option<StateView>,
    },
    ToolCancelled { call_id: Seq<char>, tool_name: Seq<char> },
    DirLockToolRegister { enabled: bool },
    AgentMetadataSet { agent_id: Seq<char>, key: Seq<char>, value: Cbor, inheritable: bool },
    AgentContextPublish { agent_id: Seq<char>, key: Seq<char>, value: Seq<char> },
    ExtensionContextReady { agent_id: Seq<char> },
    AgentUserMessageInjected { agent_id: Seq<char>, text: Seq<char> },
    ActionResult { invocation_id: Seq<char>, action_id: Seq<char>, text: Seq<char> },
    ActionError { invocation_id: Seq<char>, action_id: Seq<char>, message: Seq<char> },
    ShellCommandFinished {
        command_id: Seq<char>,
        command: Seq<char>,
        include_in_context: bool,
        target_agent_id: Option<Seq<char>>,
        output: Seq<char>,
        exit_code: Option<i32>,
        cancelled: bool,
    },
    ConfigError { message: Seq<char> },
}

/// The view of an optional description.
pub open spec fn opt_state(state: Option<ToolUseState>) -> Option<StateView> {
    match state {
        Some(state) => Some(state@),
        None => None,
    }
}

impl View for Event {
    type V = EventView;

    open spec fn view(&self) -> EventView {
        match *self {
            Event::ToolResult { call_id, tool_name, result, display, originator } =>
                EventView::ToolResult {
                call_id: call_id@,
                tool_name: tool_name@,
                result: result@,
                display: opt_state(display),
                originator: originator@,
            },
            Event::ToolError { call_id, tool_name, message, details, display, originator } =>
                EventView::ToolError {
                call_id: call_id@,
                tool_name: tool_name@,
                message: message@,
                details: opt_cbor(details),
                display: opt_state(display),
                originator: originator@,
            },
            Event::ToolProgress { call_id, tool_name, message, display } =>
                EventView::ToolProgress {
                call_id: call_id@,
                tool_name: tool_name@,
                message: opt_view(message),
                display: opt_state(display),
            },
            Event::ToolCancelled { call_id, tool_name } => EventView::ToolCancelled {
                call_id: call_id@,
                tool_name: tool_name@,
            },
            Event::DirLockToolRegister { enabled } => EventView::DirLockToolRegister { enabled },
            Event::AgentMetadataSet { agent_id, key, value, inheritable } =>
                EventView::AgentMetadataSet {
                agent_id: agent_id@,
                key: key@,
                value: value@,
                inheritable,
            },
            Event::AgentContextPublish { agent_id, key, value } => EventView::AgentContextPublish {
                agent_id: agent_id@,
                key: key@,
                value: value@,
            },
            Event::ExtensionContextReady { agent_id } => EventView::ExtensionContextReady {
                agent_id: agent_id@,
            },
            Event::AgentUserMessageInjected { agent_id, text } =>
                EventView::AgentUserMessageInjected { agent_id: agent_id@, text: text@ },
            Event::ActionResult { invocation_id, action_id, text } => EventView::ActionResult {
                invocation_id: invocation_id@,
                action_id: action_id@,
                text: text@,
            },
            Event::ActionError { invocation_id, action_id, message } => EventView::ActionError {
                invocation_id: invocation_id@,
                action_id: action_id@,
                message: message@,
            },
            Event::ShellCommandFinished {
                command_id,
                command,
                include_in_context,
                target_agent_id,
                output,
                exit_code,
                cancelled,
            } => EventView::ShellCommandFinished {
                command_id: command_id@,
                command: command@,
                include_in_context,
                target_agent_id: opt_view(target_agent_id),
                output: output@,
                exit_code,
                cancelled,
            },
            Event::ConfigError { message } => EventView::ConfigError { message: message@ },
        }
    }
}

/// The views of a list of events.
pub open spec fn event_views(events: Seq<Event>) -> Seq<EventView> {
    events.map_values(|e: Event| e@)
}

/// Puts an event behind others.
pub fn push_event(events: &mut Vec<Event>, event: Event)
    ensures
        event_views(final(events)@) == event_views(old(events)@).push(event@),
{
    let ghost before = events@;
    events.push(event);
    assert(event_views(events@) =~= event_views(before).push(event@));
}

/// The result of a call.
pub open spec fn result_event(call: StartedView, output: OutputView) -> EventView {
    EventView::ToolResult {
        call_id: call.call_id,
        tool_name: call.tool_name,
        result: output.result,
        display: Some(output.display),
        originator: call.originator,
    }
}

/// The failure of a call.
pub open spec fn failure_event(call: StartedView, failure: FailureView) -> EventView {
    EventView::ToolError {
        call_id: call.call_id,
        tool_name: call.tool_name,
        message: failure.message,
        details: failure.details,
        display: Some(failure.display),
        originator: call.originator,
    }
}

/// The end of a call that was cancelled.
pub open spec fn cancelled_call_event(call: StartedView) -> EventView {
    EventView::ToolCancelled { call_id: call.call_id, tool_name: call.tool_name }
}

/// The result of a call.
pub fn tool_result(call: &ToolStarted, output: ToolOutput) -> (event: Event)
    ensures
        event@ == result_event(call@, output@),
{
    Event::ToolResult {
        call_id: call.call_id.clone(),
        tool_name: call.tool_name.clone(),
        result: output.result,
        display: Some(output.display),
        originator: call.originator.copy(),
    }
}

/// The failure of a call.
pub fn tool_failure(call: &ToolStarted, failure: ToolFailure) -> (event: Event)
    ensures
        event@ == failure_event(call@, failure@),
{
    Event::ToolError {
        call_id: call.call_id.clone(),
        tool_name: call.tool_name.clone(),
        message: failure.message,
        details: failure.details,
        display: Some(failure.display),
        originator: call.originator.copy(),
    }
}

/// The end of a call that was cancelled.
pub fn cancelled_event(call: &ToolStarted) -> (event: Event)
    ensures
        event@ == cancelled_call_event(call@),
{
    Event::ToolCancelled { call_id: call.call_id.clone(), tool_name: call.tool_name.clone() }
}

} // verus!
