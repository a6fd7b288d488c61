//! The scripting extension at work: events, calls and jobs that come in.

use vstd::prelude::*;

use crate::convert::{cbor_of_json, cbor_to_json, json_of_cbor, json_to_cbor};
use crate::json::{group_json_views, json_text, member_views, push_member, Json, JsonValue};
use crate::proto::{OriginatorView, PromptOriginator};
use crate::scripting::host::{
    claim_of, claimed, function_views, handler_of, has_fn, has_function, job_at, opt_call,
    without_job, CallView, Claim, HostState, HostView, JobView, PendingShellJob, PendingToolCall,
};
use crate::scripting::message::{
    because, because_text, callback_error, job_json, meta_json, meta_of, no_outputs, one_output,
    output_views, shell_job_json, warning, ActionView, InterceptAction, OutputView, ScriptOutput,
};
use crate::scripting::value::{
    dynamic_to_json, json_of_script, json_to_dynamic, script_of_json, script_result, Script,
    ScriptValue,
};
use crate::text::{opt_view, signed_decimal, signed_decimal_of};
use crate::value::{Cbor, CborValue};

verus! {

/// The call of a tool that starts.
#[derive(Debug)]
pub struct ToolStarted {
    pub call_id: String,
    pub tool_name: String,
    pub agent_id: String,
    pub arguments: CborValue,
    pub originator: PromptOriginator,
    /// Who asked for the call, as a script is told.
    pub originator_json: JsonValue,
}

/// The call of a tool that starts, as mathematics.
pub struct StartedView {
    pub call_id: Seq<char>,
    pub tool_name: Seq<char>,
    pub agent_id: Seq<char>,
    pub arguments: Cbor,
    pub originator: OriginatorView,
    pub originator_json: Json,
}

impl View for ToolStarted {
    type V = StartedView;

    open spec fn view(&self) -> StartedView {
        StartedView {
            call_id: self.call_id@,
            tool_name: self.tool_name@,
            agent_id: self.agent_id@,
            arguments: self.arguments@,
            originator: self.originator@,
            originator_json: self.originator_json@,
        }
    }
}

impl StartedView {
    /// The call that waits for its result.
    pub open spec fn pending(self) -> CallView {
        CallView {
            call_id: self.call_id,
            tool_name: self.tool_name,
            originator: self.originator,
        }
    }
}

/// The call that waits for its result.
pub fn pending_call_from_started(started: &ToolStarted) -> (call: PendingToolCall)
    ensures
        call@ == started@.pending(),
{
    PendingToolCall {
        call_id: started.call_id.clone(),
        tool_name: started.tool_name.clone(),
        originator: started.originator.copy(),
    }
}

/// What a script is told of a call.
pub open spec fn call_json(started: StartedView) -> Json {
    Json::Object(
        seq![
            ("call_id"@, Json::Text(started.call_id)),
            ("tool_name"@, Json::Text(started.tool_name)),
            ("agent_id"@, Json::Text(started.agent_id)),
            ("originator"@, started.originator_json),
            ("tool_type"@, Json::Text("function"@)),
        ],
    )
}

/// What a script is told of a call.
pub fn tool_call_json(started: &ToolStarted) -> (json: JsonValue)
    ensures
        json@ == call_json(started@),
{
    broadcast use group_json_views;

    let mut members: Vec<(String, JsonValue)> = Vec::new();
    assert(member_views(members@) =~= seq![]);
    push_member(&mut members, "call_id", json_text(started.call_id.as_str()));
    push_member(&mut members, "tool_name", json_text(started.tool_name.as_str()));
    push_member(&mut members, "agent_id", json_text(started.agent_id.as_str()));
    push_member(&mut members, "originator", started.originator_json.copy());
    push_member(&mut members, "tool_type", json_text("function"));
    assert(member_views(members@) =~= call_json(started@)->Object_0);
    JsonValue::Object(members)
}

/// What a call of a tool comes to: an error.
pub open spec fn tool_error(call: CallView, message: Seq<char>) -> OutputView {
    OutputView::ToolError { call, message }
}

/// What a handler is called with: the arguments, and the call.
pub open spec fn handler_args(started: StartedView) -> Result<(Script, Script), Seq<char>> {
    match json_of_cbor(started.arguments) {
        Err(message) => Err(because("preparing tool arguments"@, message)),
        Ok(json) => match script_of_json(json) {
            Err(message) => Err(because("preparing tool arguments"@, message)),
            Ok(args) => match script_of_json(call_json(started)) {
                Err(message) => Err(because("preparing tool call metadata"@, message)),
                Ok(call) => Ok((args, call)),
            },
        },
    }
}

/// What a handler is called with.
pub fn prepare_handler(started: &ToolStarted) -> (r: Result<(ScriptValue, ScriptValue), String>)
    ensures
        match r {
            Ok((args, call)) => handler_args(started@) == Ok::<(Script, Script), Seq<char>>(
                (args@, call@),
            ),
            Err(message) => handler_args(started@) == Err::<(Script, Script), Seq<char>>(
                message@,
            ),
        },
{
    let json = match cbor_to_json(&started.arguments) {
        Ok(json) => json,
        Err(message) => {
            return Err(because_text("preparing tool arguments", message.as_str()));
        },
    };
    let args = match json_to_dynamic(&json) {
        Ok(args) => args,
        Err(message) => {
            return Err(because_text("preparing tool arguments", message.as_str()));
        },
    };
    match json_to_dynamic(&tool_call_json(started)) {
        Ok(call) => Ok((args, call)),
        Err(message) => Err(because_text("preparing tool call metadata", message.as_str())),
    }
}

/// A word about a job.
pub open spec fn about_job(before: Seq<char>, id: i64, after: Seq<char>) -> Seq<char> {
    before + signed_decimal_of(id as int) + after
}

/// A word about a job.
fn about_job_text(before: &str, id: i64, after: &str) -> (text: String)
    ensures
        text@ == about_job(before@, id, after@),
{
    let mut text = before.to_owned();
    let number = signed_decimal(id);
    text.append(number.as_str());
    text.append(after);
    text
}

/// What a step leaves: the host, and what is said.
pub struct HostStep {
    pub host: HostView,
    pub out: Seq<OutputView>,
}

/// What a job that is given as the result of a call comes to.
pub open spec fn job_given(host: HostView, id: i64, call: CallView, chained: bool) -> HostStep {
    match claim_of(host.jobs, id) {
        Claim::Claimed => HostStep {
            host: HostView { jobs: claimed(host.jobs, id, call), ..host },
            out: seq![],
        },
        Claim::AlreadyClaimed => HostStep {
            host,
            out: seq![
                tool_error(
                    call,
                    about_job(
                        if chained {
                            "chained shell job "@
                        } else {
                            "shell job "@
                        },
                        id,
                        " was already returned by a tool call"@,
                    ),
                ),
            ],
        },
        Claim::Unknown => HostStep {
            host,
            out: seq![
                tool_error(
                    call,
                    about_job(
                        if chained {
                            "unknown chained shell job "@
                        } else {
                            "unknown shell job "@
                        },
                        id,
                        ""@,
                    ),
                ),
            ],
        },
    }
}

/// A job is given as the result of a call.
fn give_job(host: &mut HostState, id: i64, call: PendingToolCall, chained: bool) -> (out: Vec<
    ScriptOutput,
>)
    ensures
        final(host)@ == job_given(old(host)@, id, call@, chained).host,
        output_views(out@) == job_given(old(host)@, id, call@, chained).out,
        old(host)@.is_sound() ==> final(host)@.is_sound(),
{
    match host.claim_job(id, call) {
        Ok(_) => no_outputs(),
        Err((claim, call)) => {
            let message = match claim {
                Claim::AlreadyClaimed => {
                    if chained {
                        about_job_text(
                            "chained shell job ",
                            id,
                            " was already returned by a tool call",
                        )
                    } else {
                        about_job_text("shell job ", id, " was already returned by a tool call")
                    }
                },
                _ => {
                    if chained {
                        about_job_text("unknown chained shell job ", id, "")
                    } else {
                        about_job_text("unknown shell job ", id, "")
                    }
                },
            };
            one_output(ScriptOutput::ToolError { call, message })
        },
    }
}

/// What a handler's value comes to: a job that the call waits for, or the result
/// of the call.
pub open spec fn tool_value(
    host: HostView,
    started: StartedView,
    outcome: Result<Script, Seq<char>>,
) -> HostStep {
    let call = started.pending();
    match outcome {
        Err(message) => HostStep {
            host,
            out: seq![tool_error(call, because("rhai tool handler failed"@, message))],
        },
        Ok(Script::Job(id)) => job_given(host, id, call, false),
        Ok(value) => HostStep {
            host,
            out: seq![
                match json_of_script(value) {
                    Ok(json) => OutputView::ToolResult { call, result: cbor_of_json(json) },
                    Err(message) => tool_error(call, because("invalid tool result"@, message)),
                },
            ],
        },
    }
}

/// A handler is done with a call.
pub fn handle_tool_value(
    host: &mut HostState,
    started: &ToolStarted,
    outcome: Result<ScriptValue, String>,
) -> (out: Vec<ScriptOutput>)
    ensures
        final(host)@ == tool_value(old(host)@, started@, script_result(outcome)).host,
        output_views(out@) == tool_value(old(host)@, started@, script_result(outcome)).out,
        old(host)@.is_sound() ==> final(host)@.is_sound(),
{
    let call = pending_call_from_started(started);
    let value = match outcome {
        Ok(value) => value,
        Err(message) => {
            return one_output(
                ScriptOutput::ToolError {
                    call,
                    message: because_text("rhai tool handler failed", message.as_str()),
                },
            );
        },
    };
    if let ScriptValue::Job(id) = &value {
        return give_job(host, *id, call, false);
    }
    match dynamic_to_json(&value) {
        Ok(json) => one_output(ScriptOutput::ToolResult { call, result: json_to_cbor(&json) }),
        Err(message) => one_output(
            ScriptOutput::ToolError {
                call,
                message: because_text("invalid tool result", message.as_str()),
            },
        ),
    }
}

/// What a job that is done calls: its function, with the result and the job; or
/// nothing, where it has none.
pub open spec fn completion_args(id: i64, job: JobView, result: Json) -> Result<
    (Script, Script),
    Seq<char>,
> {
    match script_of_json(result) {
        Err(message) => Err(because("preparing shell result"@, message)),
        Ok(result) => match script_of_json(job_json(id, job)) {
            Err(message) => Err(because("preparing shell job"@, message)),
            Ok(job) => Ok((result, job)),
        },
    }
}

/// What a job that is done calls its function with.
pub fn prepare_completion(id: i64, job: &PendingShellJob, result: &JsonValue) -> (r: Result<
    (ScriptValue, ScriptValue),
    String,
>)
    ensures
        match r {
            Ok((result_value, job_value)) => completion_args(id, job@, result@) == Ok::<
                (Script, Script),
                Seq<char>,
            >((result_value@, job_value@)),
            Err(message) => completion_args(id, job@, result@) == Err::<
                (Script, Script),
                Seq<char>,
            >(message@),
        },
{
    let given = match json_to_dynamic(result) {
        Ok(given) => given,
        Err(message) => {
            return Err(because_text("preparing shell result", message.as_str()));
        },
    };
    match json_to_dynamic(&shell_job_json(id, job)) {
        Ok(told) => Ok((given, told)),
        Err(message) => Err(because_text("preparing shell job", message.as_str())),
    }
}

/// What a job that is done comes to, given what its function returned.
pub open spec fn completed(
    host: HostView,
    call: Option<CallView>,
    had_callback: bool,
    outcome: Result<Script, Seq<char>>,
    result: Json,
) -> HostStep {
    match (outcome, call) {
        (Ok(Script::Job(id)), Some(call)) => job_given(host, id, call, true),
        (Ok(value), Some(call)) => HostStep {
            host,
            out: seq![
                if value is Unit && !had_callback {
                    OutputView::ToolResult { call, result: cbor_of_json(result) }
                } else {
                    match json_of_script(value) {
                        Ok(json) => OutputView::ToolResult { call, result: cbor_of_json(json) },
                        Err(message) => tool_error(
                            call,
                            because("invalid shell callback result"@, message),
                        ),
                    }
                },
            ],
        },
        (Ok(_), None) => HostStep { host, out: seq![] },
        (Err(message), Some(call)) => HostStep {
            host,
            out: seq![tool_error(call, because("rhai shell callback failed"@, message))],
        },
        (Err(message), None) => HostStep {
            host,
            out: seq![warning(because("rhai shell callback failed"@, message))],
        },
    }
}

/// The function of a job that is done has returned.
pub fn finish_completion(
    host: &mut HostState,
    call: Option<PendingToolCall>,
    had_callback: bool,
    outcome: Result<ScriptValue, String>,
    result: &JsonValue,
) -> (out: Vec<ScriptOutput>)
    ensures
        ({
            let step = completed(
                old(host)@,
                opt_call(call),
                had_callback,
                script_result(outcome),
                result@,
            );
            final(host)@ == step.host && output_views(out@) == step.out
        }),
        old(host)@.is_sound() ==> final(host)@.is_sound(),
{
    match outcome {
        Err(message) => match call {
            Some(call) => one_output(
                ScriptOutput::ToolError {
                    call,
                    message: because_text("rhai shell callback failed", message.as_str()),
                },
            ),
            None => one_output(callback_error("rhai shell callback failed", message.as_str())),
        },
        Ok(value) => match call {
            None => no_outputs(),
            Some(call) => {
                if let ScriptValue::Job(id) = &value {
                    return give_job(host, *id, call, true);
                }
                let is_unit = match &value {
                    ScriptValue::Unit => true,
                    _ => false,
                };
                if is_unit && !had_callback {
                    return one_output(
                        ScriptOutput::ToolResult { call, result: json_to_cbor(result) },
                    );
                }
                match dynamic_to_json(&value) {
                    Ok(json) => one_output(
                        ScriptOutput::ToolResult { call, result: json_to_cbor(&json) },
                    ),
                    Err(message) => one_output(
                        ScriptOutput::ToolError {
                            call,
                            message: because_text(
                                "invalid shell callback result",
                                message.as_str(),
                            ),
                        },
                    ),
                }
            },
        },
    }
}

/// What a job that is done comes to: nothing where it is not known, an error for
/// its call where its result cannot be told, else what its function makes of it.
pub open spec fn shell_completed(
    host: HostView,
    id: i64,
    result: Json,
    outcome: Result<Script, Seq<char>>,
) -> HostStep {
    let left = HostView { jobs: without_job(host.jobs, id), ..host };
    match job_at(host.jobs, id) {
        None => HostStep { host: left, out: seq![] },
        Some(job) => match completion_args(id, job, result) {
            Err(message) => HostStep {
                host: left,
                out: match job.tool_call {
                    Some(call) => seq![tool_error(call, message)],
                    None => seq![],
                },
            },
            Ok(_) => completed(
                left,
                job.tool_call,
                job.on_complete is Some,
                if job.on_complete is Some {
                    outcome
                } else {
                    Ok(Script::Unit)
                },
                result,
            ),
        },
    }
}

/// A job is done, and its function, where it has one, has returned.
pub fn on_shell_complete(
    host: &mut HostState,
    id: i64,
    result: &JsonValue,
    outcome: Result<ScriptValue, String>,
) -> (out: Vec<ScriptOutput>)
    ensures
        final(host)@ == shell_completed(old(host)@, id, result@, script_result(outcome)).host,
        output_views(out@) == shell_completed(
            old(host)@,
            id,
            result@,
            script_result(outcome),
        ).out,
        old(host)@.is_sound() ==> final(host)@.is_sound(),
{
    let job = match host.take_job(id) {
        Some(job) => job,
        None => {
            return no_outputs();
        },
    };
    match prepare_completion(id, &job, result) {
        Err(message) => match job.tool_call {
            Some(call) => one_output(ScriptOutput::ToolError { call, message }),
            None => no_outputs(),
        },
        Ok(_) => {
            let had_callback = job.on_complete.is_some();
            let outcome = if had_callback {
                outcome
            } else {
                Ok(ScriptValue::Unit)
            };
            finish_completion(host, job.tool_call, had_callback, outcome, result)
        },
    }
}

/// What is to be called for an event that comes in.
#[derive(Debug)]
pub enum EventPlan {
    /// Nothing.
    Ignore,
    /// The handler of a tool.
    Tool(String),
    /// `on_event`, with the event and how it came.
    OnEvent(ScriptValue, ScriptValue),
    /// The event could not be told.
    Failed(String),
}

/// What is to be called for an event that comes in, as mathematics.
pub enum EventPlanView {
    Ignore,
    Tool(Seq<char>),
    OnEvent(Script, Script),
    Failed(Seq<char>),
}

impl View for EventPlan {
    type V = EventPlanView;

    open spec fn view(&self) -> EventPlanView {
        match self {
            EventPlan::Ignore => EventPlanView::Ignore,
            EventPlan::Tool(handler) => EventPlanView::Tool(handler@),
            EventPlan::OnEvent(event, meta) => EventPlanView::OnEvent(event@, meta@),
            EventPlan::Failed(message) => EventPlanView::Failed(message@),
        }
    }
}

/// What is to be called for an event: the handler of a tool of the script's own,
/// but not for history; else `on_event`, where the script has it.
pub open spec fn event_plan(
    host: HostView,
    functions: Seq<(Seq<char>, usize)>,
    tool: Option<Seq<char>>,
    event: Json,
    replay: bool,
    recorded_at: Option<u64>,
) -> EventPlanView {
    let handler = match tool {
        Some(name) => handler_of(host.tools, name),
        None => None,
    };
    match handler {
        Some(handler) => if replay {
            EventPlanView::Ignore
        } else {
            EventPlanView::Tool(handler)
        },
        None => match script_of_json(event) {
            Err(message) => EventPlanView::Failed(because("preparing on_event"@, message)),
            Ok(told) => match script_of_json(meta_of(replay, recorded_at)) {
                Err(message) => EventPlanView::Failed(
                    because("preparing on_event metadata"@, message),
                ),
                Ok(meta) => if has_fn(functions, "on_event"@, 2) {
                    EventPlanView::OnEvent(told, meta)
                } else {
                    EventPlanView::Ignore
                },
            },
        },
    }
}

/// What is to be called for an event that comes in. A tool call that starts
/// comes with the name of its tool.
pub fn plan_event(
    host: &HostState,
    functions: &Vec<(String, usize)>,
    tool: &Option<String>,
    event: &JsonValue,
    replay: bool,
    recorded_at: Option<u64>,
) -> (plan: EventPlan)
    ensures
        plan@ == event_plan(
            host@,
            function_views(functions@),
            opt_view(*tool),
            event@,
            replay,
            recorded_at,
        ),
{
    let handler = match tool {
        Some(name) => host.handler(name.as_str()),
        None => None,
    };
    if let Some(handler) = handler {
        return if replay {
            EventPlan::Ignore
        } else {
            EventPlan::Tool(handler)
        };
    }
    let told = match json_to_dynamic(event) {
        Ok(told) => told,
        Err(message) => {
            return EventPlan::Failed(because_text("preparing on_event", message.as_str()));
        },
    };
    let meta = match json_to_dynamic(&meta_json(replay, recorded_at)) {
        Ok(meta) => meta,
        Err(message) => {
            return EventPlan::Failed(
                because_text("preparing on_event metadata", message.as_str()),
            );
        },
    };
    if has_function(functions, "on_event", 2) {
        EventPlan::OnEvent(told, meta)
    } else {
        EventPlan::Ignore
    }
}

/// What is to be called once the harness is told that the script is ready.
#[derive(Clone, Copy, Debug, PartialEq, Eq, Structural)]
pub enum StartPlan {
    Nothing,
    /// `start`, with the configuration.
    WithConfig,
    /// `start`, without anything.
    Bare,
}

/// What is to be called once the script is ready.
pub fn plan_start(functions: &Vec<(String, usize)>) -> (plan: StartPlan)
    ensures
        plan == (if has_fn(function_views(functions@), "start"@, 1) {
            StartPlan::WithConfig
        } else if has_fn(function_views(functions@), "start"@, 0) {
            StartPlan::Bare
        } else {
            StartPlan::Nothing
        }),
{
    if has_function(functions, "start", 1) {
        StartPlan::WithConfig
    } else if has_function(functions, "start", 0) {
        StartPlan::Bare
    } else {
        StartPlan::Nothing
    }
}

/// The limits that a script runs under.
#[derive(Clone, Copy, Debug, PartialEq, Eq, Structural)]
pub struct Limits {
    pub max_operations: Option<u64>,
    pub max_call_levels: Option<usize>,
    pub max_expr_depth: Option<usize>,
}

/// How deep expressions of a script may be nested where it does not say.
pub const DEFAULT_MAX_EXPR_DEPTH: usize = 64;

impl Limits {
    /// How deep expressions may be nested.
    pub fn expr_depth(&self) -> (depth: usize)
        ensures
            depth == (match self.max_expr_depth {
                Some(depth) => depth,
                None => DEFAULT_MAX_EXPR_DEPTH,
            }),
    {
        match self.max_expr_depth {
            Some(depth) => depth,
            None => DEFAULT_MAX_EXPR_DEPTH,
        }
    }
}

/// What comes in before a script is configured.
#[derive(Clone, Copy, Debug, PartialEq, Eq, Structural)]
pub enum FirstMessage {
    Configure,
    Disconnect,
    Other,
}

/// Where the configuration stands among the first messages; nothing where the
/// harness goes before it.
pub open spec fn configured_at(messages: Seq<FirstMessage>) -> Option<int>
    decreases messages.len(),
{
    if messages.len() == 0 {
        None
    } else {
        match messages[0] {
            FirstMessage::Configure => Some(0),
            FirstMessage::Disconnect => None,
            FirstMessage::Other => match configured_at(messages.drop_first()) {
                Some(at) => Some(at + 1),
                None => None,
            },
        }
    }
}

/// Where the configuration stands among the first messages.
pub fn read_initial_config(messages: &Vec<FirstMessage>) -> (at: Option<usize>)
    ensures
        match at {
            Some(at) => configured_at(messages@) == Some(at as int),
            None => configured_at(messages@) is None,
        },
{
    let mut i: usize = 0;
    assert(messages@.skip(0) =~= messages@);
    while i < messages.len()
        invariant
            i <= messages@.len(),
            configured_at(messages@) == (match configured_at(messages@.skip(i as int)) {
                Some(at) => Some(at + i),
                None => None,
            }),
        decreases messages.len() - i,
    {
        assert(messages@.skip(i as int)[0] == messages@[i as int]);
        assert(messages@.skip(i as int).drop_first() =~= messages@.skip(i + 1));
        match messages[i] {
            FirstMessage::Configure => {
                return Some(i);
            },
            FirstMessage::Disconnect => {
                return None;
            },
            FirstMessage::Other => {},
        }
        i += 1;
    }
    None
}

/// What the loop of the extension hears.
#[derive(Clone, Copy, Debug, PartialEq, Eq, Structural)]
pub enum RuntimeInput {
    Deliver,
    Intercept,
    Disconnect,
    /// Something that counts for nothing once the script runs.
    Other,
    ShellComplete,
    /// The harness sends nothing more.
    ReaderClosed,
}

/// The loop of the extension.
#[derive(Clone, Copy, Debug, PartialEq, Eq, Structural)]
pub struct LoopState {
    /// Whether the script could be loaded.
    pub enabled: bool,
    pub reader_closed: bool,
    pub done: bool,
}

/// The loop after it heard something, and after that was handled; jobs may be
/// under way then.
pub open spec fn loop_after(state: LoopState, input: RuntimeInput, has_jobs: bool) -> LoopState {
    if state.done {
        state
    } else {
        match input {
            RuntimeInput::Disconnect => LoopState { done: true, ..state },
            RuntimeInput::ReaderClosed => LoopState {
                reader_closed: true,
                done: !state.enabled || !has_jobs,
                ..state
            },
            RuntimeInput::ShellComplete => LoopState {
                done: state.enabled && state.reader_closed && !has_jobs,
                ..state
            },
            _ => state,
        }
    }
}

impl LoopState {
    /// A loop that starts.
    pub fn start(enabled: bool) -> (state: LoopState)
        ensures
            state == (LoopState { enabled, reader_closed: false, done: false }),
    {
        LoopState { enabled, reader_closed: false, done: false }
    }

    /// The loop heard something, and it was handled.
    pub fn after(&mut self, input: RuntimeInput, has_jobs: bool)
        ensures
            *final(self) == loop_after(*old(self), input, has_jobs),
    {
        if self.done {
            return ;
        }
        match input {
            RuntimeInput::Disconnect => {
                self.done = true;
            },
            RuntimeInput::ReaderClosed => {
                self.reader_closed = true;
                self.done = !self.enabled || !has_jobs;
            },
            RuntimeInput::ShellComplete => {
                self.done = self.enabled && self.reader_closed && !has_jobs;
            },
            _ => {},
        }
    }
}

/// The reply for an event that was held back: where there is no script it
/// passes, and so it does where the script has no `on_intercept`.
pub open spec fn intercept_reply(
    enabled: bool,
    functions: Seq<(Seq<char>, usize)>,
    event: Json,
) -> Result<Script, Seq<OutputView>> {
    let pass = OutputView::Reply(ActionView::Pass(None));
    if !enabled {
        Err(seq![pass])
    } else {
        match script_of_json(event) {
            Err(message) => Err(
                seq![warning(because("preparing on_intercept"@, message)), pass],
            ),
            Ok(told) => if has_fn(functions, "on_intercept"@, 1) {
                Ok(told)
            } else {
                Err(seq![pass])
            },
        }
    }
}

/// What `on_intercept` is called with; the reply where it is not called.
pub fn plan_intercept(enabled: bool, functions: &Vec<(String, usize)>, event: &JsonValue) -> (r: Result<
    ScriptValue,
    Vec<ScriptOutput>,
>)
    ensures
        match r {
            Ok(told) => intercept_reply(enabled, function_views(functions@), event@) == Ok::<
                Script,
                Seq<OutputView>,
            >(told@),
            Err(out) => intercept_reply(enabled, function_views(functions@), event@) == Err::<
                Script,
                Seq<OutputView>,
            >(output_views(out@)),
        },
{
    if !enabled {
        return Err(one_output(ScriptOutput::Reply(InterceptAction::Pass(None))));
    }
    match json_to_dynamic(event) {
        Err(message) => {
            let failed = callback_error("preparing on_intercept", message.as_str());
            let reply = ScriptOutput::Reply(InterceptAction::Pass(None));
            let mut out = one_output(failed);
            crate::scripting::message::push_output(&mut out, reply);
            assert(output_views(out@) =~= seq![failed@, reply@]);
            Err(out)
        },
        Ok(told) => {
            if has_function(functions, "on_intercept", 1) {
                Ok(told)
            } else {
                Err(one_output(ScriptOutput::Reply(InterceptAction::Pass(None))))
            }
        },
    }
}

} // verus!
