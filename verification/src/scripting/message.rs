//! What a script says to the harness.

use vstd::prelude::*;

use crate::json::{
    get, get_text, group_json_views, json_text, member, member_views, opt_json, push_member,
    text_at, Json, JsonValue,
};
use crate::scripting::host::{
    named, named_text, register_views, CallView, JobView, PendingShellJob, PendingToolCall,
    RegisterView, ToolRegister,
};
use crate::scripting::value::{
    dynamic_to_json, json_of_script, script_result, Script, ScriptValue,
};
use crate::text::{decimal, decimal_of, opt_view, same_text, views};
use crate::value::{Cbor, CborValue};

verus! {

/// How much a notice matters.
#[derive(Clone, Copy, Debug, PartialEq, Eq, Structural)]
pub enum NoticeLevel {
    Trace,
    Debug,
    Info,
    Warning,
}

/// What is to be done with an event that was held back.
#[derive(Debug)]
pub enum InterceptAction {
    /// It goes on, as it was or as another event.
    Pass(Option<JsonValue>),
    Drop,
}

/// What is to be done with an event, as mathematics.
pub enum ActionView {
    Pass(Option<Json>),
    Drop,
}

impl View for InterceptAction {
    type V = ActionView;

    open spec fn view(&self) -> ActionView {
        match self {
            InterceptAction::Pass(event) => ActionView::Pass(opt_json(*event)),
            InterceptAction::Drop => ActionView::Drop,
        }
    }
}

/// What a script says to the harness.
#[derive(Debug)]
pub enum ScriptOutput {
    Subscribe(Vec<String>),
    Intercept { selectors: Vec<String>, priority: i64 },
    Register(ToolRegister),
    Ready(String),
    ConfigError(String),
    Notice { message: String, level: NoticeLevel },
    Emit(JsonValue),
    ToolResult { call: PendingToolCall, result: CborValue },
    ToolError { call: PendingToolCall, message: String },
    Reply(InterceptAction),
}

/// What a script says to the harness, as mathematics.
pub enum OutputView {
    Subscribe(Seq<Seq<char>>),
    Intercept { selectors: Seq<Seq<char>>, priority: i64 },
    Register(RegisterView),
    Ready(Seq<char>),
    ConfigError(Seq<char>),
    Notice { message: Seq<char>, level: NoticeLevel },
    Emit(Json),
    ToolResult { call: CallView, result: Cbor },
    ToolError { call: CallView, message: Seq<char> },
    Reply(ActionView),
}

impl View for ScriptOutput {
    type V = OutputView;

    open spec fn view(&self) -> OutputView {
        match self {
            ScriptOutput::Subscribe(selectors) => OutputView::Subscribe(views(selectors@)),
            ScriptOutput::Intercept { selectors, priority } => OutputView::Intercept {
                selectors: views(selectors@),
                priority: *priority,
            },
            ScriptOutput::Register(register) => OutputView::Register(register@),
            ScriptOutput::Ready(message) => OutputView::Ready(message@),
            ScriptOutput::ConfigError(message) => OutputView::ConfigError(message@),
            ScriptOutput::Notice { message, level } => OutputView::Notice {
                message: message@,
                level: *level,
            },
            ScriptOutput::Emit(event) => OutputView::Emit(event@),
            ScriptOutput::ToolResult { call, result } => OutputView::ToolResult {
                call: call@,
                result: result@,
            },
            ScriptOutput::ToolError { call, message } => OutputView::ToolError {
                call: call@,
                message: message@,
            },
            ScriptOutput::Reply(action) => OutputView::Reply(action@),
        }
    }
}

/// The views of a list of outputs.
pub open spec fn output_views(out: Seq<ScriptOutput>) -> Seq<OutputView> {
    out.map_values(|o: ScriptOutput| o@)
}

/// Adds an output.
pub fn push_output(out: &mut Vec<ScriptOutput>, output: ScriptOutput)
    ensures
        output_views(final(out)@) == output_views(old(out)@) + seq![output@],
{
    let ghost before = out@;
    out.push(output);
    assert(output_views(out@) =~= output_views(before) + seq![output@]);
}

/// No outputs.
pub fn no_outputs() -> (out: Vec<ScriptOutput>)
    ensures
        output_views(out@) == Seq::<OutputView>::empty(),
{
    let out: Vec<ScriptOutput> = Vec::new();
    assert(output_views(out@) =~= Seq::<OutputView>::empty());
    out
}

/// One output.
pub fn one_output(output: ScriptOutput) -> (out: Vec<ScriptOutput>)
    ensures
        output_views(out@) == seq![output@],
{
    let mut out = no_outputs();
    push_output(&mut out, output);
    assert(Seq::<OutputView>::empty() + seq![output@] =~= seq![output@]);
    out
}

/// The level that a name stands for.
pub open spec fn level_of(name: Seq<char>) -> NoticeLevel {
    if name == "critical"@ || name == "warning"@ || name == "important"@ {
        NoticeLevel::Warning
    } else if name == "debug"@ {
        NoticeLevel::Debug
    } else if name == "trace"@ {
        NoticeLevel::Trace
    } else {
        NoticeLevel::Info
    }
}

/// The level that a name stands for.
pub fn parse_info_level(name: &str) -> (level: NoticeLevel)
    ensures
        level == level_of(name@),
{
    if same_text(name, "critical") || same_text(name, "warning") || same_text(name, "important") {
        NoticeLevel::Warning
    } else if same_text(name, "debug") {
        NoticeLevel::Debug
    } else if same_text(name, "trace") {
        NoticeLevel::Trace
    } else {
        NoticeLevel::Info
    }
}

/// A word with a reason behind it.
pub open spec fn because(before: Seq<char>, reason: Seq<char>) -> Seq<char> {
    before + ": "@ + reason
}

/// A word with a reason behind it.
pub fn because_text(before: &str, reason: &str) -> (text: String)
    ensures
        text@ == because(before@, reason@),
{
    let mut text = before.to_owned();
    text.append(": ");
    text.append(reason);
    text
}

/// The notice that something of a script failed.
pub open spec fn warning(message: Seq<char>) -> OutputView {
    OutputView::Notice { message, level: NoticeLevel::Warning }
}

/// The notice that something of a script failed.
pub fn callback_error(before: &str, reason: &str) -> (output: ScriptOutput)
    ensures
        output@ == warning(because(before@, reason@)),
{
    ScriptOutput::Notice { message: because_text(before, reason), level: NoticeLevel::Warning }
}

/// What an event that a script emits comes to: the event, or the word that it is
/// none.
pub open spec fn emitted(event: Script, refused: Option<Seq<char>>) -> OutputView {
    match json_of_script(event) {
        Err(message) => warning(because("rhai invalid event"@, message)),
        Ok(json) => match refused {
            Some(message) => warning(because("rhai invalid event"@, message)),
            None => OutputView::Emit(json),
        },
    }
}

/// What an event that a script emits comes to, given why the harness knows no
/// such event.
pub fn enqueue_event(event: &ScriptValue, refused: &Option<String>) -> (output: ScriptOutput)
    ensures
        output@ == emitted(event@, opt_view(*refused)),
{
    match dynamic_to_json(event) {
        Err(message) => callback_error("rhai invalid event", message.as_str()),
        Ok(json) => match refused {
            Some(message) => callback_error("rhai invalid event", message.as_str()),
            None => ScriptOutput::Emit(json),
        },
    }
}

/// Events that are held back for a script.
#[derive(Debug)]
pub struct InitIntercept {
    pub selectors: Vec<String>,
    pub priority: i64,
}

/// Events that are held back, as mathematics.
pub struct InterceptView {
    pub selectors: Seq<Seq<char>>,
    pub priority: i64,
}

impl View for InitIntercept {
    type V = InterceptView;

    open spec fn view(&self) -> InterceptView {
        InterceptView { selectors: views(self.selectors@), priority: self.priority }
    }
}

/// The views of a list of such events.
pub open spec fn intercept_views(list: Seq<InitIntercept>) -> Seq<InterceptView> {
    list.map_values(|i: InitIntercept| i@)
}

/// What the `init` of a script asks for.
#[derive(Debug)]
pub struct InitOutput {
    pub subscribe: Vec<String>,
    pub intercept: Vec<InitIntercept>,
    pub ready_message: Option<String>,
}

/// What the `init` of a script asks for, as mathematics.
pub struct InitView {
    pub subscribe: Seq<Seq<char>>,
    pub intercept: Seq<InterceptView>,
    pub ready_message: Option<Seq<char>>,
}

impl View for InitOutput {
    type V = InitView;

    open spec fn view(&self) -> InitView {
        InitView {
            subscribe: views(self.subscribe@),
            intercept: intercept_views(self.intercept@),
            ready_message: opt_view(self.ready_message),
        }
    }
}

impl InitView {
    /// An `init` that asks for nothing.
    pub open spec fn nothing() -> InitView {
        InitView { subscribe: seq![], intercept: seq![], ready_message: None }
    }
}

impl InitOutput {
    /// An `init` that asks for nothing.
    pub fn nothing() -> (init: InitOutput)
        ensures
            init@ == InitView::nothing(),
    {
        let init = InitOutput {
            subscribe: Vec::new(),
            intercept: Vec::new(),
            ready_message: None,
        };
        assert(init@.subscribe =~= seq![]);
        assert(init@.intercept =~= seq![]);
        init
    }
}

/// All selectors of some entries, one after the other.
pub open spec fn all_selectors(list: Seq<InterceptView>) -> Seq<Seq<char>>
    decreases list.len(),
{
    if list.len() == 0 {
        seq![]
    } else {
        all_selectors(list.drop_last()) + list.last().selectors
    }
}

/// What an `init` asks for with its entries put into one; they have to have one
/// priority.
pub open spec fn normalized(init: InitView) -> Result<InitView, Seq<char>> {
    let list = init.intercept;
    if list.len() == 0 {
        Ok(init)
    } else if exists|i: int| 0 <= i < list.len() && (#[trigger] list[i]).priority
        != list[0].priority {
        Err("init intercept entries must all use the same priority"@)
    } else {
        Ok(
            InitView {
                intercept: seq![
                    InterceptView { selectors: all_selectors(list), priority: list[0].priority },
                ],
                ..init
            },
        )
    }
}

/// The view of what an `init` asks for, or of a message.
pub open spec fn init_result(r: Result<InitOutput, String>) -> Result<InitView, Seq<char>> {
    match r {
        Ok(init) => Ok(init@),
        Err(message) => Err(message@),
    }
}

/// Puts the entries of an `init` into one.
pub fn normalize_init_output(init: InitOutput) -> (r: Result<InitOutput, String>)
    ensures
        init_result(r) == normalized(init@),
{
    let ghost list = intercept_views(init.intercept@);
    assert(list.len() == init.intercept@.len());
    if init.intercept.len() == 0 {
        return Ok(init);
    }
    let priority = init.intercept[0].priority;
    assert(list[0].priority == priority);
    let mut selectors: Vec<String> = Vec::new();
    let mut same = true;
    assert(views(selectors@) =~= all_selectors(list.take(0)));
    for entry in iter: init.intercept
        invariant
            list == intercept_views(iter.seq()),
            same ==> forall|i: int|
                0 <= i < iter.index() ==> (#[trigger] list[i]).priority == priority,
            !same ==> exists|i: int|
                0 <= i < iter.index() && (#[trigger] list[i]).priority != priority,
            views(selectors@) == all_selectors(list.take(iter.index())),
    {
        let ghost i = iter.index();
        assert(list[i] == entry@);
        assert(list.take(i + 1).drop_last() =~= list.take(i));
        assert(list.take(i + 1).last() == entry@);
        if entry.priority != priority {
            same = false;
        }
        let ghost before = selectors@;
        let mut more = entry.selectors;
        let ghost added = more@;
        selectors.append(&mut more);
        assert(views(selectors@) =~= views(before) + views(added));
    }
    assert(list.take(list.len() as int) =~= list);
    if !same {
        return Err("init intercept entries must all use the same priority".to_owned());
    }
    let mut intercept: Vec<InitIntercept> = Vec::new();
    let entry = InitIntercept { selectors, priority };
    intercept.push(entry);
    assert(intercept_views(intercept@) =~= seq![entry@]);
    Ok(InitOutput { subscribe: init.subscribe, intercept, ready_message: init.ready_message })
}

/// What comes of the `init` of a script.
pub open spec fn init_outcome(
    has_init: bool,
    outcome: Result<Script, Seq<char>>,
    parsed: Result<InitView, Seq<char>>,
) -> Result<InitView, Seq<char>> {
    if !has_init {
        Ok(InitView::nothing())
    } else {
        match outcome {
            Ok(Script::Unit) => Ok(InitView::nothing()),
            Ok(value) => match json_of_script(value) {
                Err(message) => Err(message),
                Ok(_) => match parsed {
                    Err(message) => Err(message),
                    Ok(init) => normalized(init),
                },
            },
            Err(message) => Err(because("running init"@, message)),
        }
    }
}

/// What comes of the `init` of a script, given what it returned and what that was
/// read as.
pub fn finish_init(
    has_init: bool,
    outcome: Result<ScriptValue, String>,
    parsed: Result<InitOutput, String>,
) -> (r: Result<InitOutput, String>)
    ensures
        init_result(r) == init_outcome(has_init, script_result(outcome), init_result(parsed)),
{
    if !has_init {
        return Ok(InitOutput::nothing());
    }
    match outcome {
        Ok(value) => {
            if let ScriptValue::Unit = value {
                return Ok(InitOutput::nothing());
            }
            match dynamic_to_json(&value) {
                Err(message) => Err(message),
                Ok(_) => match parsed {
                    Err(message) => Err(message),
                    Ok(init) => normalize_init_output(init),
                },
            }
        },
        Err(message) => Err(because_text("running init", message.as_str())),
    }
}

/// What is sent to the harness once `init` is over.
pub open spec fn init_messages(init: InitView, registers: Seq<RegisterView>) -> Seq<OutputView> {
    (if init.subscribe.len() > 0 {
        seq![OutputView::Subscribe(init.subscribe)]
    } else {
        seq![]
    }) + init.intercept.map_values(
        |i: InterceptView| OutputView::Intercept { selectors: i.selectors, priority: i.priority },
    ) + registers.map_values(|r: RegisterView| OutputView::Register(r)) + seq![
        OutputView::Ready(
            match init.ready_message {
                Some(message) => message,
                None => "rhai ready"@,
            },
        ),
    ]
}

/// What is sent to the harness once `init` is over.
pub fn send_init_messages(init: InitOutput, registers: Vec<ToolRegister>) -> (out: Vec<ScriptOutput>)
    ensures
        output_views(out@) == init_messages(init@, register_views(registers@)),
{
    let ghost whole = init@;
    let ghost all = register_views(registers@);
    let ghost first = if whole.subscribe.len() > 0 {
        seq![OutputView::Subscribe(whole.subscribe)]
    } else {
        seq![]
    };
    let ghost second = whole.intercept.map_values(
        |i: InterceptView| OutputView::Intercept { selectors: i.selectors, priority: i.priority },
    );
    let ghost third = all.map_values(|r: RegisterView| OutputView::Register(r));
    let mut out = no_outputs();
    assert(views(init.subscribe@).len() == init.subscribe@.len());
    if init.subscribe.len() > 0 {
        push_output(&mut out, ScriptOutput::Subscribe(init.subscribe));
    }
    assert(output_views(out@) =~= first);
    assert(first + second.take(0) =~= first);
    for entry in iter: init.intercept
        invariant
            second == intercept_views(iter.seq()).map_values(
                |i: InterceptView|
                    OutputView::Intercept { selectors: i.selectors, priority: i.priority },
            ),
            output_views(out@) == first + second.take(iter.index()),
    {
        let ghost i = iter.index();
        let ghost before = output_views(out@);
        let output = ScriptOutput::Intercept {
            selectors: entry.selectors,
            priority: entry.priority,
        };
        assert(intercept_views(iter.seq())[i] == entry@);
        assert(output@ == second[i]);
        push_output(&mut out, output);
        assert(before + seq![output@] =~= first + second.take(i + 1));
    }
    assert(second.take(second.len() as int) =~= second);
    let ghost so_far = first + second;
    assert(so_far + third.take(0) =~= so_far);
    for register in iter: registers
        invariant
            third == register_views(iter.seq()).map_values(
                |r: RegisterView| OutputView::Register(r),
            ),
            output_views(out@) == so_far + third.take(iter.index()),
    {
        let ghost i = iter.index();
        let ghost before = output_views(out@);
        let output = ScriptOutput::Register(register);
        assert(register_views(iter.seq())[i] == register@);
        assert(output@ == third[i]);
        push_output(&mut out, output);
        assert(before + seq![output@] =~= so_far + third.take(i + 1));
    }
    assert(third.take(third.len() as int) =~= third);
    let message = match init.ready_message {
        Some(message) => message,
        None => "rhai ready".to_owned(),
    };
    push_output(&mut out, ScriptOutput::Ready(message));
    out
}

/// What is sent to the harness where a script cannot run.
pub open spec fn disabled_messages(message: Seq<char>) -> Seq<OutputView> {
    seq![
        OutputView::ConfigError(message),
        OutputView::Ready(because("rhai disabled"@, message)),
    ]
}

/// What is sent to the harness where a script cannot run.
pub fn send_config_error_ready(message: String) -> (out: Vec<ScriptOutput>)
    ensures
        output_views(out@) == disabled_messages(message@),
{
    let ghost m = message@;
    let ready = because_text("rhai disabled", message.as_str());
    let mut out = no_outputs();
    push_output(&mut out, ScriptOutput::ConfigError(message));
    push_output(&mut out, ScriptOutput::Ready(ready));
    assert(output_views(out@) =~= disabled_messages(m));
    out
}

/// What a script is told of its configuration.
pub open spec fn config_json(vars: Json, state_dir: Option<Seq<char>>) -> Json {
    Json::Object(
        seq![
            ("vars"@, vars),
            (
                "state_dir"@,
                match state_dir {
                    Some(dir) => Json::Text(dir),
                    None => Json::Null,
                },
            ),
        ],
    )
}

/// What a script is told of its configuration.
pub fn init_config_json(vars: &JsonValue, state_dir: &Option<String>) -> (value: JsonValue)
    ensures
        value@ == config_json(vars@, opt_view(*state_dir)),
{
    broadcast use group_json_views;

    let dir = match state_dir {
        Some(dir) => json_text(dir.as_str()),
        None => JsonValue::Null,
    };
    let mut members: Vec<(String, JsonValue)> = Vec::new();
    assert(member_views(members@) =~= seq![]);
    push_member(&mut members, "vars", vars.copy());
    push_member(&mut members, "state_dir", dir);
    assert(member_views(members@) =~= config_json(vars@, opt_view(*state_dir))->Object_0);
    JsonValue::Object(members)
}

/// What a script says about an event that was held back, or why that cannot be
/// understood. An event in its place is refused where the harness knows none
/// such.
pub open spec fn action_of(value: Script, refused: Option<Seq<char>>) -> Result<
    ActionView,
    Seq<char>,
> {
    match value {
        Script::Unit => Ok(ActionView::Pass(None)),
        Script::Text(text) => if text == "pass"@ {
            Ok(ActionView::Pass(None))
        } else if text == "drop"@ {
            Ok(ActionView::Drop)
        } else {
            Err(named("unknown action string"@, text))
        },
        _ => match json_of_script(value) {
            Err(message) => Err(message),
            Ok(json) => action_in(json, refused),
        },
    }
}

/// What a map says about an event that was held back.
pub open spec fn action_in(json: Json, refused: Option<Seq<char>>) -> Result<ActionView, Seq<char>> {
    if !(json is Object) {
        Err("result must be (), string, or map"@)
    } else {
        match text_at(json, "kind"@) {
            None => Err("result map needs string `kind`"@),
            Some(kind) => if kind == "pass"@ {
                match member(json, "event"@) {
                    Some(event) => match refused {
                        Some(message) => Err(message),
                        None => Ok(ActionView::Pass(Some(event))),
                    },
                    None => Ok(ActionView::Pass(None)),
                }
            } else if kind == "drop"@ {
                Ok(ActionView::Drop)
            } else {
                Err(named("unknown action kind"@, kind))
            },
        }
    }
}

/// What a script says about an event that was held back.
pub fn parse_intercept_action(value: &ScriptValue, refused: &Option<String>) -> (r: Result<
    InterceptAction,
    String,
>)
    ensures
        match r {
            Ok(action) => action_of(value@, opt_view(*refused)) == Ok::<ActionView, Seq<char>>(
                action@,
            ),
            Err(message) => action_of(value@, opt_view(*refused)) == Err::<ActionView, Seq<char>>(
                message@,
            ),
        },
{
    match value {
        ScriptValue::Unit => {
            return Ok(InterceptAction::Pass(None));
        },
        ScriptValue::Text(text) => {
            return if same_text(text.as_str(), "pass") {
                Ok(InterceptAction::Pass(None))
            } else if same_text(text.as_str(), "drop") {
                Ok(InterceptAction::Drop)
            } else {
                Err(named_text("unknown action string", text.as_str()))
            };
        },
        _ => {},
    }
    let json = match dynamic_to_json(value) {
        Ok(json) => json,
        Err(message) => {
            return Err(message);
        },
    };
    let is_map = match &json {
        JsonValue::Object(_) => true,
        _ => false,
    };
    if !is_map {
        return Err("result must be (), string, or map".to_owned());
    }
    match get_text(&json, "kind") {
        None => Err("result map needs string `kind`".to_owned()),
        Some(kind) => {
            if same_text(kind.as_str(), "pass") {
                match get(&json, "event") {
                    Some(event) => match refused {
                        Some(message) => Err(message.clone()),
                        None => Ok(InterceptAction::Pass(Some(event.copy()))),
                    },
                    None => Ok(InterceptAction::Pass(None)),
                }
            } else if same_text(kind.as_str(), "drop") {
                Ok(InterceptAction::Drop)
            } else {
                Err(named_text("unknown action kind", kind.as_str()))
            }
        },
    }
}

/// What comes of a call about an event that was held back: a failure lets the
/// event pass.
pub open spec fn intercepted(
    outcome: Result<Script, Seq<char>>,
    refused: Option<Seq<char>>,
) -> Seq<OutputView> {
    match outcome {
        Err(message) => seq![
            warning(because("rhai on_intercept failed"@, message)),
            OutputView::Reply(ActionView::Pass(None)),
        ],
        Ok(value) => match action_of(value, refused) {
            Ok(action) => seq![OutputView::Reply(action)],
            Err(message) => seq![
                warning(because("invalid on_intercept result"@, message)),
                OutputView::Reply(ActionView::Pass(None)),
            ],
        },
    }
}

/// What comes of a call about an event that was held back.
pub fn finish_intercept(outcome: Result<ScriptValue, String>, refused: &Option<String>) -> (out: Vec<
    ScriptOutput,
>)
    ensures
        output_views(out@) == intercepted(script_result(outcome), opt_view(*refused)),
{
    let failed: ScriptOutput = match outcome {
        Err(message) => callback_error("rhai on_intercept failed", message.as_str()),
        Ok(value) => match parse_intercept_action(&value, refused) {
            Ok(action) => {
                return one_output(ScriptOutput::Reply(action));
            },
            Err(message) => callback_error("invalid on_intercept result", message.as_str()),
        },
    };
    let mut out = one_output(failed);
    let reply = ScriptOutput::Reply(InterceptAction::Pass(None));
    push_output(&mut out, reply);
    assert(output_views(out@) =~= seq![failed@, reply@]);
    out
}

/// A number that a script is told, as a text where it does not fit.
pub open spec fn meta_number(value: u64) -> Json {
    if value <= i64::MAX {
        Json::Integer(value as int)
    } else {
        Json::Text(decimal_of(value as nat))
    }
}

/// A number that a script is told.
pub fn u64_meta_value(value: u64) -> (json: JsonValue)
    ensures
        json@ == meta_number(value),
{
    if value <= 9223372036854775807u64 {
        JsonValue::Integer(value as i128)
    } else {
        JsonValue::Text(decimal(value))
    }
}

/// What a script is told of how an event came.
pub open spec fn meta_of(replay: bool, recorded_at: Option<u64>) -> Json {
    Json::Object(
        seq![("replay"@, Json::Bool(replay))] + match recorded_at {
            Some(at) => seq![("recorded_at"@, meta_number(at))],
            None => seq![],
        },
    )
}

/// What a script is told of how an event came.
pub fn meta_json(replay: bool, recorded_at: Option<u64>) -> (json: JsonValue)
    ensures
        json@ == meta_of(replay, recorded_at),
{
    broadcast use group_json_views;

    let mut members: Vec<(String, JsonValue)> = Vec::new();
    assert(member_views(members@) =~= seq![]);
    push_member(&mut members, "replay", JsonValue::Bool(replay));
    if let Some(at) = recorded_at {
        push_member(&mut members, "recorded_at", u64_meta_value(at));
    }
    assert(member_views(members@) =~= meta_of(replay, recorded_at)->Object_0);
    JsonValue::Object(members)
}

/// What a script is told of a job that is done.
pub open spec fn job_json(id: i64, job: JobView) -> Json {
    Json::Object(
        seq![
            ("id"@, Json::Integer(id as int)),
            ("command"@, Json::Text(job.command)),
        ] + match job.tag {
            Some(tag) => match json_of_script(tag) {
                Ok(tag) => seq![("tag"@, tag)],
                Err(_) => seq![],
            },
            None => seq![],
        },
    )
}

/// What a script is told of a job that is done.
pub fn shell_job_json(id: i64, job: &PendingShellJob) -> (json: JsonValue)
    ensures
        json@ == job_json(id, job@),
{
    broadcast use group_json_views;

    let mut members: Vec<(String, JsonValue)> = Vec::new();
    assert(member_views(members@) =~= seq![]);
    push_member(&mut members, "id", JsonValue::Integer(id as i128));
    push_member(&mut members, "command", json_text(job.command.as_str()));
    if let Some(tag) = &job.tag {
        if let Ok(tag) = dynamic_to_json(tag) {
            push_member(&mut members, "tag", tag);
        }
    }
    assert(member_views(members@) =~= job_json(id, job@)->Object_0);
    JsonValue::Object(members)
}

} // verus!
