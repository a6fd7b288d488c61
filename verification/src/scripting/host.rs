//! What a script asks of its host: tools to register, and jobs to run.

use vstd::prelude::*;

use crate::json::{opt_json, Json, JsonValue};
use crate::proto::{OriginatorView, PromptOriginator};
use crate::scripting::value::{
    dict_views, dynamic_to_json, json_of_script, Script, ScriptValue,
};
use crate::text::{decimal, decimal_of, opt_view, push_text, same_text, views};

verus! {

/// How many jobs may run at once.
pub const MAX_PENDING_SHELL_JOBS: usize = 32;

/// How long a job may run where it does not say, in seconds.
pub const DEFAULT_SHELL_TIMEOUT_SECS: i64 = 120;

/// A tool that a script registers.
#[derive(Debug)]
pub struct ToolSpec {
    pub name: String,
    pub model_visible_name: Option<String>,
    pub description: Option<String>,
    pub parameters: Option<JsonValue>,
    pub enabled_by_default: bool,
}

/// A tool that a script registers, as mathematics.
pub struct ToolSpecView {
    pub name: Seq<char>,
    pub model_visible_name: Option<Seq<char>>,
    pub description: Option<Seq<char>>,
    pub parameters: Option<Json>,
    pub enabled_by_default: bool,
}

impl View for ToolSpec {
    type V = ToolSpecView;

    open spec fn view(&self) -> ToolSpecView {
        ToolSpecView {
            name: self.name@,
            model_visible_name: opt_view(self.model_visible_name),
            description: opt_view(self.description),
            parameters: opt_json(self.parameters),
            enabled_by_default: self.enabled_by_default,
        }
    }
}

/// A copy of an optional value.
pub fn copy_opt_json(value: &Option<JsonValue>) -> (copy: Option<JsonValue>)
    ensures
        opt_json(copy) == opt_json(*value),
{
    match value {
        Some(value) => Some(value.copy()),
        None => None,
    }
}

impl ToolSpec {
    /// A copy.
    pub fn copy(&self) -> (spec: ToolSpec)
        ensures
            spec@ == self@,
    {
        ToolSpec {
            name: self.name.clone(),
            model_visible_name: self.model_visible_name.clone(),
            description: self.description.clone(),
            parameters: copy_opt_json(&self.parameters),
            enabled_by_default: self.enabled_by_default,
        }
    }
}

/// A tool with its group and the function that handles its calls.
#[derive(Debug)]
pub struct StagedTool {
    pub spec: ToolSpec,
    pub group: Option<String>,
    pub handler: String,
}

/// A tool with its group and handler, as mathematics.
pub struct StagedView {
    pub spec: ToolSpecView,
    pub group: Option<Seq<char>>,
    pub handler: Seq<char>,
}

impl View for StagedTool {
    type V = StagedView;

    open spec fn view(&self) -> StagedView {
        StagedView { spec: self.spec@, group: opt_view(self.group), handler: self.handler@ }
    }
}

/// The views of a list of tools.
pub open spec fn staged_views(tools: Seq<StagedTool>) -> Seq<StagedView> {
    tools.map_values(|t: StagedTool| t@)
}

/// A call of a tool that waits for its result.
#[derive(Debug)]
pub struct PendingToolCall {
    pub call_id: String,
    pub tool_name: String,
    pub originator: PromptOriginator,
}

/// A call of a tool that waits, as mathematics.
pub struct CallView {
    pub call_id: Seq<char>,
    pub tool_name: Seq<char>,
    pub originator: OriginatorView,
}

impl View for PendingToolCall {
    type V = CallView;

    open spec fn view(&self) -> CallView {
        CallView {
            call_id: self.call_id@,
            tool_name: self.tool_name@,
            originator: self.originator@,
        }
    }
}

/// The view of an optional call.
pub open spec fn opt_call(call: Option<PendingToolCall>) -> Option<CallView> {
    match call {
        Some(call) => Some(call@),
        None => None,
    }
}

/// A job that runs in a shell.
#[derive(Debug)]
pub struct PendingShellJob {
    pub command: String,
    /// The function that is called once the job is done.
    pub on_complete: Option<String>,
    /// The call that waits for the job.
    pub tool_call: Option<PendingToolCall>,
    /// Whether the job was given as the result of a call.
    pub tool_claimed: bool,
    pub tag: Option<ScriptValue>,
}

/// A job that runs in a shell, as mathematics.
pub struct JobView {
    pub command: Seq<char>,
    pub on_complete: Option<Seq<char>>,
    pub tool_call: Option<CallView>,
    pub tool_claimed: bool,
    pub tag: Option<Script>,
}

/// The view of an optional value.
pub open spec fn opt_script(value: Option<ScriptValue>) -> Option<Script> {
    match value {
        Some(value) => Some(value@),
        None => None,
    }
}

impl View for PendingShellJob {
    type V = JobView;

    open spec fn view(&self) -> JobView {
        JobView {
            command: self.command@,
            on_complete: opt_view(self.on_complete),
            tool_call: opt_call(self.tool_call),
            tool_claimed: self.tool_claimed,
            tag: opt_script(self.tag),
        }
    }
}

/// The views of a list of jobs.
pub open spec fn job_views(jobs: Seq<(i64, PendingShellJob)>) -> Seq<(i64, JobView)> {
    jobs.map_values(|j: (i64, PendingShellJob)| (j.0, j.1@))
}

/// What the host of a script knows.
#[derive(Debug)]
pub struct HostState {
    init_active: bool,
    groups: Vec<String>,
    tools: Vec<StagedTool>,
    next_job_id: i64,
    jobs: Vec<(i64, PendingShellJob)>,
}

/// What the host of a script knows, as mathematics.
pub struct HostView {
    /// Whether the script is in its `init`.
    pub init_active: bool,
    pub groups: Seq<Seq<char>>,
    pub tools: Seq<StagedView>,
    /// The number of the job that was started last.
    pub next_job_id: int,
    /// The jobs that are not done, in the order of their numbers.
    pub jobs: Seq<(i64, JobView)>,
}

impl View for HostState {
    type V = HostView;

    closed spec fn view(&self) -> HostView {
        HostView {
            init_active: self.init_active,
            groups: views(self.groups@),
            tools: staged_views(self.tools@),
            next_job_id: self.next_job_id as int,
            jobs: job_views(self.jobs@),
        }
    }
}

impl HostView {
    /// A host that was asked for nothing.
    pub open spec fn fresh() -> HostView {
        HostView {
            init_active: false,
            groups: seq![],
            tools: seq![],
            next_job_id: 0,
            jobs: seq![],
        }
    }

    /// Whether the numbers of the jobs go up, to that of the last one started,
    /// and no more jobs run than may.
    pub open spec fn is_sound(self) -> bool {
        &&& 0 <= self.next_job_id
        &&& self.jobs.len() <= MAX_PENDING_SHELL_JOBS
        &&& forall|i: int|
            0 <= i < self.jobs.len() ==> 0 < (#[trigger] self.jobs[i]).0 <= self.next_job_id
        &&& forall|i: int, j: int|
            0 <= i < j < self.jobs.len() ==> #[trigger] self.jobs[i].0 < #[trigger] self.jobs[j].0
    }
}

/// The value of the first entry with a key.
pub open spec fn find_entry(entries: Seq<(Seq<char>, Script)>, key: Seq<char>) -> Option<Script>
    decreases entries.len(),
{
    if entries.len() == 0 {
        None
    } else if entries[0].0 == key {
        Some(entries[0].1)
    } else {
        find_entry(entries.drop_first(), key)
    }
}

/// The value of an entry of a map.
pub fn get_entry<'a>(map: &'a Vec<(String, ScriptValue)>, key: &str) -> (found: Option<
    &'a ScriptValue,
>)
    ensures
        match found {
            Some(v) => find_entry(dict_views(map@), key@) == Some(v@),
            None => find_entry(dict_views(map@), key@) is None,
        },
{
    let ghost all = dict_views(map@);
    let mut i: usize = 0;
    assert(all.skip(0) =~= all);
    while i < map.len()
        invariant
            i <= map@.len(),
            all == dict_views(map@),
            find_entry(all.skip(i as int), key@) == find_entry(all, key@),
        decreases map.len() - i,
    {
        assert(all.skip(i as int)[0] == (map@[i as int].0@, map@[i as int].1@));
        if same_text(map[i].0.as_str(), key) {
            return Some(&map[i].1);
        }
        i += 1;
        assert(all.skip(i - 1).drop_first() =~= all.skip(i as int));
    }
    None
}

/// The word that a field is not of its type.
pub open spec fn field_error(key: Seq<char>, what: Seq<char>) -> Seq<char> {
    "field `"@ + key + "` must be "@ + what
}

/// The word that a field is not of its type.
fn field_error_text(key: &str, what: &str) -> (text: String)
    ensures
        text@ == field_error(key@, what@),
{
    let mut text = "field `".to_owned();
    text.append(key);
    text.append("` must be ");
    text.append(what);
    text
}

/// A text field that may be left out.
pub open spec fn text_field(entries: Seq<(Seq<char>, Script)>, key: Seq<char>) -> Result<
    Option<Seq<char>>,
    Seq<char>,
> {
    match find_entry(entries, key) {
        Some(Script::Text(text)) => Ok(Some(text)),
        Some(_) => Err(field_error(key, "a string"@)),
        None => Ok(None),
    }
}

/// A truth value that may be left out.
pub open spec fn bool_field(entries: Seq<(Seq<char>, Script)>, key: Seq<char>) -> Result<
    Option<bool>,
    Seq<char>,
> {
    match find_entry(entries, key) {
        Some(Script::Bool(b)) => Ok(Some(b)),
        Some(_) => Err(field_error(key, "a bool"@)),
        None => Ok(None),
    }
}

/// An integer that may be left out.
pub open spec fn int_field(entries: Seq<(Seq<char>, Script)>, key: Seq<char>) -> Result<
    Option<int>,
    Seq<char>,
> {
    match find_entry(entries, key) {
        Some(Script::Int(i)) => Ok(Some(i)),
        Some(_) => Err(field_error(key, "an integer"@)),
        None => Ok(None),
    }
}

/// A text field that may be left out.
pub fn optional_string_field(map: &Vec<(String, ScriptValue)>, key: &str) -> (r: Result<
    Option<String>,
    String,
>)
    ensures
        match r {
            Ok(text) => text_field(dict_views(map@), key@) == Ok::<Option<Seq<char>>, Seq<char>>(
                opt_view(text),
            ),
            Err(message) => text_field(dict_views(map@), key@) == Err::<
                Option<Seq<char>>,
                Seq<char>,
            >(message@),
        },
{
    match get_entry(map, key) {
        Some(ScriptValue::Text(text)) => Ok(Some(text.clone())),
        Some(_) => Err(field_error_text(key, "a string")),
        None => Ok(None),
    }
}

/// A truth value that may be left out.
pub fn optional_bool_field(map: &Vec<(String, ScriptValue)>, key: &str) -> (r: Result<
    Option<bool>,
    String,
>)
    ensures
        match r {
            Ok(b) => bool_field(dict_views(map@), key@) == Ok::<Option<bool>, Seq<char>>(b),
            Err(message) => bool_field(dict_views(map@), key@) == Err::<Option<bool>, Seq<char>>(
                message@,
            ),
        },
{
    match get_entry(map, key) {
        Some(ScriptValue::Bool(b)) => Ok(Some(*b)),
        Some(_) => Err(field_error_text(key, "a bool")),
        None => Ok(None),
    }
}

/// An integer that may be left out.
pub fn optional_int_field(map: &Vec<(String, ScriptValue)>, key: &str) -> (r: Result<
    Option<i64>,
    String,
>)
    ensures
        match r {
            Ok(Some(i)) => int_field(dict_views(map@), key@) == Ok::<Option<int>, Seq<char>>(
                Some(i as int),
            ),
            Ok(None) => int_field(dict_views(map@), key@) == Ok::<Option<int>, Seq<char>>(None),
            Err(message) => int_field(dict_views(map@), key@) == Err::<Option<int>, Seq<char>>(
                message@,
            ),
        },
{
    match get_entry(map, key) {
        Some(ScriptValue::Int(i)) => Ok(Some(*i)),
        Some(_) => Err(field_error_text(key, "an integer")),
        None => Ok(None),
    }
}

/// A word with a name in it.
pub open spec fn named(before: Seq<char>, name: Seq<char>) -> Seq<char> {
    before + " `"@ + name + "`"@
}

/// A word with a name in it.
pub fn named_text(before: &str, name: &str) -> (text: String)
    ensures
        text@ == named(before@, name@),
{
    let mut text = before.to_owned();
    text.append(" `");
    text.append(name);
    text.append("`");
    text
}

/// The word that a function is not available yet.
pub open spec fn init_error(function: Seq<char>) -> Seq<char> {
    function + " is not available during init"@
}

/// Whether the names that a tool is registered under are names of tools and
/// groups.
#[derive(Clone, Copy, Debug, PartialEq, Eq, Structural)]
pub struct NameChecks {
    pub tool: bool,
    pub model_visible: bool,
    pub group: bool,
}

/// What registers a tool: its name, what is said of it, and its handler.
pub open spec fn staged_of(
    name: Seq<char>,
    spec: Seq<(Seq<char>, Script)>,
    handler: Seq<char>,
    checks: NameChecks,
) -> Result<StagedView, Seq<char>> {
    if !checks.tool {
        Err(named("invalid tool name"@, name))
    } else {
        match text_field(spec, "description"@) {
            Err(message) => Err(message),
            Ok(description) => match text_field(spec, "model_visible_name"@) {
                Err(message) => Err(message),
                Ok(visible) => if visible is Some && !checks.model_visible {
                    Err(named("invalid model_visible_name"@, visible->Some_0))
                } else {
                    match bool_field(spec, "enabled_by_default"@) {
                        Err(message) => Err(message),
                        Ok(enabled) => staged_with_parameters(
                            ToolSpecView {
                                name,
                                model_visible_name: visible,
                                description,
                                parameters: None,
                                enabled_by_default: match enabled {
                                    Some(enabled) => enabled,
                                    None => true,
                                },
                            },
                            spec,
                            handler,
                            checks,
                        ),
                    }
                },
            },
        }
    }
}

/// What registers a tool, once all but its parameters and group are known.
pub open spec fn staged_with_parameters(
    tool: ToolSpecView,
    spec: Seq<(Seq<char>, Script)>,
    handler: Seq<char>,
    checks: NameChecks,
) -> Result<StagedView, Seq<char>> {
    match parameters_of(spec) {
        Err(message) => Err(message),
        Ok(parameters) => match text_field(spec, "group"@) {
            Err(message) => Err(message),
            Ok(group) => if group is Some && !checks.group {
                Err(named("invalid tool group name"@, group->Some_0))
            } else {
                Ok(StagedView { spec: ToolSpecView { parameters, ..tool }, group, handler })
            },
        },
    }
}

/// The parameters of a tool.
pub open spec fn parameters_of(spec: Seq<(Seq<char>, Script)>) -> Result<Option<Json>, Seq<char>> {
    match find_entry(spec, "parameters"@) {
        Some(value) => match json_of_script(value) {
            Ok(json) => Ok(Some(json)),
            Err(message) => Err(message),
        },
        None => Ok(None),
    }
}

/// Puts together what registers a tool.
pub fn staged_tool(
    name: &str,
    spec: &Vec<(String, ScriptValue)>,
    handler: &str,
    checks: NameChecks,
) -> (r: Result<StagedTool, String>)
    ensures
        match r {
            Ok(tool) => staged_of(name@, dict_views(spec@), handler@, checks) == Ok::<
                StagedView,
                Seq<char>,
            >(tool@),
            Err(message) => staged_of(name@, dict_views(spec@), handler@, checks) == Err::<
                StagedView,
                Seq<char>,
            >(message@),
        },
{
    if !checks.tool {
        return Err(named_text("invalid tool name", name));
    }
    let description = match optional_string_field(spec, "description") {
        Ok(text) => text,
        Err(message) => {
            return Err(message);
        },
    };
    let visible = match optional_string_field(spec, "model_visible_name") {
        Ok(text) => text,
        Err(message) => {
            return Err(message);
        },
    };
    if let Some(text) = &visible {
        if !checks.model_visible {
            return Err(named_text("invalid model_visible_name", text.as_str()));
        }
    }
    let enabled = match optional_bool_field(spec, "enabled_by_default") {
        Ok(Some(enabled)) => enabled,
        Ok(None) => true,
        Err(message) => {
            return Err(message);
        },
    };
    let parameters: Option<JsonValue> = match get_entry(spec, "parameters") {
        Some(value) => match dynamic_to_json(value) {
            Ok(json) => Some(json),
            Err(message) => {
                return Err(message);
            },
        },
        None => None,
    };
    let group = match optional_string_field(spec, "group") {
        Ok(text) => text,
        Err(message) => {
            return Err(message);
        },
    };
    if let Some(text) = &group {
        if !checks.group {
            return Err(named_text("invalid tool group name", text.as_str()));
        }
    }
    Ok(
        StagedTool {
            spec: ToolSpec {
                name: name.to_owned(),
                model_visible_name: visible,
                description,
                parameters,
                enabled_by_default: enabled,
            },
            group,
            handler: handler.to_owned(),
        },
    )
}

/// What a job is started with.
pub struct SpawnView {
    pub timeout_secs: int,
    pub cwd: Option<Seq<char>>,
    pub on_complete: Option<Seq<char>>,
    pub tag: Option<Script>,
}

/// The function that a job calls once it is done.
pub open spec fn callback_of(opts: Seq<(Seq<char>, Script)>) -> Result<
    Option<Seq<char>>,
    Seq<char>,
> {
    match find_entry(opts, "on_complete"@) {
        Some(Script::Function(name)) => Ok(Some(name)),
        Some(_) => Err("shell_spawn on_complete must be a function pointer"@),
        None => Ok(None),
    }
}

/// What a job is started with, as its options say.
pub open spec fn spawn_of(opts: Seq<(Seq<char>, Script)>) -> Result<SpawnView, Seq<char>> {
    match int_field(opts, "timeout"@) {
        Err(message) => Err(message),
        Ok(timeout) => {
            let timeout_secs = match timeout {
                Some(secs) => secs,
                None => DEFAULT_SHELL_TIMEOUT_SECS as int,
            };
            if timeout_secs < 0 {
                Err("shell_spawn timeout must be non-negative"@)
            } else {
                match text_field(opts, "cwd"@) {
                    Err(message) => Err(message),
                    Ok(cwd) => match callback_of(opts) {
                        Err(message) => Err(message),
                        Ok(on_complete) => Ok(
                            SpawnView {
                                timeout_secs,
                                cwd,
                                on_complete,
                                tag: find_entry(opts, "tag"@),
                            },
                        ),
                    },
                }
            }
        },
    }
}

/// A job that is to be started.
#[derive(Debug)]
pub struct ShellSpawn {
    pub id: i64,
    pub command: String,
    pub cwd: Option<String>,
    pub timeout_secs: u64,
}

/// The word that too many jobs run.
pub open spec fn too_many_jobs() -> Seq<char> {
    "too many pending shell jobs (limit "@ + decimal_of(MAX_PENDING_SHELL_JOBS as nat) + ")"@
}

/// What a job that is started is known as.
pub open spec fn new_job(command: Seq<char>, spawn: SpawnView) -> JobView {
    JobView {
        command,
        on_complete: spawn.on_complete,
        tool_call: None,
        tool_claimed: false,
        tag: spawn.tag,
    }
}

/// The job with a number.
pub open spec fn job_at(jobs: Seq<(i64, JobView)>, id: i64) -> Option<JobView>
    decreases jobs.len(),
{
    if jobs.len() == 0 {
        None
    } else if jobs[0].0 == id {
        Some(jobs[0].1)
    } else {
        job_at(jobs.drop_first(), id)
    }
}

/// The jobs without the one with a number.
pub open spec fn without_job(jobs: Seq<(i64, JobView)>, id: i64) -> Seq<(i64, JobView)>
    decreases jobs.len(),
{
    if jobs.len() == 0 {
        jobs
    } else if jobs[0].0 == id {
        jobs.drop_first()
    } else {
        seq![jobs[0]] + without_job(jobs.drop_first(), id)
    }
}

/// The jobs with the one with a number given to a call.
pub open spec fn claimed(jobs: Seq<(i64, JobView)>, id: i64, call: CallView) -> Seq<(i64, JobView)>
    decreases jobs.len(),
{
    if jobs.len() == 0 {
        jobs
    } else if jobs[0].0 == id {
        seq![
            (id, JobView { tool_call: Some(call), tool_claimed: true, ..jobs[0].1 }),
        ] + jobs.drop_first()
    } else {
        seq![jobs[0]] + claimed(jobs.drop_first(), id, call)
    }
}

/// What comes of a job that is given as the result of a call.
pub enum Claim {
    Claimed,
    AlreadyClaimed,
    Unknown,
}

/// What comes of a job that is given as the result of a call.
pub open spec fn claim_of(jobs: Seq<(i64, JobView)>, id: i64) -> Claim {
    match job_at(jobs, id) {
        Some(job) => if job.tool_claimed {
            Claim::AlreadyClaimed
        } else {
            Claim::Claimed
        },
        None => Claim::Unknown,
    }
}

/// Whether a script has a function with so many parameters.
pub open spec fn has_fn(functions: Seq<(Seq<char>, usize)>, name: Seq<char>, params: usize) -> bool {
    functions.contains((name, params))
}

/// The views of the functions of a script.
pub open spec fn function_views(functions: Seq<(String, usize)>) -> Seq<(Seq<char>, usize)> {
    functions.map_values(|f: (String, usize)| (f.0@, f.1))
}

/// Whether a script has a function with so many parameters.
pub fn has_function(functions: &Vec<(String, usize)>, name: &str, params: usize) -> (b: bool)
    ensures
        b == has_fn(function_views(functions@), name@, params),
{
    let ghost all = function_views(functions@);
    let mut i: usize = 0;
    while i < functions.len()
        invariant
            i <= functions@.len(),
            all == function_views(functions@),
            forall|j: int| 0 <= j < i ==> all[j] != (name@, params),
        decreases functions.len() - i,
    {
        if functions[i].1 == params && same_text(functions[i].0.as_str(), name) {
            assert(all[i as int] == (name@, params));
            return true;
        }
        i += 1;
    }
    false
}

/// The word that a handler is no function of a script.
pub open spec fn handler_error(handler: Seq<char>) -> Seq<char> {
    "tool handler `"@ + handler + "` must name a function with 2 parameters"@
}

/// Why tools cannot be registered: the first handler that is no function with
/// two parameters.
pub open spec fn registration_error(
    tools: Seq<StagedView>,
    functions: Seq<(Seq<char>, usize)>,
) -> Option<Seq<char>>
    decreases tools.len(),
{
    if tools.len() == 0 {
        None
    } else if !has_fn(functions, tools[0].handler, 2) {
        Some(handler_error(tools[0].handler))
    } else {
        registration_error(tools.drop_first(), functions)
    }
}

/// The handler of a tool: that of the last registration under its name.
pub open spec fn handler_of(tools: Seq<StagedView>, name: Seq<char>) -> Option<Seq<char>>
    decreases tools.len(),
{
    if tools.len() == 0 {
        None
    } else if tools.last().spec.name == name {
        Some(tools.last().handler)
    } else {
        handler_of(tools.drop_last(), name)
    }
}

/// A registration that is sent to the harness.
#[derive(Debug)]
pub struct ToolRegister {
    pub tool: ToolSpec,
    /// The group of the tool, by its name.
    pub tool_group: Option<String>,
}

/// A registration that is sent to the harness, as mathematics.
pub struct RegisterView {
    pub tool: ToolSpecView,
    pub tool_group: Option<Seq<char>>,
}

impl View for ToolRegister {
    type V = RegisterView;

    open spec fn view(&self) -> RegisterView {
        RegisterView { tool: self.tool@, tool_group: opt_view(self.tool_group) }
    }
}

/// The views of a list of registrations.
pub open spec fn register_views(list: Seq<ToolRegister>) -> Seq<RegisterView> {
    list.map_values(|r: ToolRegister| r@)
}

/// The registrations of some tools.
pub open spec fn registers_of(tools: Seq<StagedView>) -> Seq<RegisterView> {
    tools.map_values(|t: StagedView| RegisterView { tool: t.spec, tool_group: t.group })
}

impl HostState {
    /// A host that was asked for nothing.
    pub fn new() -> (host: HostState)
        ensures
            host@ == HostView::fresh(),
            host@.is_sound(),
    {
        let host = HostState {
            init_active: false,
            groups: Vec::new(),
            tools: Vec::new(),
            next_job_id: 0,
            jobs: Vec::new(),
        };
        assert(host@.groups =~= seq![]);
        assert(host@.tools =~= seq![]);
        assert(host@.jobs =~= seq![]);
        host
    }

    /// The script enters or leaves its `init`.
    pub fn set_init_active(&mut self, active: bool)
        ensures
            final(self)@ == (HostView { init_active: active, ..old(self)@ }),
            old(self)@.is_sound() ==> final(self)@.is_sound(),
    {
        self.init_active = active;
    }

    /// Refuses a function that is not available during `init`.
    pub fn ensure_not_init(&self, function: &str) -> (r: Result<(), String>)
        ensures
            r is Err <==> self@.init_active,
            r matches Err(message) ==> message@ == init_error(function@),
    {
        if self.init_active {
            let mut message = function.to_owned();
            message.append(" is not available during init");
            Err(message)
        } else {
            Ok(())
        }
    }

    /// Registers a group of tools.
    pub fn stage_tool_group(
        &mut self,
        name: &str,
        spec: &Vec<(String, ScriptValue)>,
        is_group_name: bool,
    ) -> (r: Result<(), String>)
        ensures
            ({
                let refused = if spec@.len() > 0 {
                    Some("register_tool_group spec must be empty in this version"@)
                } else if !is_group_name {
                    Some(named("invalid tool group name"@, name@))
                } else if !old(self)@.init_active {
                    Some("register_tool_group is only available during init"@)
                } else {
                    None
                };
                match r {
                    Ok(_) => refused is None && final(self)@ == (HostView {
                        groups: if old(self)@.groups.contains(name@) {
                            old(self)@.groups
                        } else {
                            old(self)@.groups.push(name@)
                        },
                        ..old(self)@
                    }),
                    Err(message) => refused == Some(message@) && final(self)@ == old(self)@,
                }
            }),
            old(self)@.is_sound() ==> final(self)@.is_sound(),
    {
        if spec.len() > 0 {
            return Err("register_tool_group spec must be empty in this version".to_owned());
        }
        if !is_group_name {
            return Err(named_text("invalid tool group name", name));
        }
        if !self.init_active {
            return Err("register_tool_group is only available during init".to_owned());
        }
        let ghost all = views(self.groups@);
        let mut known = false;
        let mut i: usize = 0;
        while i < self.groups.len()
            invariant
                i <= self.groups@.len(),
                *self == *old(self),
                all == views(self.groups@),
                known == all.take(i as int).contains(name@),
            decreases self.groups.len() - i,
        {
            let ghost before = all.take(i as int);
            assert(all.take(i + 1) =~= before.push(all[i as int]));
            if same_text(self.groups[i].as_str(), name) {
                known = true;
            }
            assert(all.take(i + 1).contains(name@) == (before.contains(name@) || all[i as int]
                == name@)) by {
                assert(all.take(i + 1)[i as int] == all[i as int]);
                if before.contains(name@) {
                    let j = choose|j: int| 0 <= j < before.len() && before[j] == name@;
                    assert(all.take(i + 1)[j] == name@);
                }
            }
            i += 1;
        }
        assert(all.take(i as int) =~= all);
        if !known {
            push_text(&mut self.groups, name.to_owned());
        }
        Ok(())
    }

    /// Registers a tool.
    pub fn stage_tool(
        &mut self,
        name: &str,
        spec: &Vec<(String, ScriptValue)>,
        handler: &str,
        checks: NameChecks,
    ) -> (r: Result<(), String>)
        ensures
            match staged_of(name@, dict_views(spec@), handler@, checks) {
                Err(message) => (r matches Err(m) && m@ == message) && final(self)@ == old(self)@,
                Ok(tool) => if old(self)@.init_active {
                    r is Ok && final(self)@ == (HostView {
                        tools: old(self)@.tools.push(tool),
                        ..old(self)@
                    })
                } else {
                    (r matches Err(m) && m@ == "register_tool is only available during init"@)
                        && final(self)@ == old(self)@
                },
            },
            old(self)@.is_sound() ==> final(self)@.is_sound(),
    {
        match staged_tool(name, spec, handler, checks) {
            Err(message) => Err(message),
            Ok(tool) => {
                if !self.init_active {
                    return Err("register_tool is only available during init".to_owned());
                }
                let ghost before = self.tools@;
                self.tools.push(tool);
                assert(staged_views(self.tools@) =~= staged_views(before).push(tool@));
                Ok(())
            },
        }
    }

    /// Starts a job.
    pub fn shell_spawn(&mut self, command: String, opts: &Vec<(String, ScriptValue)>) -> (r: Result<
        ShellSpawn,
        String,
    >)
        requires
            old(self)@.is_sound(),
            old(self)@.next_job_id < i64::MAX,
        ensures
            match spawn_of(dict_views(opts@)) {
                Err(message) => (r matches Err(m) && m@ == message) && final(self)@ == old(self)@,
                Ok(spawn) => if old(self)@.jobs.len() < MAX_PENDING_SHELL_JOBS {
                    &&& r matches Ok(started)
                        && started.id == old(self)@.next_job_id + 1
                        && started.command@ == command@
                        && opt_view(started.cwd) == spawn.cwd
                        && started.timeout_secs == spawn.timeout_secs
                    &&& final(self)@ == (HostView {
                        next_job_id: old(self)@.next_job_id + 1,
                        jobs: old(self)@.jobs.push(
                            (
                                (old(self)@.next_job_id + 1) as i64,
                                new_job(command@, spawn),
                            ),
                        ),
                        ..old(self)@
                    })
                } else {
                    (r matches Err(m) && m@ == too_many_jobs()) && final(self)@ == old(self)@
                },
            },
            final(self)@.is_sound(),
    {
        let timeout: i64 = match optional_int_field(opts, "timeout") {
            Ok(Some(secs)) => secs,
            Ok(None) => DEFAULT_SHELL_TIMEOUT_SECS,
            Err(message) => {
                return Err(message);
            },
        };
        if timeout < 0 {
            return Err("shell_spawn timeout must be non-negative".to_owned());
        }
        let cwd = match optional_string_field(opts, "cwd") {
            Ok(cwd) => cwd,
            Err(message) => {
                return Err(message);
            },
        };
        let on_complete: Option<String> = match get_entry(opts, "on_complete") {
            Some(ScriptValue::Function(name)) => Some(name.clone()),
            Some(_) => {
                return Err("shell_spawn on_complete must be a function pointer".to_owned());
            },
            None => None,
        };
        let tag: Option<ScriptValue> = match get_entry(opts, "tag") {
            Some(value) => Some(value.copy()),
            None => None,
        };
        assert(self@.jobs.len() == self.jobs@.len());
        if self.jobs.len() >= MAX_PENDING_SHELL_JOBS {
            let mut message = "too many pending shell jobs (limit ".to_owned();
            let limit = decimal(MAX_PENDING_SHELL_JOBS as u64);
            message.append(limit.as_str());
            message.append(")");
            return Err(message);
        }
        self.next_job_id = self.next_job_id + 1;
        let id = self.next_job_id;
        let ghost before = self.jobs@;
        let job = PendingShellJob {
            command: command.clone(),
            on_complete,
            tool_call: None,
            tool_claimed: false,
            tag,
        };
        self.jobs.push((id, job));
        assert(job_views(self.jobs@) =~= job_views(before).push((id, job@)));
        Ok(ShellSpawn { id, command, cwd, timeout_secs: timeout as u64 })
    }

    /// Where a job stands in the list.
    fn find_job(&self, id: i64) -> (at: usize)
        ensures
            at <= self.jobs@.len(),
            at < self.jobs@.len() ==> self.jobs@[at as int].0 == id && job_at(self@.jobs, id)
                == Some(self.jobs@[at as int].1@),
            at == self.jobs@.len() ==> job_at(self@.jobs, id) is None,
            forall|j: int| 0 <= j < at ==> (#[trigger] self.jobs@[j]).0 != id,
    {
        let ghost all = job_views(self.jobs@);
        let mut i: usize = 0;
        assert(all.skip(0) =~= all);
        while i < self.jobs.len()
            invariant
                i <= self.jobs@.len(),
                all == job_views(self.jobs@),
                job_at(all.skip(i as int), id) == job_at(all, id),
                forall|j: int| 0 <= j < i ==> (#[trigger] self.jobs@[j]).0 != id,
            decreases self.jobs.len() - i,
        {
            assert(all.skip(i as int)[0] == (self.jobs@[i as int].0, self.jobs@[i as int].1@));
            if self.jobs[i].0 == id {
                return i;
            }
            i += 1;
            assert(all.skip(i - 1).drop_first() =~= all.skip(i as int));
        }
        i
    }

    /// Takes a job that is done.
    pub fn take_job(&mut self, id: i64) -> (job: Option<PendingShellJob>)
        ensures
            match job {
                Some(job) => job_at(old(self)@.jobs, id) == Some(job@),
                None => job_at(old(self)@.jobs, id) is None,
            },
            final(self)@ == (HostView { jobs: without_job(old(self)@.jobs, id), ..old(self)@ }),
            old(self)@.is_sound() ==> final(self)@.is_sound(),
    {
        let at = self.find_job(id);
        let ghost all = self@.jobs;
        proof {
            lemma_without_job(all, id, at as int);
            if self@.is_sound() && at < all.len() {
                lemma_removed_is_sound(self@, at as int);
            }
        }
        if at < self.jobs.len() {
            let (_, job) = self.jobs.remove(at);
            assert(job_views(self.jobs@) =~= all.remove(at as int));
            Some(job)
        } else {
            None
        }
    }

    /// Gives a job to a call, unless it was given to one before.
    pub fn claim_job(&mut self, id: i64, call: PendingToolCall) -> (r: Result<(), (Claim, PendingToolCall)>)
        ensures
            match r {
                Ok(_) => claim_of(old(self)@.jobs, id) is Claimed && final(self)@ == (HostView {
                    jobs: claimed(old(self)@.jobs, id, call@),
                    ..old(self)@
                }),
                Err((claim, back)) => claim == claim_of(old(self)@.jobs, id) && !(claim is Claimed)
                    && back == call && final(self)@ == old(self)@,
            },
            old(self)@.is_sound() ==> final(self)@.is_sound(),
    {
        let at = self.find_job(id);
        let ghost all = self@.jobs;
        if at < self.jobs.len() {
            if self.jobs[at].1.tool_claimed {
                return Err((Claim::AlreadyClaimed, call));
            }
            let ghost c = call@;
            proof {
                lemma_claimed(all, id, at as int, c);
            }
            let slot = &mut self.jobs[at];
            slot.1.tool_claimed = true;
            slot.1.tool_call = Some(call);
            assert(job_views(self.jobs@) =~= all.update(
                at as int,
                (id, JobView { tool_call: Some(c), tool_claimed: true, ..all[at as int].1 }),
            ));
            assert(old(self)@.is_sound() ==> self@.is_sound());
            Ok(())
        } else {
            Err((Claim::Unknown, call))
        }
    }

    /// Whether jobs are not done.
    pub fn has_pending_shell_jobs(&self) -> (b: bool)
        ensures
            b == (self@.jobs.len() > 0),
    {
        assert(self@.jobs.len() == self.jobs@.len());
        self.jobs.len() > 0
    }

    /// Refuses tools whose handlers are not functions of the script.
    pub fn finish_tool_registration(&self, functions: &Vec<(String, usize)>) -> (r: Result<
        (),
        String,
    >)
        ensures
            match r {
                Ok(_) => registration_error(
                    self@.tools,
                    function_views(functions@),
                ) is None,
                Err(message) => registration_error(self@.tools, function_views(functions@))
                    == Some(message@),
            },
    {
        let ghost all = staged_views(self.tools@);
        let ghost known = function_views(functions@);
        let mut i: usize = 0;
        assert(all.skip(0) =~= all);
        while i < self.tools.len()
            invariant
                i <= self.tools@.len(),
                all == staged_views(self.tools@),
                known == function_views(functions@),
                registration_error(all.skip(i as int), known) == registration_error(all, known),
            decreases self.tools.len() - i,
        {
            assert(all.skip(i as int)[0] == self.tools@[i as int]@);
            if !has_function(functions, self.tools[i].handler.as_str(), 2) {
                let mut message = "tool handler `".to_owned();
                message.append(self.tools[i].handler.as_str());
                message.append("` must name a function with 2 parameters");
                return Err(message);
            }
            i += 1;
            assert(all.skip(i - 1).drop_first() =~= all.skip(i as int));
        }
        Ok(())
    }

    /// The handler of a tool.
    pub fn handler(&self, name: &str) -> (handler: Option<String>)
        ensures
            opt_view(handler) == handler_of(self@.tools, name@),
    {
        let ghost all = staged_views(self.tools@);
        let mut n: usize = self.tools.len();
        assert(all.take(n as int) =~= all);
        while n > 0
            invariant
                n <= self.tools@.len(),
                all == staged_views(self.tools@),
                handler_of(all.take(n as int), name@) == handler_of(all, name@),
            decreases n,
        {
            assert(all.take(n as int).last() == self.tools@[n - 1]@);
            if same_text(self.tools[n - 1].spec.name.as_str(), name) {
                return Some(self.tools[n - 1].handler.clone());
            }
            n -= 1;
            assert(all.take(n + 1).drop_last() =~= all.take(n as int));
        }
        None
    }

    /// The registrations of the tools.
    pub fn tool_register_events(&self) -> (list: Vec<ToolRegister>)
        ensures
            register_views(list@) == registers_of(self@.tools),
    {
        let ghost all = registers_of(staged_views(self.tools@));
        let mut list: Vec<ToolRegister> = Vec::new();
        let mut i: usize = 0;
        assert(register_views(list@) =~= all.take(0));
        while i < self.tools.len()
            invariant
                i <= self.tools@.len(),
                all == registers_of(staged_views(self.tools@)),
                register_views(list@) == all.take(i as int),
            decreases self.tools.len() - i,
        {
            let ghost before = list@;
            let register = ToolRegister {
                tool: self.tools[i].spec.copy(),
                tool_group: self.tools[i].group.clone(),
            };
            list.push(register);
            assert(register_views(list@) =~= register_views(before).push(register@));
            i += 1;
            assert(register_views(list@) =~= all.take(i as int));
        }
        assert(all.take(i as int) =~= all);
        list
    }
}

/// To take a job out is to take it out where it stands.
proof fn lemma_without_job(jobs: Seq<(i64, JobView)>, id: i64, at: int)
    requires
        0 <= at <= jobs.len(),
        forall|j: int| 0 <= j < at ==> (#[trigger] jobs[j]).0 != id,
        at < jobs.len() ==> jobs[at].0 == id,
    ensures
        at < jobs.len() ==> without_job(jobs, id) == jobs.remove(at),
        at == jobs.len() ==> without_job(jobs, id) == jobs,
    decreases jobs.len(),
{
    if jobs.len() > 0 && jobs[0].0 != id {
        let rest = jobs.drop_first();
        assert forall|j: int| 0 <= j < at - 1 implies (#[trigger] rest[j]).0 != id by {
            assert(rest[j] == jobs[j + 1]);
        }
        lemma_without_job(rest, id, at - 1);
        if at < jobs.len() {
            assert(seq![jobs[0]] + rest.remove(at - 1) =~= jobs.remove(at));
        } else {
            assert(seq![jobs[0]] + rest =~= jobs);
        }
    } else if jobs.len() > 0 {
        assert(at == 0);
        assert(jobs.drop_first() =~= jobs.remove(0));
    }
}

/// A host stays sound when a job is taken out.
proof fn lemma_removed_is_sound(host: HostView, at: int)
    requires
        host.is_sound(),
        0 <= at < host.jobs.len(),
    ensures
        (HostView { jobs: host.jobs.remove(at), ..host }).is_sound(),
{
    let kept = host.jobs.remove(at);
    assert forall|i: int| 0 <= i < kept.len() implies 0 < (#[trigger] kept[i]).0
        <= host.next_job_id by {
        if i < at {
            assert(kept[i] == host.jobs[i]);
        } else {
            assert(kept[i] == host.jobs[i + 1]);
        }
    }
    assert forall|i: int, j: int| 0 <= i < j < kept.len() implies #[trigger] kept[i].0
        < #[trigger] kept[j].0 by {
        let a = if i < at {
            i
        } else {
            i + 1
        };
        let b = if j < at {
            j
        } else {
            j + 1
        };
        assert(kept[i] == host.jobs[a] && kept[j] == host.jobs[b]);
    }
}

/// To give a job to a call is to change it where it stands.
proof fn lemma_claimed(jobs: Seq<(i64, JobView)>, id: i64, at: int, call: CallView)
    requires
        0 <= at < jobs.len(),
        forall|j: int| 0 <= j < at ==> (#[trigger] jobs[j]).0 != id,
        jobs[at].0 == id,
    ensures
        claimed(jobs, id, call) == jobs.update(
            at,
            (id, JobView { tool_call: Some(call), tool_claimed: true, ..jobs[at].1 }),
        ),
    decreases jobs.len(),
{
    let changed = (id, JobView { tool_call: Some(call), tool_claimed: true, ..jobs[at].1 });
    if jobs[0].0 != id {
        let rest = jobs.drop_first();
        assert forall|j: int| 0 <= j < at - 1 implies (#[trigger] rest[j]).0 != id by {
            assert(rest[j] == jobs[j + 1]);
        }
        lemma_claimed(rest, id, at - 1, call);
        assert(seq![jobs[0]] + rest.update(at - 1, changed) =~= jobs.update(at, changed));
    } else {
        assert(at == 0);
        assert(seq![changed] + jobs.drop_first() =~= jobs.update(0, changed));
    }
}

} // verus!
