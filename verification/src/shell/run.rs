//! The extension's main loop: what a message of the harness does to its state,
//! and what it sends in return.

use vstd::prelude::*;

use crate::path::{same_parts, same_path, DirPath};
use crate::shell::config::{
    default_config, ConfigView, ExtConfig, ShellConfig, ShellConfigView,
};
use crate::shell::cwd_state::{cwd_key, CwdState, CwdView, PendingView};
use crate::shell::dir_lock::{LockState, LockView};
use crate::shell::dir_lock_tool::found_view;
use crate::shell::dispatch::{action_call, approximate_tool_bytes, at_most, call_size,
    dispatch_action_invoke, event_with_wait, is_own_tool, is_shell_tool, priority_for_tool,
    priority_of, with_lock_wait_duration, ActionInvoke};
use crate::shell::display::{failure, ok_display, plain_state, OutputView, ToolFailure, ToolOutput,
    ToolUseStatus};
use crate::shell::event::{event_views, failure_event, push_event, result_event, tool_failure,
    tool_result, Event, EventView, StartedView, ToolStarted};
use crate::shell::scheduler::{call_at, default_limits, refusal, Lanes, SchedulerConfig, WorkItem,
    WorkMeta, WorkPriority, WorkScheduler};
use crate::shell::user_shell::UiShellCommand;
use crate::text::{byte_len, opt_view, utf8_len};
use crate::text_map::{text_values, without_value, TextMap};
use crate::value::{entry, entry_views, group_cbor_views, push_entry, Cbor, CborValue};

verus! {

/// Work that waits for a worker.
#[allow(inconsistent_fields)]
#[derive(Debug)]
pub enum Job {
    /// A tool call, under the configuration of the moment it came.
    Tool { call: ToolStarted, config: ExtConfig },
    /// A command of the user.
    UserShell { cmd: UiShellCommand, config: ShellConfig },
}

/// What is known of an agent's metadata.
#[derive(Debug)]
pub struct MetadataItem {
    pub key: String,
    pub value: CborValue,
}

/// An event that the harness delivers.
#[derive(Debug)]
pub enum Incoming {
    AgentLoaded { agent_id: String },
    AgentUnloaded { agent_id: String },
    AgentStarted { agent_id: String, metadata: Vec<MetadataItem> },
    ToolStarted(ToolStarted),
    AgentMetadataSet { agent_id: String, key: String, value: CborValue },
    AgentMetadataUnset { agent_id: String, key: String },
    StartAgentAccepted { query_id: String, agent_id: String },
    StartAgentResult { query_id: String },
    /// An action, and what became of looking for the directory that it names.
    ActionInvoke { action: ActionInvoke, found: Result<DirPath, String> },
    ToolCancelRequest { target_call_id: String },
    UiShellCommand(UiShellCommand),
    Other,
}

/// A message of the harness.
#[derive(Debug)]
pub enum HarnessMessage {
    /// A configuration, or why it could not be read. Where the working
    /// directory is to be changed, `changed` is the directory of the process
    /// after that, or why it failed.
    Configure {
        config: Result<ExtConfig, String>,
        instance_name: Option<String>,
        changed: Result<String, String>,
    },
    /// An event. A replayed one is history: it must not be acted on again.
    Deliver { replay: bool, event: Incoming },
    Disconnect,
    Other,
}

/// What the extension does after a message.
#[derive(Debug)]
pub struct StepOutput {
    pub events: Vec<Event>,
    /// The running command that is to be stopped.
    pub signal: Option<String>,
    /// Whether the extension is to end.
    pub stop: bool,
}

/// The extension's state.
#[derive(Debug)]
pub struct ShellExtension {
    pub config: ExtConfig,
    pub runtime_started: bool,
    /// Whether the echo tool is offered.
    pub echo: bool,
    /// The directory of the process.
    pub default_cwd: String,
    pub locks: LockState,
    pub cwd: CwdState,
    pub scheduler: WorkScheduler<Job>,
    pub start_agent_owners: TextMap<String>,
    /// The calls of commands that run now.
    pub running_shells: TextMap<()>,
}

/// The extension's state, as mathematics.
#[verifier::ext_equal]
pub struct ShellView {
    pub config: ConfigView,
    pub started: bool,
    pub echo: bool,
    pub default_cwd: Seq<char>,
    pub locks: LockView,
    pub cwd: CwdView,
    pub limits: SchedulerConfig,
    pub lanes: Lanes<Job>,
    pub owners: Map<Seq<char>, Seq<char>>,
    pub running: Set<Seq<char>>,
}

impl ShellView {
    /// The state at the start, in a directory.
    pub open spec fn fresh(echo: bool, default_cwd: Seq<char>) -> ShellView {
        ShellView {
            config: default_config(),
            started: false,
            echo,
            default_cwd,
            locks: LockView::fresh(),
            cwd: CwdView::fresh(),
            limits: default_limits(),
            lanes: Lanes::empty(),
            owners: Map::empty(),
            running: Set::empty(),
        }
    }
}

impl View for ShellExtension {
    type V = ShellView;

    open spec fn view(&self) -> ShellView {
        ShellView {
            config: self.config@,
            started: self.runtime_started,
            echo: self.echo,
            default_cwd: self.default_cwd@,
            locks: self.locks@,
            cwd: self.cwd@,
            limits: self.scheduler.config,
            lanes: self.scheduler@,
            owners: text_values(self.start_agent_owners@),
            running: self.running_shells@.dom(),
        }
    }
}

/// What a working directory in a new configuration asks for.
pub enum WorkdirView {
    Keep,
    Change { path: Seq<char> },
    Refuse { message: Seq<char> },
}

/// What a working directory in a new configuration asks for.
#[derive(Debug)]
pub enum WorkdirDecision {
    Keep,
    Change { path: String },
    Refuse { message: String },
}

impl View for WorkdirDecision {
    type V = WorkdirView;

    open spec fn view(&self) -> WorkdirView {
        match self {
            WorkdirDecision::Keep => WorkdirView::Keep,
            WorkdirDecision::Change { path } => WorkdirView::Change { path: path@ },
            WorkdirDecision::Refuse { message } => WorkdirView::Refuse { message: message@ },
        }
    }
}

/// A working directory can be set once, before the first event, and never be
/// changed.
pub open spec fn workdir_decision(
    current: Option<Seq<char>>,
    next: Option<Seq<char>>,
    started: bool,
) -> WorkdirView {
    match (current, next) {
        (None, Some(path)) => if started {
            WorkdirView::Refuse {
                message:
                    "ext-shell working_directory cannot be set after runtime events have started"@,
            }
        } else {
            WorkdirView::Change { path }
        },
        (Some(current), Some(next)) => if same_parts(current, next) {
            WorkdirView::Keep
        } else {
            WorkdirView::Refuse {
                message:
                    "ext-shell working_directory cannot be changed after startup (current: "@
                    + current + ", requested: "@ + next + ")"@,
            }
        },
        _ => WorkdirView::Keep,
    }
}

/// What a working directory in a new configuration asks for.
pub fn decide_working_directory(
    current: &Option<String>,
    next: &Option<String>,
    runtime_started: bool,
) -> (decision: WorkdirDecision)
    ensures
        decision@ == workdir_decision(opt_view(*current), opt_view(*next), runtime_started),
{
    match (current, next) {
        (None, Some(path)) => {
            if runtime_started {
                WorkdirDecision::Refuse {
                    message:
                        "ext-shell working_directory cannot be set after runtime events have started".to_owned(),
                }
            } else {
                WorkdirDecision::Change { path: path.clone() }
            }
        },
        (Some(current), Some(next)) => {
            if same_path(current.as_str(), next.as_str()) {
                WorkdirDecision::Keep
            } else {
                let mut message =
                    "ext-shell working_directory cannot be changed after startup (current: ".to_owned();
                message.append(current.as_str());
                message.append(", requested: ");
                message.append(next.as_str());
                message.append(")");
                WorkdirDecision::Refuse { message }
            }
        },
        _ => WorkdirDecision::Keep,
    }
}

/// The report of a configuration that is refused.
pub open spec fn config_error(message: Seq<char>) -> EventView {
    EventView::ConfigError { message }
}

impl ShellView {
    /// The state with a configuration in force, and what is sent: locks are
    /// given up where locking is turned off, and the lock tool is offered anew
    /// where that changes.
    pub open spec fn with_config(self, config: ConfigView) -> (ShellView, Seq<EventView>) {
        let was = self.config.dir_lock.enable;
        let locking = config.dir_lock.enable;
        (
            ShellView {
                config,
                locks: if was && !locking {
                    self.locks.disable()
                } else {
                    self.locks
                },
                ..self
            },
            if was != locking {
                seq![EventView::DirLockToolRegister { enabled: locking }]
            } else {
                seq![]
            },
        )
    }

    /// A configuration message.
    pub open spec fn configure(
        self,
        config: Result<ConfigView, Seq<char>>,
        instance: Option<Seq<char>>,
        changed: Result<Seq<char>, Seq<char>>,
    ) -> (ShellView, Seq<EventView>) {
        match config {
            Err(message) => (self, seq![config_error(message)]),
            Ok(config) => {
                let next = ConfigView {
                    working_directory: if config.working_directory is None {
                        self.config.working_directory
                    } else {
                        config.working_directory
                    },
                    ..config
                };
                let named = match instance {
                    Some(name) => ShellView {
                        cwd: CwdView { instance: name, ..self.cwd },
                        ..self
                    },
                    None => self,
                };
                match workdir_decision(
                    self.config.working_directory,
                    next.working_directory,
                    self.started,
                ) {
                    WorkdirView::Refuse { message } => (named, seq![config_error(message)]),
                    WorkdirView::Keep => named.with_config(next),
                    WorkdirView::Change { path } => match changed {
                        Ok(dir) => ShellView { default_cwd: dir, ..named }.with_config(next),
                        Err(error) => (
                            named,
                            seq![
                                config_error(
                                    "failed to set ext-shell working_directory to "@ + path
                                        + ": "@ + error,
                                ),
                            ],
                        ),
                    },
                }
            },
        }
    }

    /// The directory of an agent.
    pub open spec fn cwd_of(self, agent: Seq<char>) -> Seq<char> {
        self.cwd.cwd_or(agent, self.default_cwd)
    }
}

/// The event that tells the harness an agent's directory.
pub open spec fn context_event(agent: Seq<char>, cwd: Seq<char>) -> EventView {
    EventView::AgentContextPublish { agent_id: agent, key: "cwd"@, value: cwd }
}

/// The event that tells an agent its new directory.
pub open spec fn notice_event(agent: Seq<char>, cwd: Seq<char>) -> EventView {
    EventView::AgentUserMessageInjected {
        agent_id: agent,
        text: "Your working directory changed to "@ + cwd + "."@,
    }
}

/// The result of a call of the `cd` tool.
pub open spec fn cd_output(cwd: Seq<char>) -> OutputView {
    OutputView {
        result: Cbor::Dict(seq![entry("cwd", Cbor::Text(cwd))]),
        display: plain_state(cwd, ToolUseStatus::Success, "ok"@),
    }
}

/// The failure of a call of the `cd` tool.
pub open spec fn cd_failed(pending: PendingView, message: Seq<char>) -> EventView {
    event_with_wait(
        EventView::ToolError {
            call_id: pending.call.call_id,
            tool_name: pending.call.tool_name,
            message,
            details: None,
            display: None,
            originator: pending.call.originator,
        },
        pending.lock_wait,
    )
}

/// The answer to a call of the `cd` tool when a directory is confirmed.
pub open spec fn cd_confirmed(pending: PendingView, cwd: Seq<char>) -> EventView {
    if same_parts(pending.expected_cwd, cwd) {
        event_with_wait(result_event(pending.call, cd_output(cwd)), pending.lock_wait)
    } else {
        cd_failed(
            pending,
            "committed cwd metadata did not match requested cwd; cwd changed to "@ + cwd,
        )
    }
}

/// One event where a condition holds, else none.
pub open spec fn event_if(condition: bool, event: EventView) -> Seq<EventView> {
    if condition {
        seq![event]
    } else {
        seq![]
    }
}

impl ShellView {
    /// The harness keeps another directory for an agent.
    pub open spec fn cwd_committed(self, agent: Seq<char>, cwd: Seq<char>, replay: bool) -> (
        ShellView,
        Seq<EventView>,
    ) {
        let set = CwdView { cwd: self.cwd.cwd.insert(agent, cwd), ..self.cwd };
        if replay {
            (ShellView { cwd: set, ..self }, seq![])
        } else {
            (
                ShellView {
                    cwd: CwdView {
                        notices: set.notices.remove(agent),
                        pending: set.pending.remove(agent),
                        ..set
                    },
                    ..self
                },
                seq![context_event(agent, cwd)] + event_if(
                    self.cwd.notices.dom().contains(agent),
                    notice_event(agent, cwd),
                ) + event_if(
                    self.cwd.pending.dom().contains(agent),
                    cd_confirmed(self.cwd.pending[agent], cwd),
                ),
            )
        }
    }

    /// The harness keeps something else than a directory for an agent, or
    /// nothing: a change of directory that waits has failed.
    pub open spec fn cwd_lost(self, agent: Seq<char>, message: Seq<char>) -> (
        ShellView,
        Seq<EventView>,
    ) {
        (
            ShellView {
                cwd: CwdView {
                    notices: self.cwd.notices.remove(agent),
                    pending: self.cwd.pending.remove(agent),
                    ..self.cwd
                },
                ..self
            },
            seq![context_event(agent, self.cwd_of(agent))] + event_if(
                self.cwd.pending.dom().contains(agent),
                cd_failed(self.cwd.pending[agent], message),
            ),
        )
    }

    /// Metadata of an agent was set.
    pub open spec fn metadata_set(
        self,
        agent: Seq<char>,
        key: Seq<char>,
        value: Cbor,
        replay: bool,
    ) -> (ShellView, Seq<EventView>) {
        if key != cwd_key(self.cwd.instance) {
            (self, seq![])
        } else {
            match value {
                Cbor::Text(cwd) => self.cwd_committed(agent, cwd, replay),
                _ => if replay {
                    (self, seq![])
                } else {
                    self.cwd_lost(
                        agent,
                        "committed cwd metadata value is not text; cwd unchanged"@,
                    )
                },
            }
        }
    }

    /// Metadata of an agent was removed.
    pub open spec fn metadata_unset(self, agent: Seq<char>, key: Seq<char>, replay: bool) -> (
        ShellView,
        Seq<EventView>,
    ) {
        if key != cwd_key(self.cwd.instance) {
            (self, seq![])
        } else {
            let unset = ShellView {
                cwd: CwdView { cwd: self.cwd.cwd.remove(agent), ..self.cwd },
                ..self
            };
            if replay {
                (unset, seq![])
            } else {
                unset.cwd_lost(
                    agent,
                    "committed cwd metadata was unset; cwd reverted to the process default"@,
                )
            }
        }
    }

    /// An agent left: its locks, its queued work and all that is remembered of
    /// it go.
    pub open spec fn agent_unloaded(self, agent: Seq<char>) -> ShellView {
        ShellView {
            locks: self.locks.release_agent(agent),
            lanes: self.lanes.release_agent(agent),
            cwd: self.cwd.forget(agent),
            owners: without_value(self.owners, agent),
            ..self
        }
    }

    /// The directories that an agent starts with.
    pub open spec fn agent_started(self, agent: Seq<char>, metadata: Seq<MetadataItem>)
        -> ShellView
        decreases metadata.len(),
    {
        if metadata.len() == 0 {
            self
        } else {
            let before = self.agent_started(agent, metadata.drop_last());
            let item = metadata.last();
            match item.value@ {
                Cbor::Text(cwd) if item.key@ == cwd_key(self.cwd.instance) => ShellView {
                    cwd: CwdView { cwd: before.cwd.cwd.insert(agent, cwd), ..before.cwd },
                    ..before
                },
                _ => before,
            }
        }
    }

    /// A started agent came to its end.
    pub open spec fn start_result(self, query: Seq<char>) -> ShellView {
        if self.owners.dom().contains(query) {
            let agent = self.owners[query];
            ShellView {
                owners: self.owners.remove(query),
                locks: self.locks.release_agent(agent),
                lanes: self.lanes.release_agent(agent),
                ..self
            }
        } else {
            self
        }
    }

    /// A call is to be cancelled: while it is queued, while it runs, or while it
    /// waits for a lock.
    pub open spec fn cancel_request(self, call: Seq<char>) -> (
        ShellView,
        Seq<EventView>,
        Option<Seq<char>>,
    ) {
        match self.lanes.lane_of_call(call) {
            Some(priority) => {
                let lane = self.lanes.lane(priority);
                let p = call_at(lane, call);
                let name = opt_view(lane[p].meta.tool_name);
                (
                    ShellView { lanes: self.lanes.with_lane(priority, lane.remove(p)), ..self },
                    event_if(
                        name is Some,
                        EventView::ToolCancelled { call_id: call, tool_name: name->0 },
                    ),
                    None,
                )
            },
            None => if self.running.contains(call) {
                (self, seq![], Some(call))
            } else {
                (ShellView { locks: self.locks.cancel_call(call), ..self }, seq![], None)
            },
        }
    }
}

/// Whether queued work is a tool call under a configuration.
pub open spec fn is_tool_job(
    item: WorkItem<Job>,
    call: StartedView,
    config: ConfigView,
    limit: usize,
) -> bool {
    &&& opt_view(item.meta.call_id) == Some(call.call_id)
    &&& opt_view(item.meta.tool_name) == Some(call.tool_name)
    &&& opt_view(item.meta.agent_id) == Some(call.agent_id)
    &&& item.meta.queued_bytes == queued_size(call, limit)
    &&& item.job matches Job::Tool { call: queued, config: under } && queued@ == call && under@
        == config
}

/// What a call counts for in the queue: its size, to just past the limit.
pub open spec fn queued_size(call: StartedView, limit: usize) -> usize {
    at_most(
        call_size(call),
        if limit < usize::MAX {
            (limit + 1) as usize
        } else {
            usize::MAX
        },
    )
}

/// Whether queued work is a command of the user under a configuration.
pub open spec fn is_user_job(
    item: WorkItem<Job>,
    cmd: UiShellCommand,
    config: ShellConfigView,
) -> bool {
    &&& item.meta.call_id is None
    &&& item.meta.tool_name is None
    &&& opt_view(item.meta.agent_id) == opt_view(cmd.target_agent_id)
    &&& item.meta.queued_bytes == utf8_len(cmd.command@)
    &&& item.job matches Job::UserShell { cmd: queued, config: under } && queued == cmd && under@
        == config
}

impl ShellView {
    /// A tool call came: it is queued, or answered with the reason why it is
    /// not. What belongs to others, and history, is left alone.
    pub open spec fn tool_started(
        self,
        call: StartedView,
        replay: bool,
        after: ShellView,
        events: Seq<EventView>,
    ) -> bool {
        if replay || !is_own_tool(call.tool_name, self.echo) {
            after == self && events == Seq::<EventView>::empty()
        } else {
            let priority = priority_of(call);
            let limit = self.limits.queued_bytes_limit;
            match refusal(self.lanes, self.limits, priority, queued_size(call, limit)) {
                Some(message) => after == self && events == seq![
                    failure_event(call, failure(message)),
                ],
                None => events == Seq::<EventView>::empty() && exists|item: WorkItem<Job>|
                    #[trigger]
                    is_tool_job(item, call, self.config, limit) && after == (ShellView {
                        lanes: self.lanes.with_lane(priority, self.lanes.lane(priority).push(item)),
                        ..self
                    }),
            }
        }
    }

    /// A command of the user came: it is queued, or answered with the reason
    /// why it is not.
    pub open spec fn user_command(
        self,
        cmd: UiShellCommand,
        after: ShellView,
        events: Seq<EventView>,
    ) -> bool {
        let size = utf8_len(cmd.command@) as usize;
        match refusal(self.lanes, self.limits, WorkPriority::User, size) {
            Some(message) => after == self && events == seq![
                EventView::ShellCommandFinished {
                    command_id: cmd.command_id@,
                    command: cmd.command@,
                    include_in_context: cmd.include_in_context,
                    target_agent_id: opt_view(cmd.target_agent_id),
                    output: message,
                    exit_code: None,
                    cancelled: false,
                },
            ],
            None => events == Seq::<EventView>::empty() && exists|item: WorkItem<Job>| #[trigger]
                is_user_job(item, cmd, self.config.shell) && after == (ShellView {
                    lanes: self.lanes.with_lane(
                        WorkPriority::User,
                        self.lanes.user.push(item),
                    ),
                    ..self
                }),
        }
    }

    /// What a delivered event leads to.
    pub open spec fn delivered(
        self,
        event: Incoming,
        replay: bool,
        after: ShellView,
        events: Seq<EventView>,
        signal: Option<Seq<char>>,
    ) -> bool {
        let quiet = events == Seq::<EventView>::empty();
        &&& !(event is ToolCancelRequest) ==> signal is None
        &&& match event {
            Incoming::AgentLoaded { agent_id } => after == self && events == seq![
                context_event(agent_id@, self.cwd_of(agent_id@)),
                EventView::ExtensionContextReady { agent_id: agent_id@ },
            ],
            Incoming::AgentUnloaded { agent_id } => after == self.agent_unloaded(agent_id@)
                && quiet,
            Incoming::AgentStarted { agent_id, metadata } => after == self.agent_started(
                agent_id@,
                metadata@,
            ) && quiet,
            Incoming::ToolStarted(call) => self.tool_started(call@, replay, after, events),
            Incoming::AgentMetadataSet { agent_id, key, value } => (after, events)
                == self.metadata_set(agent_id@, key@, value@, replay),
            Incoming::AgentMetadataUnset { agent_id, key } => (after, events)
                == self.metadata_unset(agent_id@, key@, replay),
            Incoming::StartAgentAccepted { query_id, agent_id } => after == (ShellView {
                owners: self.owners.insert(query_id@, agent_id@),
                ..self
            }) && quiet,
            Incoming::StartAgentResult { query_id } => after == self.start_result(query_id@)
                && quiet,
            Incoming::ActionInvoke { action, found } => {
                let (locks, event) = action_call(action@, found_view(found), self.locks);
                after == (ShellView { locks, ..self }) && events == seq![event]
            },
            Incoming::ToolCancelRequest { target_call_id } => (after, events, signal)
                == self.cancel_request(target_call_id@),
            Incoming::UiShellCommand(cmd) => self.user_command(cmd, after, events),
            Incoming::Other => after == self && quiet,
        }
    }

    /// What a message of the harness leads to.
    pub open spec fn stepped(
        self,
        message: HarnessMessage,
        after: ShellView,
        events: Seq<EventView>,
        signal: Option<Seq<char>>,
        stop: bool,
    ) -> bool {
        match message {
            HarnessMessage::Configure { config, instance_name, changed } => !stop && signal is None
                && (after, events) == self.configure(
                match config {
                    Ok(config) => Ok(config@),
                    Err(message) => Err(message@),
                },
                opt_view(instance_name),
                match changed {
                    Ok(dir) => Ok(dir@),
                    Err(error) => Err(error@),
                },
            ),
            HarnessMessage::Deliver { replay, event } => !stop && (ShellView {
                started: true,
                ..self
            }).delivered(event, replay, after, events, signal),
            HarnessMessage::Disconnect => stop && signal is None && events == Seq::<
                EventView,
            >::empty() && after == (ShellView { lanes: Lanes::empty(), ..self }),
            HarnessMessage::Other => !stop && signal is None && events == Seq::<
                EventView,
            >::empty() && after == self,
        }
    }
}

/// The result of a call of the `cd` tool.
fn cd_result(cwd: &String) -> (output: ToolOutput)
    ensures
        output@ == cd_output(cwd@),
{
    broadcast use group_cbor_views;

    let mut entries: Vec<(CborValue, CborValue)> = Vec::new();
    push_entry(&mut entries, "cwd", CborValue::Text(cwd.clone()));
    assert(entry_views(entries@) =~= seq![entry("cwd", Cbor::Text(cwd@))]);
    ToolOutput { result: CborValue::Dict(entries), display: ok_display(cwd.as_str()) }
}

/// The event that tells the harness an agent's directory.
pub fn cwd_context_event(agent_id: &String, cwd: &String) -> (event: Event)
    ensures
        event@ == context_event(agent_id@, cwd@),
{
    Event::AgentContextPublish {
        agent_id: agent_id.clone(),
        key: "cwd".to_owned(),
        value: cwd.clone(),
    }
}

/// The event that tells an agent its new directory.
pub fn cwd_notice_event(agent_id: &String, cwd: &String) -> (event: Event)
    ensures
        event@ == notice_event(agent_id@, cwd@),
{
    let mut text = "Your working directory changed to ".to_owned();
    text.append(cwd.as_str());
    text.append(".");
    Event::AgentUserMessageInjected { agent_id: agent_id.clone(), text }
}

fn cd_error(call: ToolStarted, message: String, waited: Option<u64>) -> (event: Event)
    ensures
        event@ == event_with_wait(
            EventView::ToolError {
                call_id: call@.call_id,
                tool_name: call@.tool_name,
                message: message@,
                details: None,
                display: None,
                originator: call@.originator,
            },
            waited,
        ),
{
    with_lock_wait_duration(
        Event::ToolError {
            call_id: call.call_id,
            tool_name: call.tool_name,
            message,
            details: None,
            display: None,
            originator: call.originator,
        },
        waited,
    )
}

impl ShellExtension {
    /// What holds of the state at all times.
    pub open spec fn wf(&self) -> bool {
        &&& self.cwd.wf()
        &&& self.scheduler.wf()
        &&& self.start_agent_owners.wf()
        &&& self.running_shells.wf()
    }

    /// The state at the start, in a directory.
    pub fn new(echo: bool, default_cwd: String) -> (state: Self)
        ensures
            state.wf(),
            state@ == ShellView::fresh(echo, default_cwd@),
    {
        let state = ShellExtension {
            config: ExtConfig::default(),
            runtime_started: false,
            echo,
            default_cwd,
            locks: LockState::new(),
            cwd: CwdState::new(),
            scheduler: WorkScheduler::new(SchedulerConfig::default()),
            start_agent_owners: TextMap::new(),
            running_shells: TextMap::new(),
        };
        assert(state@.owners =~= Map::<Seq<char>, Seq<char>>::empty());
        assert(state@.running =~= Set::<Seq<char>>::empty());
        state
    }

    /// The directory that a configuration asks the process to change to.
    pub fn directory_to_enter(&self, config: &ExtConfig) -> (path: Option<String>)
        ensures
            opt_view(path) == match workdir_decision(
                self@.config.working_directory,
                if config@.working_directory is None {
                    self@.config.working_directory
                } else {
                    config@.working_directory
                },
                self@.started,
            ) {
                WorkdirView::Change { path } => Some(path),
                _ => None,
            },
    {
        if config.working_directory.is_none() {
            return None;
        }
        match decide_working_directory(
            &self.config.working_directory,
            &config.working_directory,
            self.runtime_started,
        ) {
            WorkdirDecision::Change { path } => Some(path),
            _ => None,
        }
    }

    fn configure(
        &mut self,
        config: Result<ExtConfig, String>,
        instance_name: Option<String>,
        changed: Result<String, String>,
        events: &mut Vec<Event>,
    )
        requires
            old(self).wf(),
            old(events)@.len() == 0,
        ensures
            final(self).wf(),
            (final(self)@, event_views(final(events)@)) == old(self)@.configure(
                match config {
                    Ok(config) => Ok(config@),
                    Err(message) => Err(message@),
                },
                opt_view(instance_name),
                match changed {
                    Ok(dir) => Ok(dir@),
                    Err(error) => Err(error@),
                },
            ),
    {
        assert(event_views(events@) =~= seq![]);
        let mut next = match config {
            Ok(next) => next,
            Err(message) => {
                push_event(events, Event::ConfigError { message });
                assert(event_views(events@) =~= seq![config_error(message@)]);
                return ;
            },
        };
        if next.working_directory.is_none() {
            next.working_directory = self.config.working_directory.clone();
        }
        if let Some(name) = instance_name {
            self.cwd.set_instance_name(name);
        }
        match decide_working_directory(
            &self.config.working_directory,
            &next.working_directory,
            self.runtime_started,
        ) {
            WorkdirDecision::Refuse { message } => {
                push_event(events, Event::ConfigError { message });
                assert(event_views(events@) =~= seq![config_error(message@)]);
                return ;
            },
            WorkdirDecision::Keep => {},
            WorkdirDecision::Change { path } => {
                match changed {
                    Ok(dir) => {
                        self.default_cwd = dir;
                    },
                    Err(error) => {
                        let mut message =
                            "failed to set ext-shell working_directory to ".to_owned();
                        message.append(path.as_str());
                        message.append(": ");
                        message.append(error.as_str());
                        push_event(events, Event::ConfigError { message });
                        assert(event_views(events@) =~= seq![config_error(message@)]);
                        return ;
                    },
                }
            },
        }
        let was = self.config.dir_lock.enable;
        let locking = next.dir_lock.enable;
        self.config = next;
        if was && !locking {
            let _ = self.locks.disable();
        }
        if was != locking {
            push_event(events, Event::DirLockToolRegister { enabled: locking });
            assert(event_views(events@) =~= seq![EventView::DirLockToolRegister { enabled: locking }]);
        }
    }

    fn cwd_lost(&mut self, agent_id: &String, message: String, events: &mut Vec<Event>)
        requires
            old(self).wf(),
            old(events)@.len() == 0,
        ensures
            final(self).wf(),
            (final(self)@, event_views(final(events)@)) == old(self)@.cwd_lost(
                agent_id@,
                message@,
            ),
    {
        let cwd = self.cwd.get_or_default(agent_id, &self.default_cwd);
        push_event(events, cwd_context_event(agent_id, &cwd));
        let ghost first = event_views(events@);
        assert(first =~= seq![context_event(agent_id@, old(self)@.cwd_of(agent_id@))]);
        let _ = self.cwd.take_pending_notice(agent_id);
        if let Some(done) = self.cwd.take_pending_cd_result(agent_id) {
            push_event(events, cd_error(done.call, message, done.lock_wait_duration_seconds));
            assert(event_views(events@) =~= first + seq![
                cd_failed(old(self)@.cwd.pending[agent_id@], message@),
            ]);
        } else {
            assert(event_views(events@) =~= first + seq![]);
        }
    }

    fn metadata_set(
        &mut self,
        agent_id: String,
        key: String,
        value: CborValue,
        replay: bool,
        events: &mut Vec<Event>,
    )
        requires
            old(self).wf(),
            old(events)@.len() == 0,
        ensures
            final(self).wf(),
            (final(self)@, event_views(final(events)@)) == old(self)@.metadata_set(
                agent_id@,
                key@,
                value@,
                replay,
            ),
    {
        assert(event_views(events@) =~= seq![]);
        let own = self.cwd.key();
        if key != own {
            return ;
        }
        let cwd = match value {
            CborValue::Text(cwd) => cwd,
            _ => {
                if replay {
                    return ;
                }
                self.cwd_lost(
                    &agent_id,
                    "committed cwd metadata value is not text; cwd unchanged".to_owned(),
                    events,
                );
                return ;
            },
        };
        self.cwd.set(agent_id.clone(), cwd.clone());
        if replay {
            return ;
        }
        push_event(events, cwd_context_event(&agent_id, &cwd));
        let ghost first = event_views(events@);
        assert(first =~= seq![context_event(agent_id@, cwd@)]);
        let noticed = self.cwd.take_pending_notice(&agent_id).is_some();
        if noticed {
            push_event(events, cwd_notice_event(&agent_id, &cwd));
        }
        let ghost second = event_views(events@);
        assert(second =~= first + event_if(noticed, notice_event(agent_id@, cwd@)));
        if let Some(done) = self.cwd.take_committed_pending_cd_result(&agent_id, &cwd) {
            let event = if done.matched_request {
                with_lock_wait_duration(
                    tool_result(&done.call, cd_result(&cwd)),
                    done.lock_wait_duration_seconds,
                )
            } else {
                let mut message =
                    "committed cwd metadata did not match requested cwd; cwd changed to ".to_owned();
                message.append(cwd.as_str());
                cd_error(done.call, message, done.lock_wait_duration_seconds)
            };
            assert(event@ == cd_confirmed(old(self)@.cwd.pending[agent_id@], cwd@));
            push_event(events, event);
            assert(event_views(events@) =~= second + seq![event@]);
        } else {
            assert(event_views(events@) =~= second + seq![]);
        }
    }

    fn metadata_unset(
        &mut self,
        agent_id: String,
        key: String,
        replay: bool,
        events: &mut Vec<Event>,
    )
        requires
            old(self).wf(),
            old(events)@.len() == 0,
        ensures
            final(self).wf(),
            (final(self)@, event_views(final(events)@)) == old(self)@.metadata_unset(
                agent_id@,
                key@,
                replay,
            ),
    {
        assert(event_views(events@) =~= seq![]);
        let own = self.cwd.key();
        if key != own {
            return ;
        }
        self.cwd.unset(&agent_id);
        if replay {
            return ;
        }
        self.cwd_lost(
            &agent_id,
            "committed cwd metadata was unset; cwd reverted to the process default".to_owned(),
            events,
        );
    }

    fn agent_unloaded(&mut self, agent_id: &String)
        requires
            old(self).wf(),
        ensures
            final(self).wf(),
            final(self)@ == old(self)@.agent_unloaded(agent_id@),
    {
        let _ = self.locks.release_agent(agent_id);
        let _ = self.scheduler.cancel_agent(agent_id);
        self.cwd.unset(agent_id);
        let _ = self.cwd.take_pending_notice(agent_id);
        let _ = self.cwd.take_pending_cd_result(agent_id);
        self.start_agent_owners.remove_value(agent_id);
    }

    fn agent_started(&mut self, agent_id: &String, metadata: &Vec<MetadataItem>)
        requires
            old(self).wf(),
        ensures
            final(self).wf(),
            final(self)@ == old(self)@.agent_started(agent_id@, metadata@),
    {
        let key = self.cwd.key();
        let mut i: usize = 0;
        assert(metadata@.take(0) =~= seq![]);
        while i < metadata.len()
            invariant
                i <= metadata@.len(),
                self.wf(),
                key@ == cwd_key(old(self)@.cwd.instance),
                self@ == old(self)@.agent_started(agent_id@, metadata@.take(i as int)),
            decreases metadata.len() - i,
        {
            assert(metadata@.take(i + 1).drop_last() =~= metadata@.take(i as int));
            let item = &metadata[i];
            if item.key == key {
                if let CborValue::Text(cwd) = &item.value {
                    self.cwd.set(agent_id.clone(), cwd.clone());
                }
            }
            i += 1;
        }
        assert(metadata@.take(i as int) =~= metadata@);
    }

    fn start_result(&mut self, query_id: &String)
        requires
            old(self).wf(),
        ensures
            final(self).wf(),
            final(self)@ == old(self)@.start_result(query_id@),
    {
        if let Some(agent_id) = self.start_agent_owners.remove(query_id) {
            assert(text_values(self.start_agent_owners@) =~= old(self)@.owners.remove(query_id@));
            let _ = self.locks.release_agent(&agent_id);
            let _ = self.scheduler.cancel_agent(&agent_id);
        } else {
            assert(text_values(self.start_agent_owners@) =~= old(self)@.owners);
        }
    }

    /// Queues a tool call, or answers it with the reason why it cannot.
    fn schedule_tool_started(&mut self, call: ToolStarted, replay: bool, events: &mut Vec<Event>)
        requires
            old(self).wf(),
            old(events)@.len() == 0,
        ensures
            final(self).wf(),
            old(self)@.tool_started(call@, replay, final(self)@, event_views(final(events)@)),
    {
        assert(event_views(events@) =~= seq![]);
        if replay || !is_shell_tool(call.tool_name.as_str(), self.echo) {
            return ;
        }
        let priority = priority_for_tool(&call);
        let meta = WorkMeta {
            call_id: Some(call.call_id.clone()),
            tool_name: Some(call.tool_name.clone()),
            agent_id: Some(call.agent_id.clone()),
            queued_bytes: approximate_tool_bytes(&call, self.scheduler.queued_bytes_limit()),
        };
        let refused = call.copy();
        let job = Job::Tool { call, config: self.config.copy() };
        let ghost item = WorkItem { meta, job };
        assert(is_tool_job(
            item,
            call@,
            old(self)@.config,
            old(self)@.limits.queued_bytes_limit,
        ));
        match self.scheduler.enqueue(priority, meta, job) {
            Ok(_) => {},
            Err(error) => {
                push_event(events, tool_failure(&refused, ToolFailure::new(error.message)));
                assert(event_views(events@) =~= seq![
                    failure_event(call@, failure(error.message@)),
                ]);
            },
        }
    }

    /// Queues a command of the user, or answers it with the reason why it
    /// cannot.
    fn schedule_ui_shell_command(&mut self, cmd: UiShellCommand, events: &mut Vec<Event>)
        requires
            old(self).wf(),
            old(events)@.len() == 0,
        ensures
            final(self).wf(),
            old(self)@.user_command(cmd, final(self)@, event_views(final(events)@)),
    {
        assert(event_views(events@) =~= seq![]);
        let meta = WorkMeta {
            call_id: None,
            tool_name: None,
            agent_id: cmd.target_agent_id.clone(),
            queued_bytes: byte_len(cmd.command.as_str()),
        };
        let command_id = cmd.command_id.clone();
        let command = cmd.command.clone();
        let include_in_context = cmd.include_in_context;
        let target_agent_id = cmd.target_agent_id.clone();
        let job = Job::UserShell { cmd, config: self.config.shell.copy() };
        let ghost item = WorkItem { meta, job };
        assert(is_user_job(item, cmd, old(self)@.config.shell));
        match self.scheduler.enqueue(WorkPriority::User, meta, job) {
            Ok(_) => {},
            Err(error) => {
                push_event(
                    events,
                    Event::ShellCommandFinished {
                        command_id,
                        command,
                        include_in_context,
                        target_agent_id,
                        output: error.message,
                        exit_code: None,
                        cancelled: false,
                    },
                );
                assert(event_views(events@).len() == 1);
                assert(event_views(events@) =~= seq![event_views(events@)[0]]);
            },
        }
    }

    fn cancel_request(&mut self, call_id: String, events: &mut Vec<Event>) -> (signal: Option<
        String,
    >)
        requires
            old(self).wf(),
            old(events)@.len() == 0,
        ensures
            final(self).wf(),
            (final(self)@, event_views(final(events)@), opt_view(signal))
                == old(self)@.cancel_request(call_id@),
    {
        assert(event_views(events@) =~= seq![]);
        let (queued, cancelled) = self.scheduler.cancel_queued_call(&call_id);
        if queued {
            if let Some(call) = cancelled {
                push_event(
                    events,
                    Event::ToolCancelled { call_id: call.call_id, tool_name: call.tool_name },
                );
                assert(event_views(events@) =~= seq![
                    EventView::ToolCancelled { call_id: call_id@, tool_name: call.tool_name@ },
                ]);
            }
            return None;
        }
        if self.running_shells.contains_key(&call_id) {
            return Some(call_id);
        }
        let _ = self.locks.cancel_waiting_call(&call_id);
        None
    }

    /// Takes a message of the harness: changes the state and says what to send
    /// and to do.
    pub fn step(&mut self, message: HarnessMessage) -> (out: StepOutput)
        requires
            old(self).wf(),
        ensures
            final(self).wf(),
            old(self)@.stepped(
                message,
                final(self)@,
                event_views(out.events@),
                opt_view(out.signal),
                out.stop,
            ),
    {
        let mut events: Vec<Event> = Vec::new();
        let mut signal: Option<String> = None;
        assert(event_views(events@) =~= seq![]);
        match message {
            HarnessMessage::Configure { config, instance_name, changed } => {
                self.configure(config, instance_name, changed, &mut events);
            },
            HarnessMessage::Deliver { replay, event } => {
                self.runtime_started = true;
                match event {
                    Incoming::AgentLoaded { agent_id } => {
                        let cwd = self.cwd.get_or_default(&agent_id, &self.default_cwd);
                        push_event(&mut events, cwd_context_event(&agent_id, &cwd));
                        push_event(&mut events, Event::ExtensionContextReady { agent_id });
                        assert(event_views(events@) =~= seq![
                            context_event(agent_id@, cwd@),
                            EventView::ExtensionContextReady { agent_id: agent_id@ },
                        ]);
                    },
                    Incoming::AgentUnloaded { agent_id } => self.agent_unloaded(&agent_id),
                    Incoming::AgentStarted { agent_id, metadata } => self.agent_started(
                        &agent_id,
                        &metadata,
                    ),
                    Incoming::ToolStarted(call) => self.schedule_tool_started(
                        call,
                        replay,
                        &mut events,
                    ),
                    Incoming::AgentMetadataSet { agent_id, key, value } => self.metadata_set(
                        agent_id,
                        key,
                        value,
                        replay,
                        &mut events,
                    ),
                    Incoming::AgentMetadataUnset { agent_id, key } => self.metadata_unset(
                        agent_id,
                        key,
                        replay,
                        &mut events,
                    ),
                    Incoming::StartAgentAccepted { query_id, agent_id } => {
                        let ghost before = self@.owners;
                        let _ = self.start_agent_owners.insert(query_id, agent_id);
                        assert(text_values(self.start_agent_owners@) =~= before.insert(
                            query_id@,
                            agent_id@,
                        ));
                    },
                    Incoming::StartAgentResult { query_id } => self.start_result(&query_id),
                    Incoming::ActionInvoke { action, found } => {
                        let event = dispatch_action_invoke(action, &found, &mut self.locks);
                        push_event(&mut events, event);
                        assert(event_views(events@) =~= seq![event@]);
                    },
                    Incoming::ToolCancelRequest { target_call_id } => {
                        signal = self.cancel_request(target_call_id, &mut events);
                    },
                    Incoming::UiShellCommand(cmd) => self.schedule_ui_shell_command(
                        cmd,
                        &mut events,
                    ),
                    Incoming::Other => {},
                }
            },
            HarnessMessage::Disconnect => {
                let _ = self.scheduler.cancel_all_queued();
                return StepOutput { events, signal, stop: true };
            },
            HarnessMessage::Other => {},
        }
        StepOutput { events, signal, stop: false }
    }
}

/// Whether states and outputs follow from messages, one after another, up to
/// the message that ends the extension.
pub open spec fn runs(
    states: Seq<ShellView>,
    messages: Seq<HarnessMessage>,
    outputs: Seq<StepOutput>,
) -> bool {
    &&& states.len() == outputs.len() + 1
    &&& outputs.len() <= messages.len()
    &&& forall|i: int|
        0 <= i < outputs.len() ==> (#[trigger] states[i]).stepped(
            messages[i],
            states[i + 1],
            event_views(outputs[i].events@),
            opt_view(outputs[i].signal),
            outputs[i].stop,
        )
    &&& forall|i: int| 0 <= i < outputs.len() - 1 ==> !(#[trigger] outputs[i]).stop
    &&& outputs.len() < messages.len() ==> outputs.len() > 0 && outputs.last().stop
}

/// Runs the extension over messages, up to the one that ends it or the last of
/// them; what is still queued then is dropped.
pub fn run(state: &mut ShellExtension, messages: Vec<HarnessMessage>) -> (outputs: Vec<StepOutput>)
    requires
        old(state).wf(),
    ensures
        final(state).wf(),
        exists|states: Seq<ShellView>| #[trigger]
            runs(states, messages@, outputs@) && states[0] == old(state)@ && final(state)@ == (
            ShellView { lanes: Lanes::empty(), ..states.last() }),
{
    let mut outputs: Vec<StepOutput> = Vec::new();
    let ghost mut states: Seq<ShellView> = seq![state@];
    let ghost all = messages@;
    let mut stopped = false;
    for message in iter: messages
        invariant
            iter.seq() == all,
            state.wf(),
            states.len() == outputs@.len() + 1,
            states[0] == old(state)@,
            states.last() == state@,
            outputs@.len() <= iter.index(),
            !stopped ==> outputs@.len() == iter.index(),
            stopped ==> outputs@.len() > 0 && outputs@.last().stop,
            forall|i: int|
                0 <= i < outputs@.len() ==> (#[trigger] states[i]).stepped(
                    all[i],
                    states[i + 1],
                    event_views(outputs@[i].events@),
                    opt_view(outputs@[i].signal),
                    outputs@[i].stop,
                ),
            forall|i: int| 0 <= i < outputs@.len() - 1 ==> !(#[trigger] outputs@[i]).stop,
            !stopped ==> forall|i: int| 0 <= i < outputs@.len() ==> !(#[trigger] outputs@[i]).stop,
    {
        if !stopped {
            let ghost old_states = states;
            let ghost old_outputs = outputs@;
            let out = state.step(message);
            stopped = out.stop;
            outputs.push(out);
            proof {
                states = states.push(state@);
                assert forall|i: int| 0 <= i < outputs@.len() implies (
                #[trigger] states[i]).stepped(
                    all[i],
                    states[i + 1],
                    event_views(outputs@[i].events@),
                    opt_view(outputs@[i].signal),
                    outputs@[i].stop,
                ) by {
                    assert(states[i] == old_states[i]);
                    if i < old_outputs.len() {
                        assert(states[i + 1] == old_states[i + 1]);
                        assert(outputs@[i] == old_outputs[i]);
                    }
                }
            }
        }
    }
    proof {
        assert(runs(states, all, outputs@));
    }
    let _ = state.scheduler.cancel_all_queued();
    outputs
}

/// History is not acted on again: a replayed tool call is neither queued nor
/// answered, and a replayed directory is remembered and nothing is sent.
pub proof fn law_replay_has_no_side_effects(
    s: ShellView,
    event: Incoming,
    after: ShellView,
    events: Seq<EventView>,
    signal: Option<Seq<char>>,
)
    requires
        s.delivered(event, true, after, events, signal),
        event is ToolStarted || event is AgentMetadataSet || event is AgentMetadataUnset,
    ensures
        events.len() == 0,
        signal is None,
        after.lanes == s.lanes,
        after.locks == s.locks,
        after.cwd.pending == s.cwd.pending,
        after.cwd.notices == s.cwd.notices,
{
}

/// An agent that left leaves nothing behind: no lock, no waiter, no queued
/// work and no directory.
pub proof fn law_unloaded_agent_is_forgotten(s: ShellView, agent: Seq<char>)
    ensures
        ({
            let after = s.agent_unloaded(agent);
            &&& !after.cwd.cwd.dom().contains(agent)
            &&& !after.cwd.notices.dom().contains(agent)
            &&& !after.cwd.pending.dom().contains(agent)
            &&& forall|i: int|
                0 <= i < after.locks.manual.len() ==> (#[trigger] after.locks.manual[i]).owner
                    != agent
            &&& forall|i: int|
                0 <= i < after.locks.waiters.len() ==> (#[trigger] after.locks.waiters[i]).owner
                    != agent
            &&& forall|p: WorkPriority, i: int|
                0 <= i < after.lanes.lane(p).len() ==> !crate::shell::scheduler::of_agent(
                    #[trigger] after.lanes.lane(p)[i],
                    agent,
                )
        }),
{
    let after = s.agent_unloaded(agent);
    crate::shell::dir_lock_laws::law_released_locks_are_gone(s.locks, seq![], agent);
    assert forall|p: WorkPriority, i: int| 0 <= i < after.lanes.lane(p).len() implies !crate::shell::scheduler::of_agent(
    #[trigger] after.lanes.lane(p)[i], agent) by {
        crate::shell::scheduler::law_cancelled_agent_has_no_work(s.lanes, agent, p);
    }
}

/// Every change of directory is answered once: when the harness confirms it or
/// drops it, the answer goes out and nothing waits any more.
pub proof fn law_cd_is_answered_once(
    s: ShellView,
    agent: Seq<char>,
    value: Cbor,
)
    requires
        s.cwd.pending.dom().contains(agent),
    ensures
        ({
            let (after, events) = s.metadata_set(agent, cwd_key(s.cwd.instance), value, false);
            &&& !after.cwd.pending.dom().contains(agent)
            &&& events.len() >= 2
            &&& match events.last() {
                EventView::ToolResult { call_id, .. } => call_id
                    == s.cwd.pending[agent].call.call_id,
                EventView::ToolError { call_id, .. } => call_id
                    == s.cwd.pending[agent].call.call_id,
                _ => false,
            }
        }),
{
}

} // verus!
