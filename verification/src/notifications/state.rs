//! The state of the notifications extension, and what an event does to it.

use vstd::prelude::*;

use crate::notifications::hooks::{
    all_outputs, config_error, context_at, delay_of, emit_hook, emit_hooks, hook_outputs,
    no_config, output_views, plain, plain_fault, push_output, tells, template_context, ConfigView,
    ExtConfig, Failure, Fault, IdleHookConfig, Output, OutputView,
};
use crate::notifications::template::Place;
use crate::proto::PromptOriginator;
use crate::shell::command::later;
use crate::text::{decimal_of, opt_view, trim, trim_of};
use crate::text_map::{text_values, TextMap};

verus! {

/// Default idle time before the user is notified, in seconds.
pub const DEFAULT_IDLE_SECONDS: u64 = 60;

/// How long a summary is waited for, in seconds.
pub const SUMMARY_TIMEOUT_SECONDS: u64 = 10;

/// What an idle agent is asked for.
pub const SUMMARY_INSTRUCTION: &'static str =
    "Summarize in one short sentence: what is the last thing you did or what do you need from the user now? Keep it under 200 characters. Output only the summary, nothing else.";

/// Where an idle action stands: it waits for its deadline, or for the summary
/// that it asked for.
#[derive(Debug)]
pub enum IdleState {
    WaitingIdle { deadline: u128 },
    WaitingSummary { query_id: String, deadline: u128 },
}

/// Where an idle action stands, as mathematics.
pub enum IdleStateView {
    WaitingIdle { deadline: u128 },
    WaitingSummary { query_id: Seq<char>, deadline: u128 },
}

impl View for IdleState {
    type V = IdleStateView;

    open spec fn view(&self) -> IdleStateView {
        match self {
            IdleState::WaitingIdle { deadline } => IdleStateView::WaitingIdle {
                deadline: *deadline,
            },
            IdleState::WaitingSummary { query_id, deadline } => IdleStateView::WaitingSummary {
                query_id: query_id@,
                deadline: *deadline,
            },
        }
    }
}

/// The moment until which an idle action waits.
pub open spec fn deadline_of(state: IdleStateView) -> u128 {
    match state {
        IdleStateView::WaitingIdle { deadline } => deadline,
        IdleStateView::WaitingSummary { deadline, .. } => deadline,
    }
}

impl IdleState {
    /// The moment until which the action waits.
    pub fn deadline(&self) -> (deadline: u128)
        ensures
            deadline == deadline_of(self@),
    {
        match self {
            IdleState::WaitingIdle { deadline } => *deadline,
            IdleState::WaitingSummary { deadline, .. } => *deadline,
        }
    }
}

/// The list of actions that a waiting action comes from.
#[derive(Clone, Copy, Debug, PartialEq, Eq, Structural)]
pub enum IdleHookKind {
    Agent,
    AgentAll,
}

/// An idle action that waits.
#[derive(Debug)]
pub struct PendingIdleHook {
    pub kind: IdleHookKind,
    /// Where the action stands in its list.
    pub index: usize,
    pub agent_id: String,
    pub user_prompt: String,
    pub agent_response: String,
    pub state: IdleState,
}

/// An idle action that waits, as mathematics.
pub struct PendingView {
    pub kind: IdleHookKind,
    pub index: usize,
    pub agent_id: Seq<char>,
    pub user_prompt: Seq<char>,
    pub agent_response: Seq<char>,
    pub state: IdleStateView,
}

impl View for PendingIdleHook {
    type V = PendingView;

    open spec fn view(&self) -> PendingView {
        PendingView {
            kind: self.kind,
            index: self.index,
            agent_id: self.agent_id@,
            user_prompt: self.user_prompt@,
            agent_response: self.agent_response@,
            state: self.state@,
        }
    }
}

/// The views of waiting actions.
pub open spec fn pending_views(list: Seq<PendingIdleHook>) -> Seq<PendingView> {
    list.map_values(|p: PendingIdleHook| p@)
}

/// The last turn of an agent.
#[derive(Debug)]
pub struct TurnContext {
    pub user_prompt: String,
    pub agent_response: String,
}

/// The last turn of an agent, as mathematics.
pub struct TurnView {
    pub user_prompt: Seq<char>,
    pub agent_response: Seq<char>,
}

impl View for TurnContext {
    type V = TurnView;

    open spec fn view(&self) -> TurnView {
        TurnView { user_prompt: self.user_prompt@, agent_response: self.agent_response@ }
    }
}

/// Who wrote a message.
#[derive(Clone, Copy, Debug, PartialEq, Eq, Structural)]
pub enum ContextRole {
    User,
    Assistant,
    Other,
}

/// A part of a response.
#[derive(Debug)]
pub enum ResponseItem {
    Message { role: ContextRole, content: Vec<String> },
    Other,
}

/// A text with more texts behind it, each on a line of its own.
pub open spec fn with_lines(out: Seq<char>, content: Seq<String>) -> Seq<char>
    decreases content.len(),
{
    if content.len() == 0 {
        out
    } else {
        let before = with_lines(out, content.drop_last());
        if before.len() == 0 {
            content.last()@
        } else {
            before + "\n"@ + content.last()@
        }
    }
}

/// What the assistant wrote in a response.
pub open spec fn response_text_of(items: Seq<ResponseItem>) -> Seq<char>
    decreases items.len(),
{
    if items.len() == 0 {
        seq![]
    } else {
        let before = response_text_of(items.drop_last());
        match items.last() {
            ResponseItem::Message { role: ContextRole::Assistant, content } => with_lines(
                before,
                content@,
            ),
            _ => before,
        }
    }
}

/// What the assistant wrote in a response.
pub fn response_text(items: &Vec<ResponseItem>) -> (text: String)
    ensures
        text@ == response_text_of(items@),
{
    let mut out = String::new();
    let mut i: usize = 0;
    assert(out@ =~= seq![]);
    while i < items.len()
        invariant
            i <= items@.len(),
            out@ == response_text_of(items@.take(i as int)),
        decreases items.len() - i,
    {
        assert(items@.take(i + 1).drop_last() =~= items@.take(i as int));
        if let ResponseItem::Message { role, content } = &items[i] {
            let by_assistant = match role {
                ContextRole::Assistant => true,
                _ => false,
            };
            if by_assistant {
                let ghost start = out@;
                let mut k: usize = 0;
                assert(content@.take(0) =~= seq![]);
                while k < content.len()
                    invariant
                        k <= content@.len(),
                        out@ == with_lines(start, content@.take(k as int)),
                    decreases content.len() - k,
                {
                    assert(content@.take(k + 1).drop_last() =~= content@.take(k as int));
                    if !out.as_str().is_empty() {
                        out.append("\n");
                        out.append(content[k].as_str());
                    } else {
                        out = content[k].clone();
                    }
                    k += 1;
                }
                assert(content@.take(k as int) =~= content@);
            }
        }
        i += 1;
    }
    assert(items@.take(i as int) =~= items@);
    out
}

/// An event that the harness delivers.
#[allow(inconsistent_fields)]
#[derive(Debug)]
pub enum Incoming {
    AgentState { agent_id: String, running: bool },
    StartAgentAccepted { query_id: String, agent_id: String },
    StartAgentResult { query_id: String, text: String, error: Option<String> },
    AgentStarted { agent_id: String, display_name: Option<String> },
    AgentDisplayNameSet { agent_id: String, display_name: String },
    ProviderPromptSubmitted { originator: PromptOriginator },
    ProviderResponseUpdated { originator: PromptOriginator },
    ProviderResponseFinished {
        agent_id: String,
        agent_prompt_id: String,
        originator: PromptOriginator,
        /// Whether the response asks for tools to be called.
        requests_tools: bool,
        items: Vec<ResponseItem>,
    },
    AgentPromptSubmitted {
        agent_id: String,
        text: String,
        originator: PromptOriginator,
        internal: bool,
        display_name: Option<String>,
    },
    AgentPromptCreated { originator: PromptOriginator },
    UiPromptDraft,
    ToolResult {
        call_id: String,
        originator: PromptOriginator,
        /// Whether the tool goes on in the background.
        background: bool,
    },
    ToolBackgroundResult { call_id: String, originator: PromptOriginator },
    ToolBackgroundError { call_id: String, originator: PromptOriginator },
    Other,
}

/// Whether the user asked.
pub open spec fn by_user(originator: PromptOriginator) -> bool {
    originator is User
}

/// Whether the user asked.
fn is_user(originator: &PromptOriginator) -> (b: bool)
    ensures
        b == by_user(*originator),
{
    match originator {
        PromptOriginator::User => true,
        PromptOriginator::Extension { .. } => false,
    }
}

/// Whether an event belongs to a side conversation of an extension.
pub open spec fn by_sub_agent(event: Incoming) -> bool {
    match event {
        Incoming::ProviderPromptSubmitted { originator } => !by_user(originator),
        Incoming::ProviderResponseUpdated { originator } => !by_user(originator),
        Incoming::ProviderResponseFinished { originator, .. } => !by_user(originator),
        Incoming::AgentPromptSubmitted { originator, .. } => !by_user(originator),
        Incoming::AgentPromptCreated { originator } => !by_user(originator),
        _ => false,
    }
}

/// Whether an event belongs to a side conversation of an extension.
pub fn is_sub_agent_event(event: &Incoming) -> (b: bool)
    ensures
        b == by_sub_agent(*event),
{
    match event {
        Incoming::ProviderPromptSubmitted { originator } => !is_user(originator),
        Incoming::ProviderResponseUpdated { originator } => !is_user(originator),
        Incoming::ProviderResponseFinished { originator, .. } => !is_user(originator),
        Incoming::AgentPromptSubmitted { originator, .. } => !is_user(originator),
        Incoming::AgentPromptCreated { originator } => !is_user(originator),
        _ => false,
    }
}

/// The state of the extension. Moments are nanoseconds from some origin.
#[derive(Debug)]
pub struct NotifyState {
    pub config: ExtConfig,
    pub default_delay: u128,
    pub summary_timeout: u128,
    pub idle: Vec<PendingIdleHook>,
    pub idle_all: Vec<PendingIdleHook>,
    pub busy_agents: TextMap<()>,
    pub all_idle_context: TextMap<TurnContext>,
    /// Agents that write a summary, by the request for it.
    pub ignored_summary_agents: TextMap<String>,
    pub display_names: TextMap<String>,
    pub input_closed: bool,
    pub waiting_for_final_response: bool,
    pub turn_end_emitted: bool,
    pub final_response_pending: bool,
    pub pending_prompt: Option<String>,
    pub pending_agent: Option<String>,
    pub pending_text: String,
    pub last_user_prompt: String,
    pub completed_prompts: TextMap<()>,
    pub background_tools: TextMap<()>,
    pub next_query_id: u64,
}

/// The state of the extension, as mathematics.
#[verifier::ext_equal]
pub struct NotifyView {
    pub config: ConfigView,
    pub default_delay: u128,
    pub summary_timeout: u128,
    pub idle: Seq<PendingView>,
    pub idle_all: Seq<PendingView>,
    pub busy: Set<Seq<char>>,
    pub contexts: Map<Seq<char>, TurnView>,
    pub ignored: Map<Seq<char>, Seq<char>>,
    pub names: Map<Seq<char>, Seq<char>>,
    pub closed: bool,
    pub waiting: bool,
    pub ended: bool,
    pub deferred: bool,
    pub pending_prompt: Option<Seq<char>>,
    pub pending_agent: Option<Seq<char>>,
    pub pending_text: Seq<char>,
    pub last_prompt: Seq<char>,
    pub completed: Set<Seq<char>>,
    pub background: Set<Seq<char>>,
    pub next_query: u64,
}

impl View for NotifyState {
    type V = NotifyView;

    open spec fn view(&self) -> NotifyView {
        NotifyView {
            config: self.config@,
            default_delay: self.default_delay,
            summary_timeout: self.summary_timeout,
            idle: pending_views(self.idle@),
            idle_all: pending_views(self.idle_all@),
            busy: self.busy_agents@.dom(),
            contexts: self.all_idle_context@.map_values(|t: TurnContext| t@),
            ignored: text_values(self.ignored_summary_agents@),
            names: text_values(self.display_names@),
            closed: self.input_closed,
            waiting: self.waiting_for_final_response,
            ended: self.turn_end_emitted,
            deferred: self.final_response_pending,
            pending_prompt: opt_view(self.pending_prompt),
            pending_agent: opt_view(self.pending_agent),
            pending_text: self.pending_text@,
            last_prompt: self.last_user_prompt@,
            completed: self.completed_prompts@.dom(),
            background: self.background_tools@.dom(),
            next_query: self.next_query_id,
        }
    }
}

/// What an event leads to: the state after it, what is sent, and the failure that
/// the extension ends with, where it does.
#[verifier::ext_equal]
pub struct Reaction {
    pub state: NotifyView,
    pub out: Seq<OutputView>,
    pub failure: Failure,
}

/// What is wrong with a configuration that came or could not be read.
pub open spec fn given_fault(config: Result<ExtConfig, String>, host: Seq<char>, cwd: Seq<char>) -> Option<
    Fault,
> {
    match config {
        Err(message) => Some(plain(message@)),
        Ok(config) => config_error(config@, host, cwd),
    }
}

/// Whether the last output reports what is wrong with a configuration, where
/// something is.
pub open spec fn reports(
    config: Result<ExtConfig, String>,
    host: Seq<char>,
    cwd: Seq<char>,
    out: Seq<Output>,
) -> bool {
    match given_fault(config, host, cwd) {
        Some(fault) => out.len() > 0 && (out.last() matches Output::ConfigError(told)
            && fault.is_told_by(told)),
        None => true,
    }
}

/// A reaction without outputs.
pub open spec fn quiet(state: NotifyView) -> Reaction {
    Reaction { state, out: seq![], failure: None }
}

/// The configured action of a waiting one.
pub open spec fn configured(config: ConfigView, pending: PendingView) -> IdleHookConfig {
    match pending.kind {
        IdleHookKind::Agent => config.agent_idle[pending.index as int],
        IdleHookKind::AgentAll => config.agent_idle_all[pending.index as int],
    }
}

/// Whether a waiting action is configured.
pub open spec fn is_configured(config: ConfigView, pending: PendingView) -> bool {
    match pending.kind {
        IdleHookKind::Agent => pending.index < config.agent_idle.len(),
        IdleHookKind::AgentAll => pending.index < config.agent_idle_all.len(),
    }
}

/// The name of a list of idle actions.
pub open spec fn kind_name(kind: IdleHookKind) -> Seq<char> {
    match kind {
        IdleHookKind::Agent => "agent_idle"@,
        IdleHookKind::AgentAll => "agent_idle_all"@,
    }
}

/// Whether a waiting action asked for a summary with a request.
pub open spec fn asked_with(pending: PendingView, query: Seq<char>) -> bool {
    pending.state matches IdleStateView::WaitingSummary { query_id, .. } && query_id == query
}

/// Where an action that asked with a request stands; the number of actions if
/// none did.
pub open spec fn asked_at(list: Seq<PendingView>, query: Seq<char>) -> int
    decreases list.len(),
{
    if list.len() == 0 || asked_with(list[0], query) {
        0
    } else {
        1 + asked_at(list.drop_first(), query)
    }
}

/// Where the first action stands whose deadline has come; the number of actions
/// if there is none.
pub open spec fn due_at(list: Seq<PendingView>, now: u128) -> int
    decreases list.len(),
{
    if list.len() == 0 || deadline_of(list[0].state) <= now {
        0
    } else {
        1 + due_at(list.drop_first(), now)
    }
}

/// The number after one; after the largest comes the first.
pub open spec fn next_id(n: u64) -> u64 {
    if n < u64::MAX {
        (n + 1) as u64
    } else {
        0
    }
}

/// How many steps waiting actions can still take.
pub open spec fn steps_left(list: Seq<PendingView>) -> nat
    decreases list.len(),
{
    if list.len() == 0 {
        0
    } else {
        steps_left(list.drop_last()) + if list.last().state is WaitingIdle {
            2nat
        } else {
            1nat
        }
    }
}

/// The name that is shown of an agent.
pub open spec fn shown_name(names: Map<Seq<char>, Seq<char>>, agent: Seq<char>) -> Seq<char> {
    if names.dom().contains(agent) && trim_of(names[agent]).len() > 0 {
        trim_of(names[agent])
    } else {
        agent
    }
}

/// Names with one set, where it is not blank.
pub open spec fn with_name(
    names: Map<Seq<char>, Seq<char>>,
    agent: Seq<char>,
    name: Option<Seq<char>>,
) -> Map<Seq<char>, Seq<char>> {
    match name {
        Some(name) if trim_of(name).len() > 0 => names.insert(agent, trim_of(name)),
        _ => names,
    }
}

/// Idle actions, armed for an agent.
pub open spec fn armed(
    hooks: Seq<IdleHookConfig>,
    kind: IdleHookKind,
    agent: Seq<char>,
    user_prompt: Seq<char>,
    agent_response: Seq<char>,
    default_delay: u128,
    now: u128,
) -> Seq<PendingView> {
    Seq::new(
        hooks.len(),
        |i: int|
            PendingView {
                kind,
                index: i as usize,
                agent_id: agent,
                user_prompt,
                agent_response,
                state: IdleStateView::WaitingIdle {
                    deadline: later(now, delay_of(hooks[i], default_delay) as int),
                },
            },
    )
}

/// Waiting actions, put off because the user is typing. One that asked for a
/// summary is left alone.
pub open spec fn put_off(
    list: Seq<PendingView>,
    config: ConfigView,
    default_delay: u128,
    now: u128,
) -> Seq<PendingView> {
    list.map_values(
        |p: PendingView|
            match p.state {
                IdleStateView::WaitingIdle { .. } => PendingView {
                    state: IdleStateView::WaitingIdle {
                        deadline: later(
                            now,
                            delay_of(configured(config, p), default_delay) as int,
                        ),
                    },
                    ..p
                },
                _ => p,
            },
    )
}

impl NotifyView {
    /// What a waiting action leads to when it is run.
    pub open spec fn run_pending(
        self,
        pending: PendingView,
        summary: Seq<char>,
        host: Seq<char>,
        cwd: Seq<char>,
    ) -> (Seq<OutputView>, Failure) {
        hook_outputs(
            configured(self.config, pending).hook,
            context_at(
                kind_name(pending.kind),
                pending.agent_id,
                shown_name(self.names, pending.agent_id),
                pending.user_prompt,
                pending.agent_response,
                summary,
                host,
                cwd,
            ),
        )
    }

    /// The event's part in following who works: which agents are busy, whose
    /// summaries do not count, and how each agent's last turn went.
    pub open spec fn followed(self, event: Incoming, now: u128) -> NotifyView {
        match event {
            Incoming::AgentState { agent_id, running } => if running {
                if exists|q: Seq<char>| #[trigger]
                    self.ignored.dom().contains(q) && self.ignored[q] == agent_id@ {
                    self
                } else {
                    NotifyView { busy: self.busy.insert(agent_id@), idle_all: seq![], ..self }
                }
            } else {
                let left = self.busy.remove(agent_id@);
                let turn = if self.contexts.dom().contains(agent_id@) {
                    self.contexts[agent_id@]
                } else {
                    TurnView { user_prompt: seq![], agent_response: seq![] }
                };
                if self.busy.contains(agent_id@) && left == Set::<Seq<char>>::empty() {
                    NotifyView {
                        busy: left,
                        idle_all: armed(
                            self.config.agent_idle_all,
                            IdleHookKind::AgentAll,
                            agent_id@,
                            turn.user_prompt,
                            turn.agent_response,
                            self.default_delay,
                            now,
                        ),
                        ..self
                    }
                } else {
                    NotifyView { busy: left, ..self }
                }
            },
            Incoming::StartAgentAccepted { query_id, agent_id } => if asked_at(
                self.idle,
                query_id@,
            ) < self.idle.len() || asked_at(self.idle_all, query_id@) < self.idle_all.len() {
                NotifyView { ignored: self.ignored.insert(query_id@, agent_id@), ..self }
            } else {
                self
            },
            Incoming::ProviderResponseFinished { agent_id, originator, requests_tools, items, .. } =>
            if by_user(originator) && !requests_tools {
                NotifyView {
                    contexts: self.contexts.insert(
                        agent_id@,
                        TurnView {
                            user_prompt: self.last_prompt,
                            agent_response: response_text_of(items@),
                        },
                    ),
                    ..self
                }
            } else {
                self
            },
            _ => self,
        }
    }

    /// The end of a turn: its actions are run, and idle actions are armed.
    pub open spec fn turn_ends(
        self,
        agent: Seq<char>,
        response: Seq<char>,
        now: u128,
        host: Seq<char>,
        cwd: Seq<char>,
    ) -> Reaction {
        let (out, failure) = all_outputs(
            self.config.agent_end,
            context_at(
                "agent_end"@,
                agent,
                shown_name(self.names, agent),
                self.last_prompt,
                response,
                seq![],
                host,
                cwd,
            ),
        );
        if failure is Some {
            Reaction { state: self, out, failure }
        } else {
            Reaction {
                state: NotifyView {
                    waiting: false,
                    ended: true,
                    idle: armed(
                        self.config.agent_idle,
                        IdleHookKind::Agent,
                        agent,
                        self.last_prompt,
                        response,
                        self.default_delay,
                        now,
                    ),
                    ..self
                },
                out,
                failure: None,
            }
        }
    }

    /// A prompt of the user.
    pub open spec fn prompted(
        self,
        agent: Seq<char>,
        text: Seq<char>,
        internal: bool,
        name: Option<Seq<char>>,
        host: Seq<char>,
        cwd: Seq<char>,
    ) -> Reaction {
        let named = NotifyView {
            names: with_name(self.names, agent, name),
            idle: seq![],
            ..self
        };
        if internal {
            quiet(named)
        } else {
            let settled = if named.deferred {
                NotifyView {
                    deferred: false,
                    pending_prompt: None,
                    completed: match named.pending_prompt {
                        Some(id) => named.completed.insert(id),
                        None => named.completed,
                    },
                    waiting: false,
                    ended: false,
                    ..named
                }
            } else {
                named
            };
            if settled.waiting {
                quiet(settled)
            } else {
                let at = NotifyView { last_prompt: text, ..settled };
                let (out, failure) = all_outputs(
                    at.config.agent_start,
                    context_at(
                        "agent_start"@,
                        agent,
                        shown_name(at.names, agent),
                        text,
                        seq![],
                        seq![],
                        host,
                        cwd,
                    ),
                );
                if failure is Some {
                    Reaction { state: at, out, failure }
                } else {
                    Reaction {
                        state: NotifyView { waiting: true, ended: false, ..at },
                        out,
                        failure: None,
                    }
                }
            }
        }
    }

    /// A response of the model. Only a final one ends the turn, once, and only
    /// where no tool works in the background any more.
    pub open spec fn responded(
        self,
        agent: Seq<char>,
        prompt: Seq<char>,
        requests_tools: bool,
        response: Seq<char>,
        now: u128,
        host: Seq<char>,
        cwd: Seq<char>,
    ) -> Reaction {
        if requests_tools || self.completed.contains(prompt) || self.ended {
            quiet(self)
        } else if self.background == Set::<Seq<char>>::empty() {
            let r = self.turn_ends(agent, response, now, host, cwd);
            if r.failure is Some {
                r
            } else {
                Reaction {
                    state: NotifyView { completed: r.state.completed.insert(prompt), ..r.state },
                    ..r
                }
            }
        } else {
            quiet(
                NotifyView {
                    deferred: true,
                    pending_prompt: Some(prompt),
                    pending_agent: Some(agent),
                    pending_text: response,
                    ..self
                },
            )
        }
    }

    /// A tool in the background is done: the last of them ends a turn whose
    /// final response has come.
    pub open spec fn background_done(
        self,
        call: Seq<char>,
        now: u128,
        host: Seq<char>,
        cwd: Seq<char>,
    ) -> Reaction {
        let left = NotifyView { background: self.background.remove(call), ..self };
        if left.deferred && left.background == Set::<Seq<char>>::empty() {
            let at = NotifyView { deferred: false, pending_agent: None, ..left };
            match left.pending_agent {
                None => quiet(at),
                Some(agent) => {
                    let cleared = NotifyView { pending_text: seq![], ..at };
                    let r = cleared.turn_ends(agent, left.pending_text, now, host, cwd);
                    if r.failure is Some {
                        r
                    } else {
                        Reaction {
                            state: NotifyView {
                                pending_prompt: None,
                                completed: match r.state.pending_prompt {
                                    Some(id) => r.state.completed.insert(id),
                                    None => r.state.completed,
                                },
                                ..r.state
                            },
                            ..r
                        }
                    }
                },
            }
        } else {
            quiet(left)
        }
    }

    /// A summary came, or a request for one failed: the action that asked for
    /// it is run.
    pub open spec fn summarized(
        self,
        query: Seq<char>,
        text: Seq<char>,
        failed: bool,
        host: Seq<char>,
        cwd: Seq<char>,
    ) -> Reaction {
        let at = NotifyView { ignored: self.ignored.remove(query), ..self };
        let i = asked_at(at.idle, query);
        let k = asked_at(at.idle_all, query);
        let summary = if failed {
            seq![]
        } else {
            trim_of(text)
        };
        if i < at.idle.len() {
            let left = NotifyView { idle: at.idle.remove(i), ..at };
            let (out, failure) = left.run_pending(at.idle[i], summary, host, cwd);
            Reaction { state: left, out, failure }
        } else if k < at.idle_all.len() {
            let left = NotifyView { idle_all: at.idle_all.remove(k), ..at };
            let (out, failure) = left.run_pending(at.idle_all[k], summary, host, cwd);
            Reaction { state: left, out, failure }
        } else {
            quiet(at)
        }
    }

    /// What an event of the user's own conversation leads to.
    pub open spec fn handled(
        self,
        event: Incoming,
        now: u128,
        host: Seq<char>,
        cwd: Seq<char>,
    ) -> Reaction {
        match event {
            Incoming::AgentStarted { agent_id, display_name } => quiet(
                NotifyView {
                    names: with_name(self.names, agent_id@, opt_view(display_name)),
                    ..self
                },
            ),
            Incoming::AgentDisplayNameSet { agent_id, display_name } => quiet(
                NotifyView {
                    names: with_name(self.names, agent_id@, Some(display_name@)),
                    ..self
                },
            ),
            Incoming::ProviderPromptSubmitted { .. } => quiet(
                NotifyView { idle: seq![], ..self },
            ),
            Incoming::AgentPromptSubmitted { agent_id, text, internal, display_name, .. } =>
            self.prompted(agent_id@, text@, internal, opt_view(display_name), host, cwd),
            Incoming::UiPromptDraft => quiet(
                NotifyView {
                    idle: put_off(self.idle, self.config, self.default_delay, now),
                    idle_all: put_off(self.idle_all, self.config, self.default_delay, now),
                    ..self
                },
            ),
            Incoming::ProviderResponseFinished {
                agent_id,
                agent_prompt_id,
                requests_tools,
                items,
                ..
            } => self.responded(
                agent_id@,
                agent_prompt_id@,
                requests_tools,
                response_text_of(items@),
                now,
                host,
                cwd,
            ),
            Incoming::ToolResult { call_id, originator, background } => if by_user(originator)
                && background {
                quiet(NotifyView { background: self.background.insert(call_id@), ..self })
            } else {
                quiet(self)
            },
            Incoming::ToolBackgroundResult { call_id, originator } => if by_user(originator) {
                self.background_done(call_id@, now, host, cwd)
            } else {
                quiet(self)
            },
            Incoming::ToolBackgroundError { call_id, originator } => if by_user(originator) {
                self.background_done(call_id@, now, host, cwd)
            } else {
                quiet(self)
            },
            Incoming::StartAgentResult { query_id, text, error } => self.summarized(
                query_id@,
                text@,
                error is Some,
                host,
                cwd,
            ),
            _ => quiet(self),
        }
    }

    /// What a delivered event leads to. History leads to nothing, and side
    /// conversations only count in who is busy.
    pub open spec fn delivered(
        self,
        event: Incoming,
        replay: bool,
        now: u128,
        host: Seq<char>,
        cwd: Seq<char>,
    ) -> Reaction {
        if replay {
            quiet(self)
        } else if by_sub_agent(event) {
            quiet(self.followed(event, now))
        } else {
            self.followed(event, now).handled(event, now, host, cwd)
        }
    }

    /// A report of what is wrong with a configuration, and nothing else.
    pub open spec fn reporting(self, fault: Fault) -> Reaction {
        Reaction {
            state: self,
            out: seq![OutputView::ConfigError(fault.seen())],
            failure: None,
        }
    }

    /// What a configuration leads to: a good one takes the place of the old one
    /// and drops the actions that wait, a bad one is reported.
    pub open spec fn configure(
        self,
        config: Result<ExtConfig, String>,
        host: Seq<char>,
        cwd: Seq<char>,
    ) -> Reaction {
        match config {
            Err(message) => self.reporting(plain(message@)),
            Ok(config) => match config_error(config@, host, cwd) {
                Some(fault) => self.reporting(fault),
                None => quiet(NotifyView { config: config@, idle: seq![], idle_all: seq![], ..self }),
            },
        }
    }

    /// The waiting actions of one list whose deadline has come, run one after
    /// another: one that wants a summary asks for it and goes on waiting.
    pub open spec fn run_due(
        self,
        list: Seq<PendingView>,
        now: u128,
        host: Seq<char>,
        cwd: Seq<char>,
    ) -> (Seq<PendingView>, u64, Seq<OutputView>, Failure)
        decreases steps_left(list),
        via Self::run_due_decreases
    {
        let i = due_at(list, now);
        if i >= list.len() {
            (list, self.next_query, seq![], None)
        } else {
            let pending = list[i];
            let left = list.remove(i);
            if pending.state is WaitingIdle && configured(self.config, pending).agent_summary {
                let query = "idle-"@ + decimal_of(self.next_query as nat);
                let asked = PendingView {
                    state: IdleStateView::WaitingSummary {
                        query_id: query,
                        deadline: later(now, self.summary_timeout as int),
                    },
                    ..pending
                };
                let next = NotifyView { next_query: next_id(self.next_query), ..self };
                let (end, id, out, failure) = next.run_due(left.push(asked), now, host, cwd);
                (
                    end,
                    id,
                    seq![
                        OutputView::StartAgentRequest {
                            query_id: query,
                            instruction: SUMMARY_INSTRUCTION@,
                        },
                    ] + out,
                    failure,
                )
            } else {
                let (first, failure) = self.run_pending(pending, seq![], host, cwd);
                if failure is Some {
                    (left, self.next_query, first, failure)
                } else {
                    let (end, id, out, failure) = self.run_due(left, now, host, cwd);
                    (end, id, first + out, failure)
                }
            }
        }
    }

    #[via_fn]
    proof fn run_due_decreases(
        self,
        list: Seq<PendingView>,
        now: u128,
        host: Seq<char>,
        cwd: Seq<char>,
    ) {
        lemma_due_at(list, now);
        let i = due_at(list, now);
        if i < list.len() {
            lemma_steps_remove(list, i);
            let left = list.remove(i);
            assert forall|p: PendingView| #[trigger] left.push(p).drop_last() == left by {
                assert(left.push(p).drop_last() =~= left);
            }
        }
    }

    /// What a deadline leads to: the actions of both lists that are due.
    pub open spec fn timed_out(self, now: u128, host: Seq<char>, cwd: Seq<char>) -> Reaction {
        let (idle, id, out, failure) = self.run_due(self.idle, now, host, cwd);
        let first = NotifyView { idle, next_query: id, ..self };
        if failure is Some {
            Reaction { state: first, out, failure }
        } else {
            let (idle_all, id, more, failure) = first.run_due(first.idle_all, now, host, cwd);
            Reaction {
                state: NotifyView { idle_all, next_query: id, ..first },
                out: out + more,
                failure,
            }
        }
    }
}

/// `due_at` is within the list, and an action that it finds is due.
pub proof fn lemma_due_at(list: Seq<PendingView>, now: u128)
    ensures
        0 <= due_at(list, now) <= list.len(),
        due_at(list, now) < list.len() ==> deadline_of(list[due_at(list, now)].state) <= now,
        forall|k: int|
            0 <= k < due_at(list, now) ==> deadline_of((#[trigger] list[k]).state) > now,
    decreases list.len(),
{
    if list.len() > 0 && deadline_of(list[0].state) > now {
        let rest = list.drop_first();
        lemma_due_at(rest, now);
        assert forall|k: int| 0 <= k < due_at(list, now) implies deadline_of(
            (#[trigger] list[k]).state,
        ) > now by {
            if k > 0 {
                assert(rest[k - 1] == list[k]);
            }
        }
    }
}

/// `asked_at` is within the list, and an action that it finds asked.
pub proof fn lemma_asked_at(list: Seq<PendingView>, query: Seq<char>)
    ensures
        0 <= asked_at(list, query) <= list.len(),
        asked_at(list, query) < list.len() ==> asked_with(list[asked_at(list, query)], query),
    decreases list.len(),
{
    if list.len() > 0 && !asked_with(list[0], query) {
        lemma_asked_at(list.drop_first(), query);
    }
}

/// Without an action that waits, there are fewer steps left.
pub proof fn lemma_steps_remove(list: Seq<PendingView>, i: int)
    requires
        0 <= i < list.len(),
    ensures
        steps_left(list) == steps_left(list.remove(i)) + if list[i].state is WaitingIdle {
            2nat
        } else {
            1nat
        },
    decreases list.len(),
{
    if i == list.len() - 1 {
        assert(list.remove(i) =~= list.drop_last());
    } else {
        assert(list.remove(i).drop_last() =~= list.drop_last().remove(i));
        lemma_steps_remove(list.drop_last(), i);
    }
}

/// Whether all waiting actions come from one list and are configured.
pub open spec fn all_configured(
    list: Seq<PendingView>,
    config: ConfigView,
    kind: IdleHookKind,
) -> bool {
    forall|i: int|
        0 <= i < list.len() ==> (#[trigger] list[i]).kind == kind && is_configured(config, list[i])
}

/// The name of a list of idle actions.
pub fn idle_hook_name(kind: IdleHookKind) -> (name: &'static str)
    ensures
        name@ == kind_name(kind),
{
    match kind {
        IdleHookKind::Agent => "agent_idle",
        IdleHookKind::AgentAll => "agent_idle_all",
    }
}

/// The configured action of a waiting one.
pub fn configured_idle_hook<'a>(config: &'a ExtConfig, pending: &PendingIdleHook) -> (hook:
    &'a IdleHookConfig)
    requires
        is_configured(config@, pending@),
    ensures
        *hook == configured(config@, pending@),
{
    match pending.kind {
        IdleHookKind::Agent => &config.agent_idle[pending.index],
        IdleHookKind::AgentAll => &config.agent_idle_all[pending.index],
    }
}

/// Idle actions, armed for an agent.
pub fn arm_hooks(
    hooks: &Vec<IdleHookConfig>,
    kind: IdleHookKind,
    agent_id: &String,
    user_prompt: &String,
    agent_response: &String,
    default_delay: u128,
    now: u128,
) -> (list: Vec<PendingIdleHook>)
    ensures
        pending_views(list@) == armed(
            hooks@,
            kind,
            agent_id@,
            user_prompt@,
            agent_response@,
            default_delay,
            now,
        ),
{
    let ghost all = armed(
        hooks@,
        kind,
        agent_id@,
        user_prompt@,
        agent_response@,
        default_delay,
        now,
    );
    let mut list: Vec<PendingIdleHook> = Vec::new();
    let mut i: usize = 0;
    assert(pending_views(list@) =~= all.take(0));
    while i < hooks.len()
        invariant
            i <= hooks@.len(),
            all == armed(
                hooks@,
                kind,
                agent_id@,
                user_prompt@,
                agent_response@,
                default_delay,
                now,
            ),
            pending_views(list@) == all.take(i as int),
        decreases hooks.len() - i,
    {
        let pending = PendingIdleHook {
            kind,
            index: i,
            agent_id: agent_id.clone(),
            user_prompt: user_prompt.clone(),
            agent_response: agent_response.clone(),
            state: IdleState::WaitingIdle {
                deadline: now.saturating_add(hooks[i].delay_duration(default_delay)),
            },
        };
        assert(pending@ == all[i as int]);
        let ghost before = list@;
        list.push(pending);
        assert(pending_views(list@) =~= pending_views(before).push(pending@));
        i += 1;
        assert(pending_views(list@) =~= all.take(i as int));
    }
    assert(all.take(i as int) =~= all);
    list
}

/// Puts waiting actions off.
fn put_off_all(
    list: &mut Vec<PendingIdleHook>,
    config: &ExtConfig,
    default_delay: u128,
    now: u128,
    Ghost(kind): Ghost<IdleHookKind>,
)
    requires
        all_configured(pending_views(old(list)@), config@, kind),
    ensures
        pending_views(final(list)@) == put_off(
            pending_views(old(list)@),
            config@,
            default_delay,
            now,
        ),
{
    let ghost before = pending_views(list@);
    let ghost goal = put_off(before, config@, default_delay, now);
    let mut i: usize = 0;
    while i < list.len()
        invariant
            i <= list@.len() == before.len() == goal.len(),
            before == pending_views(old(list)@),
            all_configured(before, config@, kind),
            goal == put_off(before, config@, default_delay, now),
            forall|j: int| 0 <= j < i ==> (#[trigger] list@[j])@ == goal[j],
            forall|j: int| i <= j < list@.len() ==> (#[trigger] list@[j])@ == before[j],
        decreases list.len() - i,
    {
        assert(list@[i as int]@ == before[i as int]);
        let delay: u128 = configured_idle_hook(config, &list[i]).delay_duration(default_delay);
        let waits = match &list[i].state {
            IdleState::WaitingIdle { .. } => true,
            _ => false,
        };
        if waits {
            let pending = &mut list[i];
            pending.state = IdleState::WaitingIdle { deadline: now.saturating_add(delay) };
        }
        assert(list@[i as int]@ == goal[i as int]);
        i += 1;
    }
    assert(pending_views(list@) =~= goal);
}

/// Where an action that asked with a request stands.
fn find_asked(list: &Vec<PendingIdleHook>, query_id: &String) -> (at: usize)
    ensures
        at == asked_at(pending_views(list@), query_id@),
        at <= list@.len(),
{
    let ghost all = pending_views(list@);
    let mut i: usize = 0;
    assert(all.skip(0) =~= all);
    while i < list.len()
        invariant
            i <= list@.len(),
            all == pending_views(list@),
            asked_at(all, query_id@) == i + asked_at(all.skip(i as int), query_id@),
        decreases list.len() - i,
    {
        assert(all.skip(i as int)[0] == list@[i as int]@);
        let asked = match &list[i].state {
            IdleState::WaitingSummary { query_id: id, .. } => *id == *query_id,
            _ => false,
        };
        if asked {
            return i;
        }
        assert(all.skip(i as int).drop_first() =~= all.skip(i + 1));
        i += 1;
    }
    i
}

/// Where the first action stands whose deadline has come.
pub fn find_due(list: &Vec<PendingIdleHook>, now: u128) -> (at: usize)
    ensures
        at == due_at(pending_views(list@), now),
        at <= list@.len(),
{
    let ghost all = pending_views(list@);
    let mut i: usize = 0;
    assert(all.skip(0) =~= all);
    while i < list.len()
        invariant
            i <= list@.len(),
            all == pending_views(list@),
            due_at(all, now) == i + due_at(all.skip(i as int), now),
        decreases list.len() - i,
    {
        assert(all.skip(i as int)[0] == list@[i as int]@);
        if list[i].state.deadline() <= now {
            return i;
        }
        assert(all.skip(i as int).drop_first() =~= all.skip(i + 1));
        i += 1;
    }
    i
}

/// The earliest deadline of waiting actions.
pub open spec fn earliest(list: Seq<PendingView>) -> Option<u128>
    decreases list.len(),
{
    if list.len() == 0 {
        None
    } else {
        let last = deadline_of(list.last().state);
        match earliest(list.drop_last()) {
            Some(before) if before <= last => Some(before),
            _ => Some(last),
        }
    }
}

/// The earliest deadline of waiting actions.
pub fn next_idle_deadline(list: &Vec<PendingIdleHook>) -> (deadline: Option<u128>)
    ensures
        deadline == earliest(pending_views(list@)),
{
    let ghost all = pending_views(list@);
    let mut first: Option<u128> = None;
    let mut i: usize = 0;
    assert(all.take(0) =~= seq![]);
    while i < list.len()
        invariant
            i <= list@.len(),
            all == pending_views(list@),
            first == earliest(all.take(i as int)),
        decreases list.len() - i,
    {
        assert(all.take(i + 1).drop_last() =~= all.take(i as int));
        assert(all.take(i + 1).last() == list@[i as int]@);
        let here = list[i].state.deadline();
        first = match first {
            Some(before) => if before <= here {
                Some(before)
            } else {
                Some(here)
            },
            None => Some(here),
        };
        i += 1;
    }
    assert(all.take(i as int) =~= all);
    first
}

impl NotifyState {
    /// What holds of the state at all times: every waiting action is one of the
    /// configuration in force.
    pub open spec fn wf(&self) -> bool {
        &&& self.busy_agents.wf()
        &&& self.all_idle_context.wf()
        &&& self.ignored_summary_agents.wf()
        &&& self.display_names.wf()
        &&& self.completed_prompts.wf()
        &&& self.background_tools.wf()
        &&& all_configured(self@.idle, self@.config, IdleHookKind::Agent)
        &&& all_configured(self@.idle_all, self@.config, IdleHookKind::AgentAll)
    }

    /// The state at the start.
    pub fn new(default_delay: u128, summary_timeout: u128) -> (state: Self)
        ensures
            state.wf(),
            state@.default_delay == default_delay,
            state@.summary_timeout == summary_timeout,
            state@.config == no_config(),
            state@.idle.len() == 0,
            state@.idle_all.len() == 0,
            state@.busy == Set::<Seq<char>>::empty(),
            state@.contexts == Map::<Seq<char>, TurnView>::empty(),
            state@.ignored == Map::<Seq<char>, Seq<char>>::empty(),
            state@.names == Map::<Seq<char>, Seq<char>>::empty(),
            state@.completed == Set::<Seq<char>>::empty(),
            state@.background == Set::<Seq<char>>::empty(),
            !state@.closed,
            !state@.waiting,
            !state@.ended,
            !state@.deferred,
            state@.pending_prompt is None,
            state@.pending_agent is None,
            state@.pending_text.len() == 0,
            state@.last_prompt.len() == 0,
            state@.next_query == 0,
    {
        let state = NotifyState {
            config: ExtConfig::default(),
            default_delay,
            summary_timeout,
            idle: Vec::new(),
            idle_all: Vec::new(),
            busy_agents: TextMap::new(),
            all_idle_context: TextMap::new(),
            ignored_summary_agents: TextMap::new(),
            display_names: TextMap::new(),
            input_closed: false,
            waiting_for_final_response: false,
            turn_end_emitted: false,
            final_response_pending: false,
            pending_prompt: None,
            pending_agent: None,
            pending_text: String::new(),
            last_user_prompt: String::new(),
            completed_prompts: TextMap::new(),
            background_tools: TextMap::new(),
            next_query_id: 0,
        };
        assert(state@.busy =~= Set::<Seq<char>>::empty());
        assert(state@.completed =~= Set::<Seq<char>>::empty());
        assert(state@.background =~= Set::<Seq<char>>::empty());
        assert(state@.contexts =~= Map::<Seq<char>, TurnView>::empty());
        assert(state@.ignored =~= Map::<Seq<char>, Seq<char>>::empty());
        assert(state@.names =~= Map::<Seq<char>, Seq<char>>::empty());
        state
    }

    /// The name that is shown of an agent.
    pub fn display_name_for_agent(&self, agent_id: &String) -> (name: String)
        requires
            self.wf(),
        ensures
            name@ == shown_name(self@.names, agent_id@),
    {
        if let Some(name) = self.display_names.get(agent_id) {
            let trimmed = trim(name.as_str());
            if !trimmed.as_str().is_empty() {
                return trimmed;
            }
        }
        agent_id.clone()
    }

    fn set_name(&mut self, agent_id: &String, name: &str)
        requires
            old(self).wf(),
        ensures
            final(self).wf(),
            final(self)@ == (NotifyView {
                names: with_name(old(self)@.names, agent_id@, Some(name@)),
                ..old(self)@
            }),
    {
        let trimmed = trim(name);
        if !trimmed.as_str().is_empty() {
            let _ = self.display_names.insert(agent_id.clone(), trimmed);
            assert(self@.names =~= old(self)@.names.insert(agent_id@, trimmed@));
        }
    }

    /// Runs a waiting action.
    pub fn emit_due_idle_hook(
        &self,
        pending: &PendingIdleHook,
        summary: &str,
        place: &Place,
        out: &mut Vec<Output>,
    ) -> (r: Result<(), String>)
        requires
            self.wf(),
            is_configured(self.config@, pending@),
        ensures
            ({
                let (more, failure) = self@.run_pending(
                    pending@,
                    summary@,
                    place.host@,
                    place.cwd@,
                );
                output_views(final(out)@) == output_views(old(out)@) + more && tells(r, failure)
            }),
    {
        let hook = configured_idle_hook(&self.config, pending);
        let name = self.display_name_for_agent(&pending.agent_id);
        let ctx = template_context(
            idle_hook_name(pending.kind),
            pending.agent_id.as_str(),
            name.as_str(),
            pending.user_prompt.as_str(),
            pending.agent_response.as_str(),
            summary,
            place,
        );
        emit_hook(out, &hook.hook, &ctx)
    }

    /// Follows who works.
    fn follow(&mut self, event: &Incoming, now: u128)
        requires
            old(self).wf(),
        ensures
            final(self).wf(),
            final(self)@ == old(self)@.followed(*event, now),
    {
        match event {
            Incoming::AgentState { agent_id, running } => {
                if *running {
                    if !self.ignored_summary_agents.has_value(agent_id) {
                        let _ = self.busy_agents.insert(agent_id.clone(), ());
                        assert(self@.busy =~= old(self)@.busy.insert(agent_id@));
                        self.idle_all = Vec::new();
                        assert(self@.idle_all =~= seq![]);
                    }
                } else {
                    let was_busy = self.busy_agents.remove(agent_id).is_some();
                    assert(self@.busy =~= old(self)@.busy.remove(agent_id@));
                    if was_busy && self.busy_agents.is_empty() {
                        let (user_prompt, agent_response) = match self.all_idle_context.get(
                            agent_id,
                        ) {
                            Some(turn) => (turn.user_prompt.clone(), turn.agent_response.clone()),
                            None => (String::new(), String::new()),
                        };
                        proof {
                            if !self.all_idle_context@.dom().contains(agent_id@) {
                                assert(user_prompt@ =~= seq![]);
                                assert(agent_response@ =~= seq![]);
                            }
                        }
                        self.idle_all = arm_hooks(
                            &self.config.agent_idle_all,
                            IdleHookKind::AgentAll,
                            agent_id,
                            &user_prompt,
                            &agent_response,
                            self.default_delay,
                            now,
                        );
                    }
                }
            },
            Incoming::StartAgentAccepted { query_id, agent_id } => {
                if find_asked(&self.idle, query_id) < self.idle.len() || find_asked(
                    &self.idle_all,
                    query_id,
                ) < self.idle_all.len() {
                    let _ = self.ignored_summary_agents.insert(query_id.clone(), agent_id.clone());
                    assert(self@.ignored =~= old(self)@.ignored.insert(query_id@, agent_id@));
                }
            },
            Incoming::ProviderResponseFinished {
                agent_id,
                originator,
                requests_tools,
                items,
                ..
            } => {
                if is_user(originator) && !*requests_tools {
                    let turn = TurnContext {
                        user_prompt: self.last_user_prompt.clone(),
                        agent_response: response_text(items),
                    };
                    let ghost added = turn@;
                    let _ = self.all_idle_context.insert(agent_id.clone(), turn);
                    assert(self@.contexts =~= old(self)@.contexts.insert(agent_id@, added));
                }
            },
            _ => {},
        }
    }

    /// Ends a turn.
    fn emit_agent_end(
        &mut self,
        agent_id: &String,
        agent_response: &String,
        now: u128,
        place: &Place,
        out: &mut Vec<Output>,
    ) -> (r: Result<(), String>)
        requires
            old(self).wf(),
        ensures
            final(self).wf(),
            ({
                let reaction = old(self)@.turn_ends(
                    agent_id@,
                    agent_response@,
                    now,
                    place.host@,
                    place.cwd@,
                );
                &&& final(self)@ == reaction.state
                &&& output_views(final(out)@) == output_views(old(out)@) + reaction.out
                &&& tells(r, reaction.failure)
            }),
    {
        let name = self.display_name_for_agent(agent_id);
        let empty = "";
        proof {
            reveal_strlit("");
            assert(empty@ =~= seq![]);
        }
        let ctx = template_context(
            "agent_end",
            agent_id.as_str(),
            name.as_str(),
            self.last_user_prompt.as_str(),
            agent_response.as_str(),
            empty,
            place,
        );
        if let Err(message) = emit_hooks(out, &self.config.agent_end, &ctx) {
            return Err(message);
        }
        self.waiting_for_final_response = false;
        self.turn_end_emitted = true;
        self.idle = arm_hooks(
            &self.config.agent_idle,
            IdleHookKind::Agent,
            agent_id,
            &self.last_user_prompt,
            agent_response,
            self.default_delay,
            now,
        );
        Ok(())
    }

    /// Handles a prompt of the user.
    fn prompt_submitted(
        &mut self,
        agent_id: &String,
        text: &String,
        internal: bool,
        display_name: &Option<String>,
        place: &Place,
        out: &mut Vec<Output>,
    ) -> (r: Result<(), String>)
        requires
            old(self).wf(),
        ensures
            final(self).wf(),
            ({
                let reaction = old(self)@.prompted(
                    agent_id@,
                    text@,
                    internal,
                    opt_view(*display_name),
                    place.host@,
                    place.cwd@,
                );
                &&& final(self)@ == reaction.state
                &&& output_views(final(out)@) == output_views(old(out)@) + reaction.out
                &&& tells(r, reaction.failure)
            }),
    {
        assert(output_views(out@) =~= output_views(old(out)@) + seq![]);
        if let Some(name) = display_name {
            self.set_name(agent_id, name.as_str());
        }
        self.idle = Vec::new();
        assert(self@.idle =~= seq![]);
        if internal {
            return Ok(());
        }
        if self.final_response_pending {
            self.final_response_pending = false;
            let ghost completed = self@.completed;
            if let Some(id) = self.pending_prompt.take() {
                let _ = self.completed_prompts.insert(id, ());
                assert(self@.completed =~= completed.insert(id@));
            }
            self.waiting_for_final_response = false;
            self.turn_end_emitted = false;
        }
        if self.waiting_for_final_response {
            return Ok(());
        }
        self.last_user_prompt = text.clone();
        let name = self.display_name_for_agent(agent_id);
        let empty = "";
        proof {
            reveal_strlit("");
            assert(empty@ =~= seq![]);
        }
        let ctx = template_context(
            "agent_start",
            agent_id.as_str(),
            name.as_str(),
            text.as_str(),
            empty,
            empty,
            place,
        );
        if let Err(message) = emit_hooks(out, &self.config.agent_start, &ctx) {
            return Err(message);
        }
        self.waiting_for_final_response = true;
        self.turn_end_emitted = false;
        Ok(())
    }

    /// Handles a response of the model.
    fn response_finished(
        &mut self,
        agent_id: &String,
        prompt_id: &String,
        requests_tools: bool,
        response: String,
        now: u128,
        place: &Place,
        out: &mut Vec<Output>,
    ) -> (r: Result<(), String>)
        requires
            old(self).wf(),
        ensures
            final(self).wf(),
            ({
                let reaction = old(self)@.responded(
                    agent_id@,
                    prompt_id@,
                    requests_tools,
                    response@,
                    now,
                    place.host@,
                    place.cwd@,
                );
                &&& final(self)@ == reaction.state
                &&& output_views(final(out)@) == output_views(old(out)@) + reaction.out
                &&& tells(r, reaction.failure)
            }),
    {
        assert(output_views(out@) =~= output_views(old(out)@) + seq![]);
        if requests_tools || self.completed_prompts.contains_key(prompt_id)
            || self.turn_end_emitted {
            return Ok(());
        }
        if self.background_tools.is_empty() {
            if let Err(message) = self.emit_agent_end(agent_id, &response, now, place, out) {
                return Err(message);
            }
            let ghost completed = self@.completed;
            let _ = self.completed_prompts.insert(prompt_id.clone(), ());
            assert(self@.completed =~= completed.insert(prompt_id@));
        } else {
            self.final_response_pending = true;
            self.pending_prompt = Some(prompt_id.clone());
            self.pending_agent = Some(agent_id.clone());
            self.pending_text = response;
        }
        Ok(())
    }

    /// Handles the end of a tool in the background.
    fn background_done(
        &mut self,
        call_id: &String,
        now: u128,
        place: &Place,
        out: &mut Vec<Output>,
    ) -> (r: Result<(), String>)
        requires
            old(self).wf(),
        ensures
            final(self).wf(),
            ({
                let reaction = old(self)@.background_done(
                    call_id@,
                    now,
                    place.host@,
                    place.cwd@,
                );
                &&& final(self)@ == reaction.state
                &&& output_views(final(out)@) == output_views(old(out)@) + reaction.out
                &&& tells(r, reaction.failure)
            }),
    {
        assert(output_views(out@) =~= output_views(old(out)@) + seq![]);
        let _ = self.background_tools.remove(call_id);
        assert(self@.background =~= old(self)@.background.remove(call_id@));
        if !(self.final_response_pending && self.background_tools.is_empty()) {
            return Ok(());
        }
        self.final_response_pending = false;
        let agent_id = match self.pending_agent.take() {
            Some(agent_id) => agent_id,
            None => {
                return Ok(());
            },
        };
        let mut response = String::new();
        assert(response@ =~= seq![]);
        core::mem::swap(&mut response, &mut self.pending_text);
        if let Err(message) = self.emit_agent_end(&agent_id, &response, now, place, out) {
            return Err(message);
        }
        let ghost completed = self@.completed;
        if let Some(id) = self.pending_prompt.take() {
            let _ = self.completed_prompts.insert(id, ());
            assert(self@.completed =~= completed.insert(id@));
        }
        Ok(())
    }

    /// Handles a summary.
    fn summary_finished(
        &mut self,
        query_id: &String,
        text: &String,
        failed: bool,
        place: &Place,
        out: &mut Vec<Output>,
    ) -> (r: Result<(), String>)
        requires
            old(self).wf(),
        ensures
            final(self).wf(),
            ({
                let reaction = old(self)@.summarized(
                    query_id@,
                    text@,
                    failed,
                    place.host@,
                    place.cwd@,
                );
                &&& final(self)@ == reaction.state
                &&& output_views(final(out)@) == output_views(old(out)@) + reaction.out
                &&& tells(r, reaction.failure)
            }),
    {
        assert(output_views(out@) =~= output_views(old(out)@) + seq![]);
        let _ = self.ignored_summary_agents.remove(query_id);
        assert(self@.ignored =~= old(self)@.ignored.remove(query_id@));
        let summary = if failed {
            let empty = String::new();
            assert(empty@ =~= seq![]);
            empty
        } else {
            trim(text.as_str())
        };
        let i = find_asked(&self.idle, query_id);
        if i < self.idle.len() {
            let ghost list = self@.idle;
            assert(list[i as int] == self.idle@[i as int]@);
            let pending = self.idle.remove(i);
            assert(self@.idle =~= list.remove(i as int));
            proof {
                lemma_remove_configured(list, self.config@, IdleHookKind::Agent, i as int);
            }
            return self.emit_due_idle_hook(&pending, summary.as_str(), place, out);
        }
        let k = find_asked(&self.idle_all, query_id);
        if k < self.idle_all.len() {
            let ghost list = self@.idle_all;
            assert(list[k as int] == self.idle_all@[k as int]@);
            let pending = self.idle_all.remove(k);
            assert(self@.idle_all =~= list.remove(k as int));
            proof {
                lemma_remove_configured(list, self.config@, IdleHookKind::AgentAll, k as int);
            }
            return self.emit_due_idle_hook(&pending, summary.as_str(), place, out);
        }
        Ok(())
    }

    /// Handles an event of the user's own conversation.
    fn handle(&mut self, event: &Incoming, now: u128, place: &Place, out: &mut Vec<Output>) -> (r:
        Result<(), String>)
        requires
            old(self).wf(),
        ensures
            final(self).wf(),
            ({
                let reaction = old(self)@.handled(*event, now, place.host@, place.cwd@);
                &&& final(self)@ == reaction.state
                &&& output_views(final(out)@) == output_views(old(out)@) + reaction.out
                &&& tells(r, reaction.failure)
            }),
    {
        assert(output_views(out@) =~= output_views(old(out)@) + seq![]);
        match event {
            Incoming::AgentStarted { agent_id, display_name } => {
                if let Some(name) = display_name {
                    self.set_name(agent_id, name.as_str());
                }
                Ok(())
            },
            Incoming::AgentDisplayNameSet { agent_id, display_name } => {
                self.set_name(agent_id, display_name.as_str());
                Ok(())
            },
            Incoming::ProviderPromptSubmitted { .. } => {
                self.idle = Vec::new();
                assert(self@.idle =~= seq![]);
                Ok(())
            },
            Incoming::AgentPromptSubmitted { agent_id, text, internal, display_name, .. } => {
                self.prompt_submitted(agent_id, text, *internal, display_name, place, out)
            },
            Incoming::UiPromptDraft => {
                put_off_all(
                    &mut self.idle,
                    &self.config,
                    self.default_delay,
                    now,
                    Ghost(IdleHookKind::Agent),
                );
                put_off_all(
                    &mut self.idle_all,
                    &self.config,
                    self.default_delay,
                    now,
                    Ghost(IdleHookKind::AgentAll),
                );
                Ok(())
            },
            Incoming::ProviderResponseFinished {
                agent_id,
                agent_prompt_id,
                requests_tools,
                items,
                ..
            } => {
                let response = response_text(items);
                self.response_finished(
                    agent_id,
                    agent_prompt_id,
                    *requests_tools,
                    response,
                    now,
                    place,
                    out,
                )
            },
            Incoming::ToolResult { call_id, originator, background } => {
                if is_user(originator) && *background {
                    let _ = self.background_tools.insert(call_id.clone(), ());
                    assert(self@.background =~= old(self)@.background.insert(call_id@));
                }
                Ok(())
            },
            Incoming::ToolBackgroundResult { call_id, originator } => {
                if is_user(originator) {
                    self.background_done(call_id, now, place, out)
                } else {
                    Ok(())
                }
            },
            Incoming::ToolBackgroundError { call_id, originator } => {
                if is_user(originator) {
                    self.background_done(call_id, now, place, out)
                } else {
                    Ok(())
                }
            },
            Incoming::StartAgentResult { query_id, text, error } => {
                self.summary_finished(query_id, text, error.is_some(), place, out)
            },
            _ => Ok(()),
        }
    }

    /// Handles a delivered event.
    pub fn deliver(
        &mut self,
        event: &Incoming,
        replay: bool,
        now: u128,
        place: &Place,
        out: &mut Vec<Output>,
    ) -> (r: Result<(), String>)
        requires
            old(self).wf(),
        ensures
            final(self).wf(),
            ({
                let reaction = old(self)@.delivered(*event, replay, now, place.host@, place.cwd@);
                &&& final(self)@ == reaction.state
                &&& output_views(final(out)@) == output_views(old(out)@) + reaction.out
                &&& tells(r, reaction.failure)
            }),
    {
        assert(output_views(out@) =~= output_views(old(out)@) + seq![]);
        if replay {
            return Ok(());
        }
        self.follow(event, now);
        if is_sub_agent_event(event) {
            return Ok(());
        }
        self.handle(event, now, place, out)
    }

    /// Takes a configuration, or reports what is wrong with it.
    pub fn configure(
        &mut self,
        config: Result<ExtConfig, String>,
        place: &Place,
        out: &mut Vec<Output>,
    )
        requires
            old(self).wf(),
        ensures
            final(self).wf(),
            ({
                let reaction = old(self)@.configure(config, place.host@, place.cwd@);
                &&& final(self)@ == reaction.state
                &&& output_views(final(out)@) == output_views(old(out)@) + reaction.out
            }),
            reports(config, place.host@, place.cwd@, final(out)@),
    {
        let ghost before = output_views(out@);
        match config {
            Err(message) => {
                let fault = plain_fault(message);
                push_output(out, Output::ConfigError(fault));
                assert(output_views(out@) =~= before + seq![OutputView::ConfigError(fault@)]);
            },
            Ok(config) => match config.validate(place) {
                Err(fault) => {
                    push_output(out, Output::ConfigError(fault));
                    assert(output_views(out@) =~= before + seq![OutputView::ConfigError(fault@)]);
                },
                Ok(_) => {
                    self.idle = Vec::new();
                    self.idle_all = Vec::new();
                    self.config = config;
                    assert(self@.idle =~= seq![]);
                    assert(self@.idle_all =~= seq![]);
                    assert(output_views(out@) =~= before + seq![]);
                },
            },
        }
    }
}

/// Without one of them, waiting actions are still configured.
proof fn lemma_remove_configured(
    list: Seq<PendingView>,
    config: ConfigView,
    kind: IdleHookKind,
    i: int,
)
    requires
        all_configured(list, config, kind),
        0 <= i < list.len(),
    ensures
        all_configured(list.remove(i), config, kind),
        is_configured(config, list[i]),
        list[i].kind == kind,
{
    let left = list.remove(i);
    assert forall|k: int| 0 <= k < left.len() implies (#[trigger] left[k]).kind == kind
        && is_configured(config, left[k]) by {
        if k < i {
            assert(left[k] == list[k]);
        } else {
            assert(left[k] == list[k + 1]);
        }
    }
}

} // verus!
