//! The extension's main loop: messages and deadlines, in the order of time.

use vstd::prelude::*;

use crate::notifications::hooks::{all_outputs, no_config, output_views, push_output, tells,
    ConfigFault, ExtConfig, Failure, HookConfig, Output, OutputView};
use crate::notifications::state::{all_configured, configured_idle_hook, deadline_of, due_at,
    earliest, given_fault, is_configured, lemma_due_at, lemma_steps_remove, next_id,
    next_idle_deadline, pending_views, reports, steps_left, IdleHookKind, IdleState, IdleStateView, Incoming, NotifyState, NotifyView,
    PendingIdleHook, PendingView, Reaction, DEFAULT_IDLE_SECONDS, SUMMARY_INSTRUCTION,
    SUMMARY_TIMEOUT_SECONDS};
use crate::notifications::template::{ContextView, Place};
use crate::shell::command::{later, NANOS_PER_SEC};
use crate::text::decimal;

verus! {

/// A message of the harness.
#[derive(Debug)]
pub enum Message {
    /// A configuration, or why it could not be read.
    Configure { config: Result<ExtConfig, String> },
    /// An event. A replayed one is history.
    Deliver { replay: bool, event: Incoming },
    Disconnect,
    Other,
    /// The harness will send nothing more.
    EndOfStream,
}

/// A message and the moment it comes.
#[derive(Debug)]
pub struct TimedMessage {
    pub at: u128,
    pub message: Message,
}

/// An output and the moment it is sent.
#[derive(Debug)]
pub struct TimedOutput {
    pub at: u128,
    pub output: Output,
}

/// An output and the moment it is sent, as mathematics.
pub struct TimedView {
    pub at: u128,
    pub output: OutputView,
}

impl View for TimedOutput {
    type V = TimedView;

    open spec fn view(&self) -> TimedView {
        TimedView { at: self.at, output: self.output@ }
    }
}

/// The views of timed outputs.
pub open spec fn timed_views(outputs: Seq<TimedOutput>) -> Seq<TimedView> {
    outputs.map_values(|o: TimedOutput| o@)
}

/// Outputs, all sent at one moment.
pub open spec fn at_moment(at: u128, outputs: Seq<OutputView>) -> Seq<TimedView> {
    outputs.map_values(|o: OutputView| TimedView { at, output: o })
}

/// How the main loop goes on.
#[derive(Debug)]
pub enum Flow {
    Continue,
    Stop,
    Failed { message: String },
}

/// How the main loop goes on, as mathematics.
pub enum FlowView {
    Continue,
    Stop,
    Failed { message: Seq<char> },
}

/// How the main loop has to go on: where it fails, with one of some messages.
pub enum Next {
    Continue,
    Stop,
    Fail { words: Set<Seq<char>> },
}

impl Next {
    /// Whether the main loop goes on as it has to.
    pub open spec fn is_done_by(self, flow: FlowView) -> bool {
        match (self, flow) {
            (Next::Continue, FlowView::Continue) => true,
            (Next::Stop, FlowView::Stop) => true,
            (Next::Fail { words }, FlowView::Failed { message }) => words.contains(message),
            _ => false,
        }
    }
}

impl View for Flow {
    type V = FlowView;

    open spec fn view(&self) -> FlowView {
        match self {
            Flow::Continue => FlowView::Continue,
            Flow::Stop => FlowView::Stop,
            Flow::Failed { message } => FlowView::Failed { message: message@ },
        }
    }
}

/// Whether nothing can come any more: the harness is silent and no action
/// waits.
pub open spec fn is_over(s: NotifyView) -> bool {
    s.closed && s.idle.len() == 0 && s.idle_all.len() == 0
}

/// How the main loop goes on after a reaction.
pub open spec fn flow_after(r: Reaction) -> Next {
    match r.failure {
        Some(words) => Next::Fail { words },
        None => if is_over(r.state) {
            Next::Stop
        } else {
            Next::Continue
        },
    }
}

impl NotifyView {
    /// What a message leads to.
    pub open spec fn received(
        self,
        message: Message,
        now: u128,
        host: Seq<char>,
        cwd: Seq<char>,
    ) -> (NotifyView, Seq<OutputView>, Next) {
        match message {
            Message::Configure { config } => {
                let r = self.configure(config, host, cwd);
                (r.state, r.out, flow_after(r))
            },
            Message::Deliver { replay, event } => {
                let r = self.delivered(event, replay, now, host, cwd);
                (r.state, r.out, flow_after(r))
            },
            Message::Disconnect => (self, seq![], Next::Stop),
            Message::Other => (
                self,
                seq![],
                if is_over(self) {
                    Next::Stop
                } else {
                    Next::Continue
                },
            ),
            Message::EndOfStream => {
                let closed = NotifyView { closed: true, ..self };
                (
                    closed,
                    seq![],
                    if is_over(closed) {
                        Next::Stop
                    } else {
                        Next::Continue
                    },
                )
            },
        }
    }

    /// What a deadline leads to.
    pub open spec fn expired(self, now: u128, host: Seq<char>, cwd: Seq<char>) -> (
        NotifyView,
        Seq<OutputView>,
        Next,
    ) {
        let r = self.timed_out(now, host, cwd);
        (r.state, r.out, flow_after(r))
    }

    /// The earliest deadline of all waiting actions.
    pub open spec fn next_deadline(self) -> Option<u128> {
        match (earliest(self.idle), earliest(self.idle_all)) {
            (Some(a), Some(b)) => if a <= b {
                Some(a)
            } else {
                Some(b)
            },
            (Some(a), None) => Some(a),
            (None, b) => b,
        }
    }

    /// How many steps all waiting actions can still take.
    pub open spec fn steps(self) -> nat {
        steps_left(self.idle) + steps_left(self.idle_all)
    }
}

/// Running the actions that are due takes steps, at least one where there is
/// one, and leaves only actions that are configured.
proof fn lemma_run_due(
    s: NotifyView,
    list: Seq<PendingView>,
    now: u128,
    host: Seq<char>,
    cwd: Seq<char>,
    kind: IdleHookKind,
)
    requires
        all_configured(list, s.config, kind),
    ensures
        steps_left(s.run_due(list, now, host, cwd).0) <= steps_left(list),
        due_at(list, now) < list.len() ==> steps_left(s.run_due(list, now, host, cwd).0)
            < steps_left(list),
        all_configured(s.run_due(list, now, host, cwd).0, s.config, kind),
    decreases steps_left(list),
{
    lemma_due_at(list, now);
    let i = due_at(list, now);
    if i < list.len() {
        lemma_steps_remove(list, i);
        let pending = list[i];
        let left = list.remove(i);
        assert forall|k: int| 0 <= k < left.len() implies (#[trigger] left[k]).kind == kind
            && is_configured(s.config, left[k]) by {
            if k < i {
                assert(left[k] == list[k]);
            } else {
                assert(left[k] == list[k + 1]);
            }
        }
        if pending.state is WaitingIdle && crate::notifications::state::configured(
            s.config,
            pending,
        ).agent_summary {
            let query = "idle-"@ + crate::text::decimal_of(s.next_query as nat);
            let asked = PendingView {
                state: IdleStateView::WaitingSummary {
                    query_id: query,
                    deadline: later(now, s.summary_timeout as int),
                },
                ..pending
            };
            let next = NotifyView { next_query: next_id(s.next_query), ..s };
            assert(left.push(asked).drop_last() =~= left);
            assert forall|k: int| 0 <= k < left.push(asked).len() implies (
            #[trigger] left.push(asked)[k]).kind == kind && is_configured(
                s.config,
                left.push(asked)[k],
            ) by {
                if k < left.len() {
                    assert(left.push(asked)[k] == left[k]);
                } else {
                    assert(list[i].kind == kind && is_configured(s.config, list[i]));
                }
            }
            lemma_run_due(next, left.push(asked), now, host, cwd, kind);
        } else {
            lemma_run_due(s, left, now, host, cwd, kind);
        }
    }
}

proof fn lemma_earliest_due(list: Seq<PendingView>, now: u128)
    requires
        earliest(list) matches Some(d) && d <= now,
    ensures
        due_at(list, now) < list.len(),
    decreases list.len(),
{
    lemma_due_at(list, now);
    if due_at(list, now) >= list.len() {
        assert(deadline_of(list[list.len() - 1].state) > now);
        if list.len() > 0 {
            let shorter = list.drop_last();
            match earliest(shorter) {
                Some(d) if d <= deadline_of(list.last().state) => {
                    lemma_earliest_due(shorter, now);
                    lemma_due_at(shorter, now);
                    let k = due_at(shorter, now);
                    assert(shorter[k] == list[k]);
                },
                _ => {},
            }
        }
    }
}

/// A deadline that has come makes the waiting actions take a step.
proof fn lemma_expired_takes_steps(s: NotifyView, now: u128, host: Seq<char>, cwd: Seq<char>)
    requires
        all_configured(s.idle, s.config, IdleHookKind::Agent),
        all_configured(s.idle_all, s.config, IdleHookKind::AgentAll),
        s.next_deadline() matches Some(d) && d <= now,
        s.expired(now, host, cwd).2 is Continue,
    ensures
        s.expired(now, host, cwd).0.steps() < s.steps(),
{
    lemma_run_due(s, s.idle, now, host, cwd, IdleHookKind::Agent);
    let (idle, id, out, failed) = s.run_due(s.idle, now, host, cwd);
    let first = NotifyView { idle, next_query: id, ..s };
    lemma_run_due(first, first.idle_all, now, host, cwd, IdleHookKind::AgentAll);
    match earliest(s.idle) {
        Some(d) if d <= now => {
            lemma_earliest_due(s.idle, now);
        },
        _ => {
            lemma_earliest_due(s.idle_all, now);
        },
    }
}

/// The later of two moments.
pub open spec fn max_moment(a: u128, b: u128) -> u128 {
    if a >= b {
        a
    } else {
        b
    }
}

/// Whether every waiting action is one of the configuration in force.
pub open spec fn is_sound(s: NotifyView) -> bool {
    &&& all_configured(s.idle, s.config, IdleHookKind::Agent)
    &&& all_configured(s.idle_all, s.config, IdleHookKind::AgentAll)
}

/// All that a run sends, with its moments, and why it failed, where it did: a
/// message is taken when it comes, and a deadline that passes before the next
/// message is acted on when it passes. Without more messages the harness counts
/// as silent.
pub open spec fn simulated(
    s: NotifyView,
    messages: Seq<TimedMessage>,
    clock: u128,
    host: Seq<char>,
    cwd: Seq<char>,
) -> (Seq<TimedView>, Failure)
    decreases messages.len(), s.steps(),
    when is_sound(s) via simulated_decreases
{
    let deadline = s.next_deadline();
    let silent = messages.len() == 0 || s.closed;
    if deadline is Some && (silent || deadline->0 < messages[0].at) {
        let now = max_moment(clock, deadline->0);
        let (after, out, flow) = s.expired(now, host, cwd);
        match flow {
            Next::Fail { words } => (at_moment(now, out), Some(words)),
            Next::Stop => (at_moment(now, out), None),
            Next::Continue => {
                let (more, failure) = simulated(after, messages, now, host, cwd);
                (at_moment(now, out) + more, failure)
            },
        }
    } else if silent {
        (seq![], None)
    } else {
        let now = max_moment(clock, messages[0].at);
        let (after, out, flow) = s.received(messages[0].message, now, host, cwd);
        match flow {
            Next::Fail { words } => (at_moment(now, out), Some(words)),
            Next::Stop => (at_moment(now, out), None),
            Next::Continue => {
                let (more, failure) = simulated(after, messages.drop_first(), now, host, cwd);
                (at_moment(now, out) + more, failure)
            },
        }
    }
}

#[via_fn]
proof fn simulated_decreases(
    s: NotifyView,
    messages: Seq<TimedMessage>,
    clock: u128,
    host: Seq<char>,
    cwd: Seq<char>,
) {
    let deadline = s.next_deadline();
    let silent = messages.len() == 0 || s.closed;
    if deadline is Some && (silent || deadline->0 < messages[0].at) {
        let now = max_moment(clock, deadline->0);
        if s.expired(now, host, cwd).2 is Continue {
            lemma_expired_takes_steps(s, now, host, cwd);
        }
    }
}

/// What the main loop waits for.
#[derive(Clone, Copy, Debug, PartialEq, Eq)]
pub enum Wait {
    /// The next message.
    Message,
    /// The next message, at most so long.
    MessageFor { nanos: u128 },
    /// The next deadline: no message will come.
    Sleep { nanos: u128 },
    /// Nothing: the extension ends.
    End,
}

/// The time until a moment.
pub open spec fn until(deadline: u128, now: u128) -> u128 {
    if deadline > now {
        (deadline - now) as u128
    } else {
        0
    }
}

impl NotifyState {
    /// Runs the actions of one list whose deadline has come.
    fn process_due_idle_hooks(
        &mut self,
        list: Vec<PendingIdleHook>,
        now: u128,
        place: &Place,
        out: &mut Vec<Output>,
        Ghost(kind): Ghost<IdleHookKind>,
    ) -> (r: (Vec<PendingIdleHook>, Result<(), String>))
        requires
            old(self).wf(),
            all_configured(pending_views(list@), old(self).config@, kind),
        ensures
            final(self).wf(),
            ({
                let (end, id, more, failure) = old(self)@.run_due(
                    pending_views(list@),
                    now,
                    place.host@,
                    place.cwd@,
                );
                &&& pending_views(r.0@) == end
                &&& final(self)@ == (NotifyView { next_query: id, ..old(self)@ })
                &&& output_views(final(out)@) == output_views(old(out)@) + more
                &&& tells(r.1, failure)
                &&& all_configured(end, old(self).config@, kind)
            }),
    {
        let ghost start = output_views(out@);
        let ghost goal = old(self)@.run_due(pending_views(list@), now, place.host@, place.cwd@);
        let mut rest = list;
        assert(start + goal.2 =~= start + self@.run_due(
            pending_views(rest@),
            now,
            place.host@,
            place.cwd@,
        ).2);
        proof {
            lemma_run_due(self@, pending_views(rest@), now, place.host@, place.cwd@, kind);
        }
        loop
            invariant
                self.wf(),
                self@ == (NotifyView { next_query: self@.next_query, ..old(self)@ }),
                all_configured(pending_views(rest@), self.config@, kind),
                all_configured(goal.0, self.config@, kind),
                start == output_views(old(out)@),
                goal == old(self)@.run_due(pending_views(list@), now, place.host@, place.cwd@),
                self.config == old(self).config,
                ({
                    let (end, id, more, failure) = self@.run_due(
                        pending_views(rest@),
                        now,
                        place.host@,
                        place.cwd@,
                    );
                    &&& goal.0 == end
                    &&& goal.1 == id
                    &&& start + goal.2 == output_views(out@) + more
                    &&& goal.3 == failure
                }),
            decreases steps_left(pending_views(rest@)),
        {
            let ghost views = pending_views(rest@);
            let ghost sent = output_views(out@);
            let ghost here = self@;
            proof {
                lemma_due_at(views, now);
            }
            let i = crate::notifications::state::find_due(&rest, now);
            if i >= rest.len() {
                assert(sent + seq![] =~= sent);
                return (rest, Ok(()));
            }
            proof {
                lemma_steps_remove(views, i as int);
                assert(views[i as int] == rest@[i as int]@);
            }
            let mut pending = rest.remove(i);
            let ghost left = views.remove(i as int);
            assert(pending_views(rest@) =~= left);
            proof {
                assert forall|k: int| 0 <= k < left.len() implies (#[trigger] left[k]).kind == kind
                    && is_configured(self.config@, left[k]) by {
                    if k < i {
                        assert(left[k] == views[k]);
                    } else {
                        assert(left[k] == views[k + 1]);
                    }
                }
            }
            let waits = match &pending.state {
                IdleState::WaitingIdle { .. } => true,
                _ => false,
            };
            if waits && configured_idle_hook(&self.config, &pending).agent_summary {
                let mut query_id = "idle-".to_owned();
                query_id.append(decimal(self.next_query_id).as_str());
                self.next_query_id = self.next_query_id.wrapping_add(1);
                push_output(
                    out,
                    Output::StartAgentRequest {
                        query_id: query_id.clone(),
                        instruction: SUMMARY_INSTRUCTION.to_owned(),
                    },
                );
                pending.state = IdleState::WaitingSummary {
                    query_id,
                    deadline: now.saturating_add(self.summary_timeout),
                };
                let ghost asked = pending@;
                rest.push(pending);
                proof {
                    assert(pending_views(rest@) =~= left.push(asked));
                    assert(left.push(asked).drop_last() =~= left);
                    assert forall|k: int| 0 <= k < left.push(asked).len() implies (
                    #[trigger] left.push(asked)[k]).kind == kind && is_configured(
                        self.config@,
                        left.push(asked)[k],
                    ) by {
                        if k < left.len() {
                            assert(left.push(asked)[k] == left[k]);
                        } else {
                            assert(views[i as int].kind == kind);
                        }
                    }
                    let more = self@.run_due(
                        pending_views(rest@),
                        now,
                        place.host@,
                        place.cwd@,
                    ).2;
                    let first = seq![
                        OutputView::StartAgentRequest {
                            query_id: query_id@,
                            instruction: SUMMARY_INSTRUCTION@,
                        },
                    ];
                    assert(here.run_due(views, now, place.host@, place.cwd@).2 == first + more);
                    assert(sent + (first + more) =~= output_views(out@) + more);
                }
            } else {
                let empty = "";
                proof {
                    reveal_strlit("");
                    assert(empty@ =~= seq![]);
                }
                let ghost ran = here.run_pending(pending@, seq![], place.host@, place.cwd@);
                match self.emit_due_idle_hook(&pending, empty, place, out) {
                    Ok(_) => {
                        let ghost more = self@.run_due(left, now, place.host@, place.cwd@).2;
                        assert(sent + (ran.0 + more) =~= output_views(out@) + more);
                    },
                    Err(message) => {
                        return (rest, Err(message));
                    },
                }
            }
        }
    }
}

impl NotifyState {
    /// What the main loop waits for.
    pub fn wait_for(&self, now: u128) -> (wait: Wait)
        requires
            self.wf(),
        ensures
            wait == match (self@.next_deadline(), self@.closed) {
                (Some(deadline), false) => Wait::MessageFor { nanos: until(deadline, now) },
                (None, false) => Wait::Message,
                (Some(deadline), true) => Wait::Sleep { nanos: until(deadline, now) },
                (None, true) => Wait::End,
            },
    {
        match (self.next_deadline(), self.input_closed) {
            (Some(deadline), closed) => {
                let nanos: u128 = if deadline > now {
                    deadline - now
                } else {
                    0
                };
                if closed {
                    Wait::Sleep { nanos }
                } else {
                    Wait::MessageFor { nanos }
                }
            },
            (None, closed) => {
                if closed {
                    Wait::End
                } else {
                    Wait::Message
                }
            },
        }
    }

    /// The earliest deadline of all waiting actions.
    pub fn next_deadline(&self) -> (deadline: Option<u128>)
        ensures
            deadline == self@.next_deadline(),
    {
        match (next_idle_deadline(&self.idle), next_idle_deadline(&self.idle_all)) {
            (Some(a), Some(b)) => if a <= b {
                Some(a)
            } else {
                Some(b)
            },
            (Some(a), None) => Some(a),
            (None, b) => b,
        }
    }

    fn flow(&self, r: Result<(), String>) -> (flow: Flow)
        ensures
            flow@ == (match r {
                Err(words) => FlowView::Failed { message: words@ },
                Ok(_) => if is_over(self@) {
                    FlowView::Stop
                } else {
                    FlowView::Continue
                },
            }),
    {
        match r {
            Err(message) => Flow::Failed { message },
            Ok(_) => {
                if self.input_closed && self.idle.is_empty() && self.idle_all.is_empty() {
                    Flow::Stop
                } else {
                    Flow::Continue
                }
            },
        }
    }

    /// Takes a message: changes the state, puts what is sent behind the
    /// outputs, and says how to go on.
    pub fn receive(&mut self, message: Message, now: u128, place: &Place, out: &mut Vec<Output>)
        -> (flow: Flow)
        requires
            old(self).wf(),
        ensures
            final(self).wf(),
            ({
                let (after, more, next) = old(self)@.received(
                    message,
                    now,
                    place.host@,
                    place.cwd@,
                );
                &&& final(self)@ == after
                &&& output_views(final(out)@) == output_views(old(out)@) + more
                &&& next.is_done_by(flow@)
            }),
            message matches Message::Configure { config } ==> reports(
                config,
                place.host@,
                place.cwd@,
                final(out)@,
            ),
    {
        assert(output_views(out@) =~= output_views(old(out)@) + seq![]);
        match message {
            Message::Configure { config } => {
                self.configure(config, place, out);
                self.flow(Ok(()))
            },
            Message::Deliver { replay, event } => {
                let r = self.deliver(&event, replay, now, place, out);
                self.flow(r)
            },
            Message::Disconnect => Flow::Stop,
            Message::Other => self.flow(Ok(())),
            Message::EndOfStream => {
                self.input_closed = true;
                self.flow(Ok(()))
            },
        }
    }

    /// Takes a deadline that has come.
    pub fn expire(&mut self, now: u128, place: &Place, out: &mut Vec<Output>) -> (flow: Flow)
        requires
            old(self).wf(),
        ensures
            final(self).wf(),
            ({
                let (after, more, next) = old(self)@.expired(now, place.host@, place.cwd@);
                &&& final(self)@ == after
                &&& output_views(final(out)@) == output_views(old(out)@) + more
                &&& next.is_done_by(flow@)
            }),
    {
        let ghost start = output_views(out@);
        let mut idle: Vec<PendingIdleHook> = Vec::new();
        core::mem::swap(&mut idle, &mut self.idle);
        let ghost empty = self@;
        assert(empty == (NotifyView { idle: self@.idle, ..old(self)@ }));
        proof {
            lemma_same_due(old(self)@, empty, old(self)@.idle, now, place.host@, place.cwd@);
        }
        let (idle, r) = self.process_due_idle_hooks(
            idle,
            now,
            place,
            out,
            Ghost(IdleHookKind::Agent),
        );
        self.idle = idle;
        if let Err(message) = r {
            return self.flow(Err(message));
        }
        let ghost first = self@;
        let mut all: Vec<PendingIdleHook> = Vec::new();
        core::mem::swap(&mut all, &mut self.idle_all);
        proof {
            lemma_same_due(first, self@, first.idle_all, now, place.host@, place.cwd@);
        }
        let (all, r) = self.process_due_idle_hooks(
            all,
            now,
            place,
            out,
            Ghost(IdleHookKind::AgentAll),
        );
        self.idle_all = all;
        proof {
            let one = old(self)@.run_due(old(self)@.idle, now, place.host@, place.cwd@).2;
            let two = first.run_due(first.idle_all, now, place.host@, place.cwd@).2;
            assert(start + one + two =~= start + (one + two));
        }
        self.flow(r)
    }
}

/// What runs of waiting actions lead to does not depend on the lists that the
/// state holds.
proof fn lemma_same_due(
    a: NotifyView,
    b: NotifyView,
    list: Seq<PendingView>,
    now: u128,
    host: Seq<char>,
    cwd: Seq<char>,
)
    requires
        a.config == b.config,
        a.names == b.names,
        a.next_query == b.next_query,
        a.summary_timeout == b.summary_timeout,
    ensures
        a.run_due(list, now, host, cwd) == b.run_due(list, now, host, cwd),
    decreases steps_left(list),
{
    lemma_due_at(list, now);
    let i = due_at(list, now);
    if i < list.len() {
        lemma_steps_remove(list, i);
        let pending = list[i];
        let left = list.remove(i);
        if pending.state is WaitingIdle && crate::notifications::state::configured(
            a.config,
            pending,
        ).agent_summary {
            let asked = PendingView {
                state: IdleStateView::WaitingSummary {
                    query_id: "idle-"@ + crate::text::decimal_of(a.next_query as nat),
                    deadline: later(now, a.summary_timeout as int),
                },
                ..pending
            };
            assert(left.push(asked).drop_last() =~= left);
            lemma_same_due(
                NotifyView { next_query: next_id(a.next_query), ..a },
                NotifyView { next_query: next_id(b.next_query), ..b },
                left.push(asked),
                now,
                host,
                cwd,
            );
        } else {
            lemma_same_due(a, b, left, now, host, cwd);
        }
    }
}

/// Everything that a run sent, and why it failed, where it did.
#[derive(Debug)]
pub struct RunResult {
    pub outputs: Vec<TimedOutput>,
    pub error: Option<String>,
}

/// Outputs with the moment at which they are sent.
pub open spec fn stamped(at: u128, outputs: Seq<Output>) -> Seq<TimedOutput> {
    outputs.map_values(|output: Output| TimedOutput { at, output })
}

/// Puts outputs behind others, all sent at one moment.
fn stamp(all: &mut Vec<TimedOutput>, at: u128, outputs: Vec<Output>)
    ensures
        final(all)@ == old(all)@ + stamped(at, outputs@),
        timed_views(final(all)@) == timed_views(old(all)@) + at_moment(
            at,
            output_views(outputs@),
        ),
{
    let ghost start = timed_views(all@);
    let ghost more = at_moment(at, output_views(outputs@));
    let ghost items = stamped(at, outputs@);
    assert(timed_views(all@) =~= start + more.take(0));
    assert(all@ =~= old(all)@ + items.take(0));
    for output in iter: outputs
        invariant
            iter.seq() == outputs@,
            more == at_moment(at, output_views(outputs@)),
            timed_views(all@) == start + more.take(iter.index()),
            items == stamped(at, outputs@),
            all@ == old(all)@ + items.take(iter.index()),
    {
        let item = TimedOutput { at, output };
        let ghost before = all@;
        assert(item@ == more[iter.index()]);
        all.push(item);
        assert(timed_views(all@) =~= timed_views(before).push(item@));
        assert(timed_views(all@) =~= start + more.take(iter.index() + 1));
        assert(all@ =~= old(all)@ + items.take(iter.index() + 1));
    }
    assert(more.take(more.len() as int) =~= more);
    assert(items.take(items.len() as int) =~= items);
}

/// Whether no configuration is reported.
pub open spec fn reports_nothing(out: Seq<OutputView>) -> bool {
    forall|i: int| 0 <= i < out.len() ==> !((#[trigger] out[i]) is ConfigError)
}

proof fn lemma_actions_report_nothing(hooks: Seq<HookConfig>, ctx: ContextView)
    ensures
        reports_nothing(all_outputs(hooks, ctx).0),
    decreases hooks.len(),
{
    if hooks.len() > 0 {
        lemma_actions_report_nothing(hooks.drop_last(), ctx);
    }
}

proof fn lemma_due_report_nothing(
    s: NotifyView,
    list: Seq<PendingView>,
    now: u128,
    host: Seq<char>,
    cwd: Seq<char>,
)
    ensures
        reports_nothing(s.run_due(list, now, host, cwd).2),
    decreases steps_left(list),
{
    lemma_due_at(list, now);
    let i = due_at(list, now);
    if i < list.len() {
        lemma_steps_remove(list, i);
        let pending = list[i];
        let left = list.remove(i);
        if pending.state is WaitingIdle && crate::notifications::state::configured(
            s.config,
            pending,
        ).agent_summary {
            let asked = PendingView {
                state: IdleStateView::WaitingSummary {
                    query_id: "idle-"@ + crate::text::decimal_of(s.next_query as nat),
                    deadline: later(now, s.summary_timeout as int),
                },
                ..pending
            };
            assert(left.push(asked).drop_last() =~= left);
            let next = NotifyView { next_query: next_id(s.next_query), ..s };
            lemma_due_report_nothing(next, left.push(asked), now, host, cwd);
        } else {
            lemma_due_report_nothing(s, left, now, host, cwd);
        }
    }
}

proof fn lemma_events_report_nothing(
    s: NotifyView,
    event: Incoming,
    replay: bool,
    now: u128,
    host: Seq<char>,
    cwd: Seq<char>,
)
    ensures
        reports_nothing(s.delivered(event, replay, now, host, cwd).out),
{
    assert forall|hooks: Seq<HookConfig>, ctx: ContextView| #[trigger]
        reports_nothing(all_outputs(hooks, ctx).0) by {
        lemma_actions_report_nothing(hooks, ctx);
    }
}

proof fn lemma_deadlines_report_nothing(
    s: NotifyView,
    now: u128,
    host: Seq<char>,
    cwd: Seq<char>,
)
    ensures
        reports_nothing(s.expired(now, host, cwd).1),
{
    let first = s.run_due(s.idle, now, host, cwd);
    lemma_due_report_nothing(s, s.idle, now, host, cwd);
    let after = NotifyView { idle: first.0, next_query: first.1, ..s };
    lemma_due_report_nothing(after, after.idle_all, now, host, cwd);
}

/// Whether a report tells what is wrong with a configuration that a message brings.
pub open spec fn is_told_of(
    told: ConfigFault,
    message: Message,
    host: Seq<char>,
    cwd: Seq<char>,
) -> bool {
    message matches Message::Configure { config } && (given_fault(config, host, cwd) matches Some(
        fault,
    ) && fault.is_told_by(told))
}

/// Whether every report tells what is wrong with a configuration that came.
pub open spec fn faults_are_told(
    outputs: Seq<TimedOutput>,
    messages: Seq<TimedMessage>,
    host: Seq<char>,
    cwd: Seq<char>,
) -> bool {
    forall|i: int|
        0 <= i < outputs.len() ==> ((#[trigger] outputs[i]).output matches Output::ConfigError(told)
            ==> exists|m: int|
            0 <= m < messages.len() && is_told_of(told, (#[trigger] messages[m]).message, host, cwd))
}

proof fn lemma_more_is_told(
    all: Seq<TimedOutput>,
    at: u128,
    more: Seq<Output>,
    messages: Seq<TimedMessage>,
    m: int,
    host: Seq<char>,
    cwd: Seq<char>,
)
    requires
        faults_are_told(all, messages, host, cwd),
        reports_nothing(output_views(more)) || (0 <= m < messages.len() && more.len() == 1 && (
        more[0] matches Output::ConfigError(told) ==> is_told_of(
            told,
            messages[m].message,
            host,
            cwd,
        ))),
    ensures
        faults_are_told(all + stamped(at, more), messages, host, cwd),
{
    let outputs = all + stamped(at, more);
    assert forall|i: int| 0 <= i < outputs.len() implies ((
    #[trigger] outputs[i]).output matches Output::ConfigError(told) ==> exists|m: int|
        0 <= m < messages.len() && is_told_of(told, (#[trigger] messages[m]).message, host, cwd)) by {
        if i < all.len() {
            assert(outputs[i] == all[i]);
        } else {
            let k = i - all.len();
            assert(outputs[i].output == more[k]);
            assert(output_views(more)[k] == more[k]@);
            if more[k] is ConfigError {
                assert(more[k]@ is ConfigError);
                assert(is_told_of(more[k]->ConfigError_0, messages[m].message, host, cwd));
            }
        }
    }
}

/// Whether a run ends as it has to: where it fails, with words that may be said of
/// the failure.
pub open spec fn ends_as_owed(error: Option<String>, failure: Failure) -> bool {
    match (error, failure) {
        (None, None) => true,
        (Some(said), Some(words)) => words.contains(said@),
        _ => false,
    }
}

/// Whether a run sent what it has to and ended as it has to.
pub open spec fn is_result(result: RunResult, owed: (Seq<TimedView>, Failure)) -> bool {
    timed_views(result.outputs@) == owed.0 && ends_as_owed(result.error, owed.1)
}

/// Takes a deadline that has come, and puts what is sent behind all that was.
fn take_deadline(
    state: &mut NotifyState,
    now: u128,
    place: &Place,
    all: &mut Vec<TimedOutput>,
    Ghost(messages): Ghost<Seq<TimedMessage>>,
) -> (flow: Flow)
    requires
        old(state).wf(),
        faults_are_told(old(all)@, messages, place.host@, place.cwd@),
    ensures
        final(state).wf(),
        faults_are_told(final(all)@, messages, place.host@, place.cwd@),
        ({
            let (after, more, next) = old(state)@.expired(now, place.host@, place.cwd@);
            &&& final(state)@ == after
            &&& timed_views(final(all)@) == timed_views(old(all)@) + at_moment(now, more)
            &&& next.is_done_by(flow@)
        }),
{
    let mut out: Vec<Output> = Vec::new();
    assert(output_views(out@) =~= seq![]);
    let flow = state.expire(now, place, &mut out);
    proof {
        let more = old(state)@.expired(now, place.host@, place.cwd@).1;
        assert(output_views(out@) =~= more);
        lemma_deadlines_report_nothing(old(state)@, now, place.host@, place.cwd@);
        lemma_more_is_told(all@, now, out@, messages, 0, place.host@, place.cwd@);
    }
    stamp(all, now, out);
    flow
}

/// Takes a message, and puts what is sent behind all that was.
fn take_message(
    state: &mut NotifyState,
    message: Message,
    now: u128,
    place: &Place,
    all: &mut Vec<TimedOutput>,
    Ghost(messages): Ghost<Seq<TimedMessage>>,
    Ghost(m): Ghost<int>,
) -> (flow: Flow)
    requires
        old(state).wf(),
        0 <= m < messages.len(),
        message == messages[m].message,
        faults_are_told(old(all)@, messages, place.host@, place.cwd@),
    ensures
        final(state).wf(),
        faults_are_told(final(all)@, messages, place.host@, place.cwd@),
        ({
            let (after, more, next) = old(state)@.received(message, now, place.host@, place.cwd@);
            &&& final(state)@ == after
            &&& timed_views(final(all)@) == timed_views(old(all)@) + at_moment(now, more)
            &&& next.is_done_by(flow@)
        }),
{
    let mut out: Vec<Output> = Vec::new();
    assert(output_views(out@) =~= seq![]);
    let ghost taken = message;
    let flow = state.receive(message, now, place, &mut out);
    proof {
        let more = old(state)@.received(taken, now, place.host@, place.cwd@).1;
        assert(output_views(out@) =~= more);
        assert(output_views(out@).len() == out@.len());
        if let Message::Deliver { replay, event } = taken {
            lemma_events_report_nothing(
                old(state)@,
                event,
                replay,
                now,
                place.host@,
                place.cwd@,
            );
        }
        lemma_more_is_told(all@, now, out@, messages, m, place.host@, place.cwd@);
    }
    stamp(all, now, out);
    flow
}

/// Runs the extension over messages and the deadlines between them.
#[verifier::rlimit(60)]
pub fn run_messages(state: &mut NotifyState, messages: Vec<TimedMessage>, place: &Place) -> (result:
    RunResult)
    requires
        old(state).wf(),
    ensures
        final(state).wf(),
        is_result(result, simulated(old(state)@, messages@, 0, place.host@, place.cwd@)),
        faults_are_told(result.outputs@, messages@, place.host@, place.cwd@),
{
    let ghost goal = simulated(state@, messages@, 0, place.host@, place.cwd@);
    let mut queue: Vec<TimedMessage> = messages;
    let mut all: Vec<TimedOutput> = Vec::new();
    let mut clock: u128 = 0;
    let ghost mut taken: int = 0;
    assert(timed_views(all@) + goal.0 =~= goal.0);
    assert(queue@ =~= messages@.skip(0));
    loop
        invariant
            state.wf(),
            0 <= taken <= messages@.len(),
            queue@ == messages@.skip(taken),
            faults_are_told(all@, messages@, place.host@, place.cwd@),
            ({
                let (more, failure) = simulated(
                    state@,
                    queue@,
                    clock,
                    place.host@,
                    place.cwd@,
                );
                &&& timed_views(all@) + more == goal.0
                &&& failure == goal.1
            }),
            goal == simulated(old(state)@, messages@, 0, place.host@, place.cwd@),
        decreases queue@.len(), state@.steps(),
    {
        let ghost here = state@;
        let ghost sent = timed_views(all@);
        let deadline = state.next_deadline();
        let silent = queue.is_empty() || state.input_closed;
        let expires = match deadline {
            Some(deadline) => silent || deadline < queue[0].at,
            None => false,
        };
        if expires {
            let d: u128 = match deadline {
                Some(d) => d,
                None => 0,
            };
            let now: u128 = if clock >= d {
                clock
            } else {
                d
            };
            let ghost more = here.expired(now, place.host@, place.cwd@).1;
            let flow = take_deadline(state, now, place, &mut all, Ghost(messages@));
            match flow {
                Flow::Continue => {
                    proof {
                        lemma_expired_takes_steps(here, now, place.host@, place.cwd@);
                        let rest = simulated(state@, queue@, now, place.host@, place.cwd@);
                        assert(sent + (at_moment(now, more) + rest.0) =~= timed_views(all@)
                            + rest.0);
                    }
                    clock = now;
                },
                Flow::Stop => {
                    return RunResult { outputs: all, error: None };
                },
                Flow::Failed { message } => {
                    return RunResult { outputs: all, error: Some(message) };
                },
            }
        } else if silent {
            assert(sent + seq![] =~= sent);
            return RunResult { outputs: all, error: None };
        } else {
            let ghost rest_queue = queue@.drop_first();
            let next = queue.remove(0);
            assert(queue@ =~= rest_queue);
            let now: u128 = if clock >= next.at {
                clock
            } else {
                next.at
            };
            let ghost more = here.received(next.message, now, place.host@, place.cwd@).1;
            assert(next.message == messages@[taken].message);
            let flow = take_message(
                state,
                next.message,
                now,
                place,
                &mut all,
                Ghost(messages@),
                Ghost(taken),
            );
            proof {
                assert(messages@.skip(taken).drop_first() =~= messages@.skip(taken + 1));
                taken = taken + 1;
            }
            match flow {
                Flow::Continue => {
                    proof {
                        let rest = simulated(state@, queue@, now, place.host@, place.cwd@);
                        assert(sent + (at_moment(now, more) + rest.0) =~= timed_views(all@)
                            + rest.0);
                    }
                    clock = now;
                },
                Flow::Stop => {
                    return RunResult { outputs: all, error: None };
                },
                Flow::Failed { message } => {
                    return RunResult { outputs: all, error: Some(message) };
                },
            }
        }
    }
}

/// The state at the start, with the given delays.
pub open spec fn fresh(idle: u128, summary: u128) -> NotifyView {
    NotifyView {
        config: no_config(),
        default_delay: idle,
        summary_timeout: summary,
        idle: seq![],
        idle_all: seq![],
        busy: Set::empty(),
        contexts: Map::empty(),
        ignored: Map::empty(),
        names: Map::empty(),
        closed: false,
        waiting: false,
        ended: false,
        deferred: false,
        pending_prompt: None,
        pending_agent: None,
        pending_text: seq![],
        last_prompt: seq![],
        completed: Set::empty(),
        background: Set::empty(),
        next_query: 0,
    }
}

/// What a run from the start sends, with the given delays, and its failure.
pub open spec fn whole_run(
    messages: Seq<TimedMessage>,
    place: Place,
    idle: u128,
    summary: u128,
) -> (Seq<TimedView>, Failure) {
    simulated(fresh(idle, summary), messages, 0, place.host@, place.cwd@)
}

/// Runs the extension from its start, with given delays in nanoseconds.
pub fn run_with_idle_and_summary_timeout(
    messages: Vec<TimedMessage>,
    place: &Place,
    idle_duration: u128,
    summary_timeout: u128,
) -> (result: RunResult)
    ensures
        is_result(result, whole_run(messages@, *place, idle_duration, summary_timeout)),
        faults_are_told(result.outputs@, messages@, place.host@, place.cwd@),
{
    let mut state = NotifyState::new(idle_duration, summary_timeout);
    assert(state@ =~= fresh(idle_duration, summary_timeout));
    run_messages(&mut state, messages, place)
}

/// Runs the extension from its start, with a given idle time in nanoseconds.
pub fn run_with_idle(messages: Vec<TimedMessage>, place: &Place, idle_duration: u128) -> (result:
    RunResult)
    ensures
        is_result(result, whole_run(
            messages@,
            *place,
            idle_duration,
            (SUMMARY_TIMEOUT_SECONDS * NANOS_PER_SEC) as u128,
        )),
        faults_are_told(result.outputs@, messages@, place.host@, place.cwd@),
{
    run_with_idle_and_summary_timeout(
        messages,
        place,
        idle_duration,
        SUMMARY_TIMEOUT_SECONDS as u128 * NANOS_PER_SEC,
    )
}

/// Runs the extension from its start.
pub fn run(messages: Vec<TimedMessage>, place: &Place) -> (result: RunResult)
    ensures
        is_result(result, whole_run(
            messages@,
            *place,
            (DEFAULT_IDLE_SECONDS * NANOS_PER_SEC) as u128,
            (SUMMARY_TIMEOUT_SECONDS * NANOS_PER_SEC) as u128,
        )),
        faults_are_told(result.outputs@, messages@, place.host@, place.cwd@),
{
    run_with_idle(messages, place, DEFAULT_IDLE_SECONDS as u128 * NANOS_PER_SEC)
}

/// A run without a given idle time is one with an idle time of a minute: whatever
/// comes in, both send the same at the same moments, and both fail or neither.
pub proof fn law_idle_time_is_a_minute(
    a: RunResult,
    b: RunResult,
    messages: Seq<TimedMessage>,
    place: Place,
)
    requires
        is_result(a, whole_run(
            messages,
            place,
            (DEFAULT_IDLE_SECONDS * NANOS_PER_SEC) as u128,
            (SUMMARY_TIMEOUT_SECONDS * NANOS_PER_SEC) as u128,
        )),
        is_result(b, whole_run(
            messages,
            place,
            60_000_000_000,
            (SUMMARY_TIMEOUT_SECONDS * NANOS_PER_SEC) as u128,
        )),
    ensures
        timed_views(a.outputs@) == timed_views(b.outputs@),
        a.error is Some == b.error is Some,
{
}

} // verus!
