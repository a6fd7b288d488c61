//! The provider at work: prompts that come in, wait, start and are answered.

use vstd::prelude::*;

use crate::provider::ack::{AckTracker, AckView};
use crate::provider::auth::{models_for_auth, models_of, AuthView, OpenAiAuth};
use crate::provider::cancel::{CancelView, CancellationState};
use crate::provider::finish::{
    canceled_of, finish_canceled, finish_missing_backend, missing_text, simple_of,
};
use crate::provider::job::{
    job_views, resolve_backend, resolved, Credentials, CredentialsView, JobView, PromptJob,
    PromptView, SessionPrompt,
};
use crate::provider::models::{model_views, ModelInfoView, ProviderModelInfo};
use crate::provider::responses::ConfigView;
use crate::provider::retry::{disables_ws, should_disable_ws};
use crate::provider::stream::{ErrorView, LlmError};
use crate::provider::turn::{PromptEvent, PromptEventView};
use crate::text::{same_text, views};

verus! {

/// How many prompts run at once where nothing else is said.
pub const DEFAULT_PROMPT_CONCURRENCY: usize = 4;

/// The name of the extension.
pub const EXTENSION_NAME: &'static str = "tau-ext-provider-openai";

/// How many prompts run at once, as a setting says.
pub open spec fn limit_of(setting: Option<Seq<char>>) -> usize {
    match setting {
        Some(text) => match crate::number::number_of(text, usize::MAX as u64) {
            Some(n) => if n > 0 {
                n as usize
            } else {
                DEFAULT_PROMPT_CONCURRENCY
            },
            None => DEFAULT_PROMPT_CONCURRENCY,
        },
        None => DEFAULT_PROMPT_CONCURRENCY,
    }
}

/// How many prompts run at once, as a setting says.
pub fn prompt_concurrency_limit(setting: &Option<String>) -> (limit: usize)
    ensures
        limit == limit_of(crate::text::opt_view(*setting)),
        limit > 0,
{
    match setting {
        Some(text) => match crate::number::parse_number(text.as_str(), usize::MAX as u64) {
            Some(n) => {
                if n > 0 {
                    n as usize
                } else {
                    DEFAULT_PROMPT_CONCURRENCY
                }
            },
            None => DEFAULT_PROMPT_CONCURRENCY,
        },
        None => DEFAULT_PROMPT_CONCURRENCY,
    }
}

/// What the harness sends.
#[derive(Debug)]
pub enum ProviderFrame {
    Prewarm(SessionPrompt),
    Compaction(SessionPrompt),
    Prompt(SessionPrompt),
    /// One prompt is cancelled, or all waits are cut short.
    Cancel(Option<String>),
    Disconnect,
    Other,
}

/// What the harness sends, as mathematics.
pub enum FrameView {
    Prewarm(PromptView),
    Compaction(PromptView),
    Prompt(PromptView),
    Cancel(Option<Seq<char>>),
    Disconnect,
    Other,
}

impl View for ProviderFrame {
    type V = FrameView;

    open spec fn view(&self) -> FrameView {
        match self {
            ProviderFrame::Prewarm(prompt) => FrameView::Prewarm(prompt@),
            ProviderFrame::Compaction(prompt) => FrameView::Compaction(prompt@),
            ProviderFrame::Prompt(prompt) => FrameView::Prompt(prompt@),
            ProviderFrame::Cancel(id) => FrameView::Cancel(crate::text::opt_view(*id)),
            ProviderFrame::Disconnect => FrameView::Disconnect,
            ProviderFrame::Other => FrameView::Other,
        }
    }
}

/// What the provider does.
#[derive(Debug)]
pub enum ProviderOutput {
    Hello,
    Subscribe,
    Models(Vec<ProviderModelInfo>),
    Ready,
    Event(PromptEvent),
    /// Every logged event up to this one is handled.
    Ack(u64),
    /// A prompt starts.
    Start(PromptJob),
    /// A prompt is warmed up.
    Prewarm(PromptJob),
    /// A conversation is compacted, while everything else waits.
    Compact(PromptJob),
}

/// What the provider does, as mathematics.
pub enum OutputView {
    Hello,
    Subscribe,
    Models(Seq<ModelInfoView>),
    Ready,
    Event(PromptEventView),
    Ack(u64),
    Start(JobView),
    Prewarm(JobView),
    Compact(JobView),
}

impl View for ProviderOutput {
    type V = OutputView;

    open spec fn view(&self) -> OutputView {
        match self {
            ProviderOutput::Hello => OutputView::Hello,
            ProviderOutput::Subscribe => OutputView::Subscribe,
            ProviderOutput::Models(models) => OutputView::Models(model_views(models@)),
            ProviderOutput::Ready => OutputView::Ready,
            ProviderOutput::Event(event) => OutputView::Event(event@),
            ProviderOutput::Ack(id) => OutputView::Ack(*id),
            ProviderOutput::Start(job) => OutputView::Start(job@),
            ProviderOutput::Prewarm(job) => OutputView::Prewarm(job@),
            ProviderOutput::Compact(job) => OutputView::Compact(job@),
        }
    }
}

/// The views of a list of outputs.
pub open spec fn output_views(out: Seq<ProviderOutput>) -> Seq<OutputView> {
    out.map_values(|o: ProviderOutput| o@)
}

/// What the provider hears.
#[derive(Debug)]
pub enum ProviderInput {
    /// Something came from the harness, as a logged event or not.
    Frame { log_id: Option<u64>, frame: ProviderFrame, credentials: Credentials },
    /// A prompt that was started is answered.
    PromptDone(Option<u64>),
    /// A compaction is answered.
    CompactionDone,
    /// A prompt was warmed up, or could not be.
    PrewarmDone { session_id: String, error: Option<LlmError> },
    /// A session uses no WebSocket any more.
    WsDisabled(String),
    /// The harness sends nothing more.
    Closed,
}

/// What the provider hears, as mathematics.
pub enum InputView {
    Frame { log_id: Option<u64>, frame: FrameView, credentials: CredentialsView },
    PromptDone(Option<u64>),
    CompactionDone,
    PrewarmDone { session_id: Seq<char>, error: Option<ErrorView> },
    WsDisabled(Seq<char>),
    Closed,
}

/// The view of an optional error.
pub open spec fn opt_error(error: Option<LlmError>) -> Option<ErrorView> {
    match error {
        Some(error) => Some(error@),
        None => None,
    }
}

impl View for ProviderInput {
    type V = InputView;

    open spec fn view(&self) -> InputView {
        match self {
            ProviderInput::Frame { log_id, frame, credentials } => InputView::Frame {
                log_id: *log_id,
                frame: frame@,
                credentials: credentials@,
            },
            ProviderInput::PromptDone(log_id) => InputView::PromptDone(*log_id),
            ProviderInput::CompactionDone => InputView::CompactionDone,
            ProviderInput::PrewarmDone { session_id, error } => InputView::PrewarmDone {
                session_id: session_id@,
                error: opt_error(*error),
            },
            ProviderInput::WsDisabled(session_id) => InputView::WsDisabled(session_id@),
            ProviderInput::Closed => InputView::Closed,
        }
    }
}

/// The provider at work.
#[derive(Debug)]
pub struct ProviderState {
    cancellation: CancellationState,
    queue: Vec<PromptJob>,
    active: usize,
    limit: usize,
    acks: AckTracker,
    ws_disabled: Vec<String>,
    /// The logged event of the compaction that is under way.
    compacting: Option<Option<u64>>,
    input_closed: bool,
    done: bool,
}

/// The provider at work, as mathematics.
pub struct ProviderView {
    pub cancellation: CancelView,
    /// The prompts that wait for others to end.
    pub queue: Seq<JobView>,
    /// How many prompts are started and not answered.
    pub active: nat,
    pub limit: nat,
    pub acks: AckView,
    /// The sessions that use no WebSocket any more.
    pub ws_disabled: Seq<Seq<char>>,
    pub compacting: Option<Option<u64>>,
    pub input_closed: bool,
    pub done: bool,
}

impl View for ProviderState {
    type V = ProviderView;

    closed spec fn view(&self) -> ProviderView {
        ProviderView {
            cancellation: self.cancellation@,
            queue: job_views(self.queue@),
            active: self.active as nat,
            limit: self.limit as nat,
            acks: self.acks@,
            ws_disabled: views(self.ws_disabled@),
            compacting: self.compacting,
            input_closed: self.input_closed,
            done: self.done,
        }
    }
}

/// What a step leaves: the provider, and what it does.
pub struct ProviderStep {
    pub state: ProviderView,
    pub out: Seq<OutputView>,
}

/// One step after another.
pub open spec fn and_then_out(before: Seq<OutputView>, step: ProviderStep) -> ProviderStep {
    ProviderStep { state: step.state, out: before + step.out }
}

/// The answer to a prompt, as an output.
pub open spec fn finished_out(finished: crate::provider::finish::FinishedView) -> OutputView {
    OutputView::Event(PromptEventView::Finished(finished))
}

/// The word that a prompt is taken, as an output.
pub open spec fn submitted_out(prompt: PromptView) -> OutputView {
    OutputView::Event(
        PromptEventView::Submitted {
            session_prompt_id: prompt.session_prompt_id,
            originator: prompt.originator,
        },
    )
}

/// The answer to a prompt that is cancelled, as an output.
pub open spec fn canceled_out(prompt: PromptView) -> OutputView {
    finished_out(canceled_of(prompt.session_prompt_id, prompt.originator))
}

/// The answer to a prompt without a backend, as an output.
pub open spec fn missing_out(prompt: PromptView) -> OutputView {
    finished_out(
        simple_of(prompt.session_prompt_id, prompt.originator, missing_text(prompt.model)),
    )
}

/// Acknowledgements with one more event done, where it was logged.
pub open spec fn log_done(acks: AckView, log_id: Option<u64>) -> AckView {
    match log_id {
        Some(id) => acks.with_done(id),
        None => acks,
    }
}

/// Acknowledgements with one more event to handle, where it was logged.
pub open spec fn log_registered(acks: AckView, log_id: Option<u64>) -> AckView {
    match log_id {
        Some(id) => acks.registered(id),
        None => acks,
    }
}

/// Where a prompt first waits in the queue; its length if nowhere.
pub open spec fn queued_at(queue: Seq<JobView>, id: Seq<char>) -> int
    decreases queue.len(),
{
    if queue.len() == 0 {
        0
    } else if queue[0].prompt.session_prompt_id == id {
        0
    } else {
        1 + queued_at(queue.drop_first(), id)
    }
}

impl ProviderView {
    /// The provider with an event done, where it was logged.
    pub open spec fn with_log_done(self, log_id: Option<u64>) -> ProviderView {
        ProviderView { acks: log_done(self.acks, log_id), ..self }
    }

    /// The provider once a prompt was told whether it is cancelled.
    pub open spec fn told(self, id: Seq<char>) -> ProviderView {
        ProviderView { cancellation: self.cancellation.taken(id), ..self }
    }

    /// Waiting prompts start, as long as there is room. One that is cancelled is
    /// told so instead.
    pub open spec fn queue_started(self) -> ProviderStep
        decreases self.queue.len(),
    {
        if self.active < self.limit && self.queue.len() > 0 {
            let job = self.queue[0];
            let id = job.prompt.session_prompt_id;
            let rest = ProviderView { queue: self.queue.drop_first(), ..self }.told(id);
            if self.cancellation.is_canceled(id) {
                and_then_out(
                    seq![canceled_out(job.prompt)],
                    rest.with_log_done(job.log_id).queue_started(),
                )
            } else {
                and_then_out(
                    seq![OutputView::Start(job)],
                    ProviderView { active: self.active + 1, ..rest }.queue_started(),
                )
            }
        } else {
            ProviderStep { state: self, out: seq![] }
        }
    }

    /// The acknowledgement that is due goes out.
    pub open spec fn acks_written(self) -> ProviderStep {
        ProviderStep {
            state: ProviderView { acks: self.acks.acked(), ..self },
            out: match self.acks.next() {
                Some(id) => seq![OutputView::Ack(id)],
                None => seq![],
            },
        }
    }

    /// Whether there is nothing left to do.
    pub open spec fn is_idle(self) -> bool {
        self.input_closed && self.active == 0 && self.queue.len() == 0 && self.compacting is None
    }

    /// What follows on everything that the provider hears.
    pub open spec fn settled(self) -> ProviderStep {
        let started = self.queue_started();
        let acked = started.state.acks_written();
        ProviderStep {
            state: ProviderView { done: acked.state.is_idle(), ..acked.state },
            out: started.out + acked.out,
        }
    }

    /// A prompt comes in.
    pub open spec fn prompted(
        self,
        log_id: Option<u64>,
        prompt: PromptView,
        backend: Option<ConfigView>,
    ) -> ProviderStep {
        let told = self.told(prompt.session_prompt_id);
        if self.cancellation.is_canceled(prompt.session_prompt_id) {
            ProviderStep { state: told.with_log_done(log_id), out: seq![canceled_out(prompt)] }
        } else {
            match backend {
                Some(backend) => {
                    let job = JobView { log_id, prompt, backend };
                    if self.active < self.limit {
                        ProviderStep {
                            state: ProviderView { active: self.active + 1, ..told },
                            out: seq![OutputView::Start(job)],
                        }
                    } else {
                        ProviderStep {
                            state: ProviderView { queue: self.queue.push(job), ..told },
                            out: seq![],
                        }
                    }
                },
                None => ProviderStep {
                    state: told.with_log_done(log_id),
                    out: seq![submitted_out(prompt), missing_out(prompt)],
                },
            }
        }
    }

    /// A compaction comes in.
    pub open spec fn asked_to_compact(
        self,
        log_id: Option<u64>,
        prompt: PromptView,
        backend: Option<ConfigView>,
    ) -> ProviderStep {
        let told = self.told(prompt.session_prompt_id);
        if self.cancellation.is_canceled(prompt.session_prompt_id) {
            ProviderStep { state: told.with_log_done(log_id), out: seq![canceled_out(prompt)] }
        } else {
            match backend {
                Some(backend) => ProviderStep {
                    state: ProviderView { compacting: Some(log_id), ..told },
                    out: seq![
                        submitted_out(prompt),
                        OutputView::Compact(JobView { log_id, prompt, backend }),
                    ],
                },
                None => ProviderStep {
                    state: told.with_log_done(log_id),
                    out: seq![submitted_out(prompt), missing_out(prompt)],
                },
            }
        }
    }

    /// A prompt is to be warmed up; only where its session uses a WebSocket.
    pub open spec fn asked_to_prewarm(
        self,
        log_id: Option<u64>,
        prompt: PromptView,
        backend: Option<ConfigView>,
    ) -> ProviderStep {
        let next = self.with_log_done(log_id);
        match backend {
            Some(backend) => if backend.supports_websocket && !self.ws_disabled.contains(
                prompt.session_id,
            ) {
                ProviderStep {
                    state: next,
                    out: seq![OutputView::Prewarm(JobView { log_id, prompt, backend })],
                }
            } else {
                ProviderStep { state: next, out: seq![] }
            },
            None => ProviderStep { state: next, out: seq![] },
        }
    }

    /// A prompt is cancelled. Where it waits, it is answered at once.
    pub open spec fn canceled(self, log_id: Option<u64>, id: Seq<char>) -> ProviderStep {
        let marked = ProviderView { cancellation: self.cancellation.with_canceled(id), ..self };
        let at = queued_at(self.queue, id);
        if at < self.queue.len() {
            let job = self.queue[at];
            ProviderStep {
                state: ProviderView { queue: self.queue.remove(at), ..marked }.with_log_done(
                    job.log_id,
                ).with_log_done(log_id),
                out: seq![canceled_out(job.prompt)],
            }
        } else {
            ProviderStep { state: marked.with_log_done(log_id), out: seq![] }
        }
    }

    /// The provider with one more session that uses no WebSocket.
    pub open spec fn without_ws(self, session_id: Seq<char>) -> ProviderView {
        if self.ws_disabled.contains(session_id) {
            self
        } else {
            ProviderView { ws_disabled: self.ws_disabled.push(session_id), ..self }
        }
    }

    /// Something comes from the harness.
    pub open spec fn framed(
        self,
        log_id: Option<u64>,
        frame: FrameView,
        credentials: CredentialsView,
    ) -> ProviderStep {
        let known = ProviderView { acks: log_registered(self.acks, log_id), ..self };
        match frame {
            FrameView::Prewarm(prompt) => known.asked_to_prewarm(
                log_id,
                prompt,
                resolved(prompt.model, credentials),
            ),
            FrameView::Compaction(prompt) => known.asked_to_compact(
                log_id,
                prompt.materialized(),
                resolved(prompt.model, credentials),
            ),
            FrameView::Prompt(prompt) => known.prompted(
                log_id,
                prompt.materialized(),
                resolved(prompt.model, credentials),
            ),
            FrameView::Cancel(Some(id)) => known.canceled(log_id, id),
            FrameView::Cancel(None) => ProviderStep {
                state: ProviderView {
                    cancellation: self.cancellation.with_waits_cut(),
                    ..known
                }.with_log_done(log_id),
                out: seq![],
            },
            FrameView::Disconnect => ProviderStep {
                state: ProviderView {
                    cancellation: self.cancellation.stopped(),
                    done: true,
                    ..known
                },
                out: seq![],
            },
            FrameView::Other => ProviderStep { state: known.with_log_done(log_id), out: seq![] },
        }
    }

    /// The provider hears something.
    pub open spec fn heard(self, input: InputView) -> ProviderStep {
        if self.done {
            ProviderStep { state: self, out: seq![] }
        } else {
            let step = match input {
                InputView::Frame { log_id, frame, credentials } => self.framed(
                    log_id,
                    frame,
                    credentials,
                ),
                InputView::PromptDone(log_id) => ProviderStep {
                    state: ProviderView {
                        active: if self.active > 0 {
                            (self.active - 1) as nat
                        } else {
                            0
                        },
                        ..self
                    }.with_log_done(log_id),
                    out: seq![],
                },
                InputView::CompactionDone => ProviderStep {
                    state: match self.compacting {
                        Some(log_id) => ProviderView { compacting: None, ..self }.with_log_done(
                            log_id,
                        ),
                        None => self,
                    },
                    out: seq![],
                },
                InputView::PrewarmDone { session_id, error } => ProviderStep {
                    state: match error {
                        Some(error) => if disables_ws(error) {
                            self.without_ws(session_id)
                        } else {
                            self
                        },
                        None => self,
                    },
                    out: seq![],
                },
                InputView::WsDisabled(session_id) => ProviderStep {
                    state: self.without_ws(session_id),
                    out: seq![],
                },
                InputView::Closed => ProviderStep {
                    state: ProviderView { input_closed: true, ..self },
                    out: seq![],
                },
            };
            if step.state.done {
                step
            } else {
                and_then_out(step.out, step.state.settled())
            }
        }
    }
}

/// Adds an output.
fn push_out(out: &mut Vec<ProviderOutput>, output: ProviderOutput)
    ensures
        output_views(final(out)@) == output_views(old(out)@) + seq![output@],
{
    let ghost before = out@;
    out.push(output);
    assert(output_views(out@) =~= output_views(before) + seq![output@]);
}

/// The word that a prompt is taken.
pub fn prompt_submitted(prompt: &SessionPrompt) -> (output: ProviderOutput)
    ensures
        output@ == submitted_out(prompt@),
{
    ProviderOutput::Event(
        PromptEvent::Submitted {
            session_prompt_id: prompt.session_prompt_id.clone(),
            originator: prompt.originator.copy(),
        },
    )
}

/// The answer to a prompt that is cancelled.
fn canceled_output(prompt: &SessionPrompt) -> (output: ProviderOutput)
    ensures
        output@ == canceled_out(prompt@),
{
    ProviderOutput::Event(
        PromptEvent::Finished(
            finish_canceled(prompt.session_prompt_id.as_str(), &prompt.originator),
        ),
    )
}

/// The answer to a prompt without a backend.
fn missing_output(prompt: &SessionPrompt) -> (output: ProviderOutput)
    ensures
        output@ == missing_out(prompt@),
{
    ProviderOutput::Event(
        PromptEvent::Finished(
            finish_missing_backend(
                prompt.session_prompt_id.as_str(),
                &prompt.originator,
                &prompt.model,
            ),
        ),
    )
}

/// Two lists of outputs with nothing in front of the second.
proof fn lemma_out_front(before: Seq<OutputView>)
    ensures
        before + Seq::<OutputView>::empty() == before,
{
    assert(before + Seq::<OutputView>::empty() =~= before);
}

impl ProviderState {
    /// A provider that has heard nothing, and runs so many prompts at once.
    pub fn new(limit: usize) -> (state: ProviderState)
        ensures
            state@ == fresh_provider(limit as nat),
    {
        let state = ProviderState {
            cancellation: CancellationState::new(),
            queue: Vec::new(),
            active: 0,
            limit,
            acks: AckTracker::new(),
            ws_disabled: Vec::new(),
            compacting: None,
            input_closed: false,
            done: false,
        };
        assert(state@.queue =~= seq![]);
        assert(state@.ws_disabled =~= seq![]);
        state
    }

    /// Whether there is nothing left to do.
    pub fn is_done(&self) -> (b: bool)
        ensures
            b == self@.done,
    {
        self.done
    }

    /// Whether a session uses no WebSocket any more.
    pub fn ws_is_disabled(&self, session_id: &str) -> (b: bool)
        ensures
            b == self@.ws_disabled.contains(session_id@),
    {
        let ghost all = views(self.ws_disabled@);
        let mut i: usize = 0;
        while i < self.ws_disabled.len()
            invariant
                i <= self.ws_disabled@.len(),
                all == views(self.ws_disabled@),
                forall|j: int| 0 <= j < i ==> all[j] != session_id@,
            decreases self.ws_disabled.len() - i,
        {
            if same_text(self.ws_disabled[i].as_str(), session_id) {
                assert(all[i as int] == session_id@);
                return true;
            }
            i += 1;
        }
        false
    }

    /// A session uses no WebSocket any more.
    pub fn disable_ws(&mut self, session_id: &str)
        ensures
            final(self)@ == old(self)@.without_ws(session_id@),
    {
        if !self.ws_is_disabled(session_id) {
            let ghost before = self.ws_disabled@;
            let text = session_id.to_owned();
            self.ws_disabled.push(text);
            assert(views(self.ws_disabled@) =~= views(before).push(session_id@));
        }
    }

    /// Whether a prompt is cancelled, or waits are cut short, since a
    /// generation.
    pub fn cancellation(&self) -> (state: &CancellationState)
        ensures
            state@ == self@.cancellation,
    {
        &self.cancellation
    }

    /// An event is done, where it was logged.
    fn finish_log(&mut self, log_id: Option<u64>)
        ensures
            final(self)@ == old(self)@.with_log_done(log_id),
    {
        if let Some(id) = log_id {
            self.acks.complete(id);
        }
    }

    /// Whether a prompt is cancelled. It is told so.
    fn tell(&mut self, id: &str) -> (canceled: bool)
        ensures
            canceled == old(self)@.cancellation.is_canceled(id@),
            final(self)@ == old(self)@.told(id@),
    {
        self.cancellation.take_canceled(id)
    }

    /// Starts waiting prompts, as long as there is room.
    fn start_queued_prompts(&mut self, out: &mut Vec<ProviderOutput>)
        ensures
            final(self)@ == old(self)@.queue_started().state,
            output_views(final(out)@) == output_views(old(out)@) + old(self)@.queue_started().out,
    {
        let ghost goal = self@.queue_started();
        let ghost mut so_far: Seq<OutputView> = seq![];
        let ghost before = output_views(out@);
        proof {
            lemma_out_front(before);
            assert(so_far + goal.out =~= goal.out);
        }
        while self.active < self.limit && self.queue.len() > 0
            invariant
                goal == old(self)@.queue_started(),
                before == output_views(old(out)@),
                self@.queue_started().state == goal.state,
                so_far + self@.queue_started().out == goal.out,
                output_views(out@) == before + so_far,
            decreases self.queue.len(),
        {
            let ghost now = self@;
            let job = self.queue.remove(0);
            assert(job_views(self.queue@) =~= now.queue.drop_first());
            assert(job@ == now.queue[0]);
            let ghost told = ProviderView { queue: now.queue.drop_first(), ..now }.told(
                job@.prompt.session_prompt_id,
            );
            let canceled = self.tell(job.prompt.session_prompt_id.as_str());
            assert(self@ == told);
            let ghost was = so_far;
            if canceled {
                let output = canceled_output(&job.prompt);
                push_out(out, output);
                self.finish_log(job.log_id);
                proof {
                    so_far = so_far + seq![output@];
                    assert(was + (seq![output@] + self@.queue_started().out) =~= so_far
                        + self@.queue_started().out);
                    assert(before + was + seq![output@] =~= before + so_far);
                }
            } else {
                self.active = self.active + 1;
                let output = ProviderOutput::Start(job);
                push_out(out, output);
                proof {
                    so_far = so_far + seq![output@];
                    assert(was + (seq![output@] + self@.queue_started().out) =~= so_far
                        + self@.queue_started().out);
                    assert(before + was + seq![output@] =~= before + so_far);
                }
            }
        }
        proof {
            assert(self@.queue.len() == self.queue@.len());
            lemma_out_front(so_far);
        }
    }

    /// Sends the acknowledgement that is due.
    fn write_ready_acks(&mut self, out: &mut Vec<ProviderOutput>)
        ensures
            final(self)@ == old(self)@.acks_written().state,
            output_views(final(out)@) == output_views(old(out)@) + old(self)@.acks_written().out,
    {
        let ghost before = output_views(out@);
        match self.acks.next_ack() {
            Some(id) => {
                push_out(out, ProviderOutput::Ack(id));
            },
            None => {
                proof {
                    lemma_out_front(before);
                }
            },
        }
    }

    /// Does what follows on everything that the provider hears.
    fn settle(&mut self, out: &mut Vec<ProviderOutput>)
        ensures
            final(self)@ == old(self)@.settled().state,
            output_views(final(out)@) == output_views(old(out)@) + old(self)@.settled().out,
    {
        let ghost before = output_views(out@);
        let ghost started = self@.queue_started();
        let ghost acked = started.state.acks_written();
        self.start_queued_prompts(out);
        self.write_ready_acks(out);
        assert(before + started.out + acked.out =~= before + (started.out + acked.out));
        assert(self@.queue.len() == self.queue@.len());
        self.done = self.input_closed && self.active == 0 && self.queue.len() == 0
            && self.compacting.is_none();
    }

    /// A prompt comes in.
    fn on_prompt(
        &mut self,
        log_id: Option<u64>,
        prompt: SessionPrompt,
        credentials: Credentials,
        out: &mut Vec<ProviderOutput>,
    )
        ensures
            ({
                let step = old(self)@.prompted(
                    log_id,
                    prompt@,
                    resolved(prompt@.model, credentials@),
                );
                &&& final(self)@ == step.state
                &&& output_views(final(out)@) == output_views(old(out)@) + step.out
            }),
    {
        let ghost before = output_views(out@);
        if self.tell(prompt.session_prompt_id.as_str()) {
            push_out(out, canceled_output(&prompt));
            self.finish_log(log_id);
            return ;
        }
        match resolve_backend(&prompt.model, credentials) {
            Some(backend) => {
                let job = PromptJob { log_id, prompt, backend };
                if self.active < self.limit {
                    self.active = self.active + 1;
                    push_out(out, ProviderOutput::Start(job));
                } else {
                    let ghost queue = self.queue@;
                    self.queue.push(job);
                    assert(job_views(self.queue@) =~= job_views(queue).push(job@));
                    proof {
                        lemma_out_front(before);
                    }
                }
            },
            None => {
                let first = prompt_submitted(&prompt);
                let second = missing_output(&prompt);
                push_out(out, first);
                push_out(out, second);
                assert(before + seq![first@] + seq![second@] =~= before + seq![first@, second@]);
                self.finish_log(log_id);
            },
        }
    }

    /// A compaction comes in.
    fn on_compaction(
        &mut self,
        log_id: Option<u64>,
        prompt: SessionPrompt,
        credentials: Credentials,
        out: &mut Vec<ProviderOutput>,
    )
        ensures
            ({
                let step = old(self)@.asked_to_compact(
                    log_id,
                    prompt@,
                    resolved(prompt@.model, credentials@),
                );
                &&& final(self)@ == step.state
                &&& output_views(final(out)@) == output_views(old(out)@) + step.out
            }),
    {
        let ghost before = output_views(out@);
        if self.tell(prompt.session_prompt_id.as_str()) {
            push_out(out, canceled_output(&prompt));
            self.finish_log(log_id);
            return ;
        }
        let first = prompt_submitted(&prompt);
        push_out(out, first);
        match resolve_backend(&prompt.model, credentials) {
            Some(backend) => {
                let second = ProviderOutput::Compact(PromptJob { log_id, prompt, backend });
                push_out(out, second);
                assert(before + seq![first@] + seq![second@] =~= before + seq![first@, second@]);
                self.compacting = Some(log_id);
            },
            None => {
                let second = missing_output(&prompt);
                push_out(out, second);
                assert(before + seq![first@] + seq![second@] =~= before + seq![first@, second@]);
                self.finish_log(log_id);
            },
        }
    }

    /// A prompt is to be warmed up.
    fn handle_prewarm(
        &mut self,
        log_id: Option<u64>,
        prompt: SessionPrompt,
        credentials: Credentials,
        out: &mut Vec<ProviderOutput>,
    )
        ensures
            ({
                let step = old(self)@.asked_to_prewarm(
                    log_id,
                    prompt@,
                    resolved(prompt@.model, credentials@),
                );
                &&& final(self)@ == step.state
                &&& output_views(final(out)@) == output_views(old(out)@) + step.out
            }),
    {
        proof {
            lemma_out_front(output_views(out@));
        }
        if let Some(backend) = resolve_backend(&prompt.model, credentials) {
            if backend.supports_websocket && !self.ws_is_disabled(prompt.session_id.as_str()) {
                push_out(out, ProviderOutput::Prewarm(PromptJob { log_id, prompt, backend }));
            }
        }
        self.finish_log(log_id);
    }

    /// Where a prompt first waits in the queue.
    fn find_queued(&self, id: &str) -> (at: usize)
        ensures
            at == queued_at(self@.queue, id@),
            at <= self.queue@.len(),
    {
        let ghost all = job_views(self.queue@);
        let mut i: usize = 0;
        assert(all.skip(0) =~= all);
        while i < self.queue.len()
            invariant
                i <= self.queue@.len(),
                all == job_views(self.queue@),
                i + queued_at(all.skip(i as int), id@) == queued_at(all, id@),
            decreases self.queue.len() - i,
        {
            assert(all.skip(i as int)[0] == self.queue@[i as int]@);
            if same_text(self.queue[i].prompt.session_prompt_id.as_str(), id) {
                return i;
            }
            i += 1;
            assert(all.skip(i - 1).drop_first() =~= all.skip(i as int));
        }
        assert(all.skip(i as int) =~= seq![]);
        i
    }

    /// A prompt is cancelled.
    fn on_cancel(&mut self, log_id: Option<u64>, id: &str, out: &mut Vec<ProviderOutput>)
        ensures
            ({
                let step = old(self)@.canceled(log_id, id@);
                &&& final(self)@ == step.state
                &&& output_views(final(out)@) == output_views(old(out)@) + step.out
            }),
    {
        let ghost queue = self@.queue;
        self.cancellation.cancel(id);
        let at = self.find_queued(id);
        assert(self.queue@.len() == queue.len());
        if at < self.queue.len() {
            let job = self.queue.remove(at);
            assert(job@ == queue[at as int]);
            assert(job_views(self.queue@) =~= queue.remove(at as int));
            push_out(out, canceled_output(&job.prompt));
            self.finish_log(job.log_id);
        } else {
            proof {
                lemma_out_front(output_views(out@));
            }
        }
        self.finish_log(log_id);
    }

    /// Something comes from the harness.
    fn on_frame(
        &mut self,
        log_id: Option<u64>,
        frame: ProviderFrame,
        credentials: Credentials,
        out: &mut Vec<ProviderOutput>,
    )
        ensures
            ({
                let step = old(self)@.framed(log_id, frame@, credentials@);
                &&& final(self)@ == step.state
                &&& output_views(final(out)@) == output_views(old(out)@) + step.out
            }),
    {
        proof {
            lemma_out_front(output_views(out@));
        }
        if let Some(id) = log_id {
            self.acks.register(id);
        }
        match frame {
            ProviderFrame::Prewarm(prompt) => self.handle_prewarm(log_id, prompt, credentials, out),
            ProviderFrame::Compaction(prompt) => {
                self.on_compaction(log_id, prompt.materialize_prompt(), credentials, out)
            },
            ProviderFrame::Prompt(prompt) => {
                self.on_prompt(log_id, prompt.materialize_prompt(), credentials, out)
            },
            ProviderFrame::Cancel(id) => match id {
                Some(id) => self.on_cancel(log_id, id.as_str(), out),
                None => {
                    self.cancellation.cancel_retry_sleeps();
                    self.finish_log(log_id);
                },
            },
            ProviderFrame::Disconnect => {
                self.cancellation.shutdown();
                self.done = true;
            },
            ProviderFrame::Other => self.finish_log(log_id),
        }
    }

    /// The provider hears something.
    pub fn step(&mut self, input: ProviderInput) -> (out: Vec<ProviderOutput>)
        ensures
            final(self)@ == old(self)@.heard(input@).state,
            output_views(out@) == old(self)@.heard(input@).out,
    {
        let mut out: Vec<ProviderOutput> = Vec::new();
        assert(output_views(out@) =~= seq![]);
        if self.done {
            return out;
        }
        match input {
            ProviderInput::Frame { log_id, frame, credentials } => {
                let ghost goal = self@.framed(log_id, frame@, credentials@);
                self.on_frame(log_id, frame, credentials, &mut out);
                assert(output_views(out@) =~= goal.out);
            },
            ProviderInput::PromptDone(log_id) => {
                if self.active > 0 {
                    self.active = self.active - 1;
                }
                self.finish_log(log_id);
            },
            ProviderInput::CompactionDone => {
                if let Some(log_id) = self.compacting {
                    self.compacting = None;
                    self.finish_log(log_id);
                }
            },
            ProviderInput::PrewarmDone { session_id, error } => {
                if let Some(error) = error {
                    if should_disable_ws(&error) {
                        self.disable_ws(session_id.as_str());
                    }
                }
            },
            ProviderInput::WsDisabled(session_id) => self.disable_ws(session_id.as_str()),
            ProviderInput::Closed => {
                self.input_closed = true;
            },
        }
        if !self.done {
            self.settle(&mut out);
        }
        out
    }

    /// A frame comes in while a compaction waits for its next try. Tells whether
    /// the frame is kept for later, and whether the wait is over.
    pub fn on_frame_while_waiting(&mut self, logged: bool, frame: &ProviderFrame, current: &str) -> (r: (
        bool,
        bool,
    ))
        ensures
            (ProviderView { cancellation: waiting_state(
                old(self)@.cancellation,
                logged,
                frame@,
            ), ..old(self)@ }) == final(self)@,
            r.0 == is_kept(logged, frame@, current@),
            r.1 == ends_wait(logged, frame@, current@),
    {
        if logged {
            return (true, false);
        }
        match frame {
            ProviderFrame::Cancel(None) => {
                self.cancellation.cancel_retry_sleeps();
                (true, true)
            },
            ProviderFrame::Cancel(Some(id)) => {
                self.cancellation.cancel(id.as_str());
                let own = same_text(id.as_str(), current);
                (own, own)
            },
            ProviderFrame::Disconnect => {
                self.cancellation.shutdown();
                (true, true)
            },
            _ => (true, false),
        }
    }
}

/// What a frame that comes in during a wait cancels. A logged one is only looked
/// at later.
pub open spec fn waiting_state(state: CancelView, logged: bool, frame: FrameView) -> CancelView {
    if logged {
        state
    } else {
        match frame {
            FrameView::Cancel(None) => state.with_waits_cut(),
            FrameView::Cancel(Some(id)) => state.with_canceled(id),
            FrameView::Disconnect => state.stopped(),
            _ => state,
        }
    }
}

/// Whether a frame that comes in during a wait is kept for later: all but the
/// cancellation of another prompt.
pub open spec fn is_kept(logged: bool, frame: FrameView, current: Seq<char>) -> bool {
    logged || match frame {
        FrameView::Cancel(Some(id)) => id == current,
        _ => true,
    }
}

/// Whether a frame ends the wait that it comes in during.
pub open spec fn ends_wait(logged: bool, frame: FrameView, current: Seq<char>) -> bool {
    !logged && match frame {
        FrameView::Cancel(None) => true,
        FrameView::Cancel(Some(id)) => id == current,
        FrameView::Disconnect => true,
        _ => false,
    }
}

/// What the provider does before it hears anything: it says who it is, what it
/// listens to, and what models it has, and only then that it is ready.
pub open spec fn announced(auth: AuthView) -> Seq<OutputView> {
    seq![
        OutputView::Hello,
        OutputView::Subscribe,
        OutputView::Models(models_of(auth)),
        OutputView::Ready,
    ]
}

/// What the provider does before it hears anything.
pub fn announce(auth: &OpenAiAuth) -> (out: Vec<ProviderOutput>)
    ensures
        output_views(out@) == announced(auth@),
{
    let mut out: Vec<ProviderOutput> = Vec::new();
    let models = models_for_auth(auth);
    out.push(ProviderOutput::Hello);
    out.push(ProviderOutput::Subscribe);
    out.push(ProviderOutput::Models(models));
    out.push(ProviderOutput::Ready);
    assert(output_views(out@) =~= announced(auth@));
    out
}

/// What comes of a list of inputs, one after the other.
pub open spec fn heard_all(state: ProviderView, inputs: Seq<InputView>) -> ProviderStep
    decreases inputs.len(),
{
    if inputs.len() == 0 {
        ProviderStep { state, out: seq![] }
    } else {
        let before = heard_all(state, inputs.drop_last());
        and_then_out(before.out, before.state.heard(inputs.last()))
    }
}

/// The views of a list of inputs.
pub open spec fn input_views(inputs: Seq<ProviderInput>) -> Seq<InputView> {
    inputs.map_values(|i: ProviderInput| i@)
}

/// A provider that has heard nothing.
pub open spec fn fresh_provider(limit: nat) -> ProviderView {
    ProviderView {
        cancellation: CancelView::fresh(),
        queue: seq![],
        active: 0,
        limit,
        acks: AckView { pending: Set::empty(), completed: Set::empty(), acked_up_to: None },
        ws_disabled: seq![],
        compacting: None,
        input_closed: false,
        done: false,
    }
}

/// The provider with a limit on how many prompts run at once, from its first
/// word to the end of what it hears.
pub fn run_inner_with_prompt_executor(auth: &OpenAiAuth, limit: usize, inputs: Vec<ProviderInput>) -> (r: (
    ProviderState,
    Vec<ProviderOutput>,
))
    ensures
        ({
            let step = heard_all(fresh_provider(limit as nat), input_views(inputs@));
            &&& r.0@ == step.state
            &&& output_views(r.1@) == announced(auth@) + step.out
        }),
{
    let ghost all = input_views(inputs@);
    let ghost fresh = fresh_provider(limit as nat);
    let mut out = announce(auth);
    let ghost first = output_views(out@);
    let mut state = ProviderState::new(limit);
    proof {
        lemma_out_front(first);
        assert(all.take(0) =~= seq![]);
    }
    for input in iter: inputs
        invariant
            all == input_views(iter.seq()),
            state@ == heard_all(fresh, all.take(iter.index())).state,
            output_views(out@) == first + heard_all(fresh, all.take(iter.index())).out,
    {
        let ghost i = iter.index();
        let ghost before = out@;
        let ghost done = heard_all(fresh, all.take(i));
        assert(all.take(i + 1).drop_last() =~= all.take(i));
        assert(all.take(i + 1).last() == input@);
        let mut more = state.step(input);
        let ghost added = more@;
        out.append(&mut more);
        assert(output_views(out@) =~= output_views(before) + output_views(added));
        assert(first + done.out + output_views(added) =~= first + (done.out + output_views(added)));
    }
    assert(all.take(all.len() as int) =~= all);
    (state, out)
}

/// The provider from its first word to the end of what it hears, given the
/// credentials at its start and a setting for how many prompts run at once.
pub fn run(auth: &OpenAiAuth, setting: &Option<String>, inputs: Vec<ProviderInput>) -> (r: (
    ProviderState,
    Vec<ProviderOutput>,
))
    ensures
        ({
            let step = heard_all(
                fresh_provider(limit_of(crate::text::opt_view(*setting)) as nat),
                input_views(inputs@),
            );
            &&& r.0@ == step.state
            &&& output_views(r.1@) == announced(auth@) + step.out
        }),
{
    run_inner_with_prompt_executor(auth, prompt_concurrency_limit(setting), inputs)
}

} // verus!
