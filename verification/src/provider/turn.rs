//! A prompt on its way to an answer: over which transport it goes, when it is
//! tried again, and how it ends.

use vstd::prelude::*;

use crate::proto::{OriginatorView, PromptOriginator};
use crate::provider::finish::{
    canceled_of, error_finished, finish_canceled, finish_error, finish_stream, stream_finished,
    BackendView, FinishedView, ProviderBackend, ResponseFinished, WsPoolDelta,
};
use crate::provider::http::{update_views, Update, UpdateView};
use crate::provider::request::{PayloadView, PreviousResponse, PromptPayload, Transport};
use crate::provider::responses::{ConfigView, ResponsesConfig};
use crate::provider::retry::{
    banner_of, by_harness, disables_ws, fibonacci_secs, is_canceled_by_harness, is_schedule,
    llm_retry_schedule, max_retries_for, next_delay, retries_for, retry_banner, retry_delay,
    should_disable_ws, ws_budget, ws_budget_for, CANCELED_BY_HARNESS_BODY,
    CANCELED_BY_HARNESS_STATUS, LLM_MIN_DELAY_SECS, MAX_DURATION_NANOS,
};
use crate::provider::stream::{error_text, ErrorView, LlmError, StreamState, StreamView};
use crate::text::opt_view;

verus! {

/// What the harness is told of a prompt.
#[derive(Debug)]
pub enum PromptEvent {
    Submitted { session_prompt_id: String, originator: PromptOriginator },
    Updated {
        session_prompt_id: String,
        text: String,
        thinking: Option<String>,
        originator: PromptOriginator,
    },
    Finished(ResponseFinished),
}

/// What the harness is told of a prompt, as mathematics.
pub enum PromptEventView {
    Submitted { session_prompt_id: Seq<char>, originator: OriginatorView },
    Updated {
        session_prompt_id: Seq<char>,
        text: Seq<char>,
        thinking: Option<Seq<char>>,
        originator: OriginatorView,
    },
    Finished(FinishedView),
}

impl View for PromptEvent {
    type V = PromptEventView;

    open spec fn view(&self) -> PromptEventView {
        match self {
            PromptEvent::Submitted { session_prompt_id, originator } => PromptEventView::Submitted {
                session_prompt_id: session_prompt_id@,
                originator: originator@,
            },
            PromptEvent::Updated { session_prompt_id, text, thinking, originator } =>
                PromptEventView::Updated {
                session_prompt_id: session_prompt_id@,
                text: text@,
                thinking: opt_view(*thinking),
                originator: originator@,
            },
            PromptEvent::Finished(finished) => PromptEventView::Finished(finished@),
        }
    }
}

/// The views of a list of events.
pub open spec fn prompt_event_views(events: Seq<PromptEvent>) -> Seq<PromptEventView> {
    events.map_values(|e: PromptEvent| e@)
}

/// Why a try failed, and how long it asks to be left alone; nothing where it is
/// not one to try again after.
#[derive(Debug)]
pub struct Failure {
    pub error: LlmError,
    pub retry_after: Option<u128>,
}

/// Why a try failed, as mathematics.
pub struct FailureView {
    pub error: ErrorView,
    pub retry_after: Option<u128>,
}

impl View for Failure {
    type V = FailureView;

    open spec fn view(&self) -> FailureView {
        FailureView { error: self.error@, retry_after: self.retry_after }
    }
}

/// What came of a try over a WebSocket.
#[derive(Debug)]
pub enum WsOutcome {
    Done(StreamState),
    /// The harness cancelled the prompt in the meantime.
    Canceled,
    Failed(Failure),
}

/// What came of a try over a WebSocket, as mathematics.
pub enum WsOutcomeView {
    Done(StreamView),
    Canceled,
    Failed(FailureView),
}

impl View for WsOutcome {
    type V = WsOutcomeView;

    open spec fn view(&self) -> WsOutcomeView {
        match self {
            WsOutcome::Done(state) => WsOutcomeView::Done(state@),
            WsOutcome::Canceled => WsOutcomeView::Canceled,
            WsOutcome::Failed(failure) => WsOutcomeView::Failed(failure@),
        }
    }
}

/// The view of what came of a try over HTTP.
pub open spec fn http_outcome(r: Result<StreamState, Failure>) -> Result<StreamView, FailureView> {
    match r {
        Ok(state) => Ok(state@),
        Err(failure) => Err(failure@),
    }
}

/// The failure of a prompt that the harness cancelled.
pub open spec fn canceled_failure() -> FailureView {
    FailureView {
        error: ErrorView::HttpStatus(CANCELED_BY_HARNESS_STATUS, CANCELED_BY_HARNESS_BODY@),
        retry_after: None,
    }
}

/// Whether a prompt was created or is compacted.
#[derive(Clone, Copy, Debug, PartialEq, Eq, Structural)]
pub enum TurnKind {
    Prompt,
    Compaction,
}

/// What is to be done for a prompt next.
#[derive(Clone, Copy, Debug, PartialEq, Eq, Structural)]
pub enum TurnStep {
    TryWs,
    TryHttp,
    /// To wait for so many nanoseconds, or until it is cancelled.
    Sleep(u128),
    Done,
}

/// A prompt on its way.
#[derive(Debug)]
pub struct PromptTurn {
    kind: TurnKind,
    session_prompt_id: String,
    originator: PromptOriginator,
    base_url: String,
    supports_websocket: bool,
    delays: Vec<u128>,
    attempt: usize,
    ws_failures: usize,
    ws_budget: usize,
    ws_disabled: bool,
    transport: Transport,
    waiting: Option<Failure>,
    step: TurnStep,
}

/// A prompt on its way, as mathematics.
pub struct TurnView {
    pub kind: TurnKind,
    pub session_prompt_id: Seq<char>,
    pub originator: OriginatorView,
    pub base_url: Seq<char>,
    pub supports_websocket: bool,
    /// The waits of the schedule.
    pub delays: Seq<u128>,
    /// How often the prompt was tried again.
    pub attempt: nat,
    pub ws_failures: nat,
    pub ws_budget: nat,
    /// Whether the session uses no WebSocket any more.
    pub ws_disabled: bool,
    pub transport: Transport,
    /// The failure that the prompt waits after.
    pub waiting: Option<FailureView>,
    pub step: TurnStep,
}

/// The view of an optional failure.
pub open spec fn opt_failure(failure: Option<Failure>) -> Option<FailureView> {
    match failure {
        Some(failure) => Some(failure@),
        None => None,
    }
}

impl View for PromptTurn {
    type V = TurnView;

    closed spec fn view(&self) -> TurnView {
        TurnView {
            kind: self.kind,
            session_prompt_id: self.session_prompt_id@,
            originator: self.originator@,
            base_url: self.base_url@,
            supports_websocket: self.supports_websocket,
            delays: self.delays@,
            attempt: self.attempt as nat,
            ws_failures: self.ws_failures as nat,
            ws_budget: self.ws_budget as nat,
            ws_disabled: self.ws_disabled,
            transport: self.transport,
            waiting: opt_failure(self.waiting),
            step: self.step,
        }
    }
}

/// What a step leaves: the prompt, and what the harness is told.
pub struct Stepped {
    pub turn: TurnView,
    pub events: Seq<PromptEventView>,
}

/// What the user is shown of a prompt.
pub open spec fn update_event(
    id: Seq<char>,
    originator: OriginatorView,
    update: UpdateView,
) -> PromptEventView {
    PromptEventView::Updated {
        session_prompt_id: id,
        text: update.text,
        thinking: update.thinking,
        originator,
    }
}

impl TurnView {
    /// Whether the counters are in their bounds.
    pub open spec fn is_sound(self) -> bool {
        &&& self.ws_budget <= 2
        &&& self.ws_failures <= self.ws_budget + 1
        &&& self.ws_failures > self.ws_budget ==> self.ws_disabled
        &&& self.attempt <= self.delays.len()
        &&& self.delays.len() <= 8
        &&& forall|i: int|
            0 <= i < self.delays.len() ==> #[trigger] self.delays[i] <= MAX_DURATION_NANOS
        &&& self.waiting is Some <==> self.step is Sleep
        &&& self.step is TryWs ==> !self.ws_disabled
    }

    /// The transport that a try begins with.
    pub open spec fn first_try(self) -> TurnStep {
        if self.supports_websocket && !self.ws_disabled {
            TurnStep::TryWs
        } else {
            TurnStep::TryHttp
        }
    }

    /// The backend that answers.
    pub open spec fn backend(self, stale: bool) -> BackendView {
        BackendView {
            base_url: self.base_url,
            transport: self.transport,
            stale_chain_fallback: stale,
        }
    }

    /// What the harness is shown of a response that comes in.
    pub open spec fn shown(self, updates: Seq<UpdateView>) -> Seq<PromptEventView> {
        updates.map_values(
            |u: UpdateView| update_event(self.session_prompt_id, self.originator, u),
        )
    }

    /// The prompt once it is answered.
    pub open spec fn ended(self) -> TurnView {
        TurnView { waiting: None, step: TurnStep::Done, ..self }
    }

    /// The answer that a response is.
    pub open spec fn answer(self, state: StreamView, delta: Option<WsPoolDelta>) -> PromptEventView {
        PromptEventView::Finished(
            stream_finished(
                self.session_prompt_id,
                self.originator,
                self.backend(state.stale_chain_fallback),
                state,
                delta,
            ),
        )
    }

    /// The answer that a failure is.
    pub open spec fn failure_answer(self, error: ErrorView, delta: Option<WsPoolDelta>) -> PromptEventView {
        if self.kind == TurnKind::Prompt && by_harness(error) {
            PromptEventView::Finished(canceled_of(self.session_prompt_id, self.originator))
        } else {
            PromptEventView::Finished(
                error_finished(
                    self.session_prompt_id,
                    self.originator,
                    self.backend(false),
                    error_text(error),
                    delta,
                ),
            )
        }
    }

    /// What comes of a response.
    pub open spec fn succeeded(self, state: StreamView, delta: Option<WsPoolDelta>) -> Stepped {
        Stepped { turn: self.ended(), events: seq![self.answer(state, delta)] }
    }

    /// What comes of a failure: another try after a wait, or the end.
    pub open spec fn failed(self, failure: FailureView, delta: Option<WsPoolDelta>) -> Stepped {
        match next_delay(self.delays, self.attempt as int, failure.retry_after) {
            Some(delay) => Stepped {
                turn: TurnView {
                    attempt: self.attempt + 1,
                    waiting: Some(failure),
                    step: TurnStep::Sleep(delay),
                    ..self
                },
                events: seq![
                    PromptEventView::Updated {
                        session_prompt_id: self.session_prompt_id,
                        text: banner_of(
                            delay,
                            self.attempt + 1,
                            self.delays.len(),
                            failure.error,
                        ),
                        thinking: None,
                        originator: self.originator,
                    },
                ],
            },
            None => Stepped {
                turn: self.ended(),
                events: seq![self.failure_answer(failure.error, delta)],
            },
        }
    }

    /// The prompt once its session falls back to HTTP.
    pub open spec fn fallen_back(self) -> TurnView {
        TurnView { ws_disabled: true, step: TurnStep::TryHttp, ..self }
    }

    /// What comes of a try over a WebSocket, once what it showed is out.
    pub open spec fn after_ws(self, outcome: WsOutcomeView, delta: Option<WsPoolDelta>) -> Stepped {
        match outcome {
            WsOutcomeView::Done(state) => TurnView {
                ws_failures: 0,
                transport: Transport::Websocket,
                ..self
            }.succeeded(state, delta),
            WsOutcomeView::Canceled => TurnView {
                transport: Transport::Websocket,
                ..self
            }.failed(canceled_failure(), delta),
            WsOutcomeView::Failed(failure) => if disables_ws(failure.error) {
                Stepped { turn: self.fallen_back(), events: seq![] }
            } else if failure.retry_after is None {
                TurnView { transport: Transport::Websocket, ..self }.failed(failure, delta)
            } else if self.ws_failures < self.ws_budget {
                TurnView {
                    ws_failures: self.ws_failures + 1,
                    transport: Transport::Websocket,
                    ..self
                }.failed(failure, delta)
            } else {
                Stepped {
                    turn: TurnView {
                        ws_failures: self.ws_failures + 1,
                        transport: Transport::Websocket,
                        ..self
                    }.fallen_back(),
                    events: seq![],
                }
            },
        }
    }

    /// What comes of a try over HTTP, once what it showed is out.
    pub open spec fn after_http(
        self,
        outcome: Result<StreamView, FailureView>,
        delta: Option<WsPoolDelta>,
    ) -> Stepped {
        let taken = TurnView { transport: Transport::HttpSse, ..self };
        match outcome {
            Ok(state) => taken.succeeded(state, delta),
            Err(failure) => taken.failed(failure, delta),
        }
    }

    /// What comes of a wait.
    pub open spec fn after_wait(
        self,
        aborted: bool,
        ws_disabled: bool,
        delta: Option<WsPoolDelta>,
    ) -> Stepped {
        match self.waiting {
            Some(failure) => if aborted {
                Stepped {
                    turn: self.ended(),
                    events: seq![self.failure_answer(failure.error, delta)],
                }
            } else {
                let ready = TurnView {
                    waiting: None,
                    ws_disabled: self.ws_disabled || ws_disabled,
                    ..self
                };
                Stepped { turn: TurnView { step: ready.first_try(), ..ready }, events: seq![] }
            },
            None => Stepped { turn: self, events: seq![] },
        }
    }
}

/// A step with what was shown before it.
pub open spec fn with_shown(shown: Seq<PromptEventView>, stepped: Stepped) -> Stepped {
    Stepped { turn: stepped.turn, events: shown + stepped.events }
}

/// A prompt that starts over a backend, and what the harness is told of that.
pub open spec fn started(
    kind: TurnKind,
    id: Seq<char>,
    originator: OriginatorView,
    config: ConfigView,
    ws_disabled: bool,
    delays: Seq<u128>,
) -> TurnView {
    let turn = TurnView {
        kind,
        session_prompt_id: id,
        originator,
        base_url: config.base_url,
        supports_websocket: kind == TurnKind::Prompt && config.supports_websocket,
        delays,
        attempt: 0,
        ws_failures: 0,
        ws_budget: ws_budget_for(originator) as nat,
        ws_disabled,
        transport: Transport::HttpSse,
        waiting: None,
        step: TurnStep::TryHttp,
    };
    TurnView { step: turn.first_try(), ..turn }
}

/// A prompt with a response to go on from, as far as a transport can.
pub open spec fn for_transport(request: PayloadView, transport: Transport) -> PayloadView {
    PayloadView {
        previous_response: match request.previous_response {
            Some(previous) => match previous.transport {
                Some(other) => if other != transport {
                    None
                } else {
                    Some(previous)
                },
                None => Some(previous),
            },
            None => None,
        },
        ..request
    }
}

/// A prompt with a response to go on from, as far as a transport can.
pub fn request_for_transport<'a>(request: &PromptPayload<'a>, transport: Transport) -> (changed:
    PromptPayload<'a>)
    ensures
        changed@ == for_transport(request@, transport),
{
    let previous: Option<PreviousResponse> = match &request.previous_response {
        Some(previous) => match previous.transport {
            Some(other) => {
                if other != transport {
                    None
                } else {
                    Some(previous.copy())
                }
            },
            None => Some(previous.copy()),
        },
        None => None,
    };
    crate::provider::body::with_previous(request, previous)
}

/// Whether the waits of a schedule are in their bounds.
pub open spec fn are_delays(delays: Seq<u128>) -> bool {
    delays.len() <= 8 && forall|i: int|
        0 <= i < delays.len() ==> #[trigger] delays[i] <= MAX_DURATION_NANOS
}

/// Whether a failure asks for a time that a duration can hold.
pub open spec fn is_timed(failure: FailureView) -> bool {
    failure.retry_after matches Some(asked) ==> asked <= MAX_DURATION_NANOS
}

/// Adds an event.
fn push_event(events: &mut Vec<PromptEvent>, event: PromptEvent)
    ensures
        prompt_event_views(final(events)@) == prompt_event_views(old(events)@).push(event@),
{
    let ghost before = events@;
    events.push(event);
    assert(prompt_event_views(events@) =~= prompt_event_views(before).push(event@));
}

impl PromptTurn {
    /// A prompt that starts over a backend with given waits.
    pub fn start_with_delays(
        kind: TurnKind,
        session_prompt_id: &str,
        originator: &PromptOriginator,
        config: &ResponsesConfig,
        ws_disabled: bool,
        delays: Vec<u128>,
    ) -> (turn: PromptTurn)
        requires
            are_delays(delays@),
        ensures
            turn@ == started(
                kind,
                session_prompt_id@,
                originator@,
                config@,
                ws_disabled,
                delays@,
            ),
            turn@.is_sound(),
    {
        let supports_websocket = match kind {
            TurnKind::Prompt => config.supports_websocket,
            TurnKind::Compaction => false,
        };
        let step = if supports_websocket && !ws_disabled {
            TurnStep::TryWs
        } else {
            TurnStep::TryHttp
        };
        PromptTurn {
            kind,
            session_prompt_id: session_prompt_id.to_owned(),
            originator: originator.copy(),
            base_url: config.base_url.clone(),
            supports_websocket,
            delays,
            attempt: 0,
            ws_failures: 0,
            ws_budget: ws_budget(originator),
            ws_disabled,
            transport: Transport::HttpSse,
            waiting: None,
            step,
        }
    }

    /// A prompt that starts over a backend.
    pub fn start(
        kind: TurnKind,
        session_prompt_id: &str,
        originator: &PromptOriginator,
        config: &ResponsesConfig,
        ws_disabled: bool,
    ) -> (turn: PromptTurn)
        ensures
            turn@ == started(
                kind,
                session_prompt_id@,
                originator@,
                config@,
                ws_disabled,
                turn@.delays,
            ),
            is_schedule(
                turn@.delays,
                LLM_MIN_DELAY_SECS as nat,
                retries_for(originator@) as nat,
            ),
            turn@.is_sound(),
    {
        let delays = llm_retry_schedule(max_retries_for(originator));
        proof {
            lemma_schedule_fits(delays@, retries_for(originator@) as nat);
        }
        PromptTurn::start_with_delays(
            kind,
            session_prompt_id,
            originator,
            config,
            ws_disabled,
            delays,
        )
    }

    /// What is to be done next.
    pub fn step(&self) -> (step: TurnStep)
        ensures
            step == self@.step,
    {
        self.step
    }

    /// Whether the session uses no WebSocket any more.
    pub fn ws_is_disabled(&self) -> (b: bool)
        ensures
            b == self@.ws_disabled,
    {
        self.ws_disabled
    }

    /// Shows what came in of a response.
    fn show(&self, updates: Vec<Update>) -> (events: Vec<PromptEvent>)
        ensures
            prompt_event_views(events@) == self@.shown(update_views(updates@)),
    {
        let ghost all = self@.shown(update_views(updates@));
        let mut events: Vec<PromptEvent> = Vec::new();
        assert(prompt_event_views(events@) =~= all.take(0));
        for update in iter: updates
            invariant
                all == self@.shown(update_views(iter.seq())),
                prompt_event_views(events@) == all.take(iter.index()),
        {
            let ghost i = iter.index();
            let event = PromptEvent::Updated {
                session_prompt_id: self.session_prompt_id.clone(),
                text: update.text,
                thinking: update.thinking,
                originator: self.originator.copy(),
            };
            push_event(&mut events, event);
            assert(event@ == all[i]);
            assert(prompt_event_views(events@) =~= all.take(i + 1));
        }
        assert(all.take(all.len() as int) =~= all);
        events
    }

    /// The backend that answers.
    fn backend(&self, stale: bool) -> (backend: ProviderBackend)
        ensures
            backend@ == self@.backend(stale),
    {
        ProviderBackend {
            base_url: self.base_url.clone(),
            transport: self.transport,
            stale_chain_fallback: stale,
        }
    }

    /// Ends the prompt.
    fn end(&mut self)
        ensures
            final(self)@ == old(self)@.ended(),
    {
        self.waiting = None;
        self.step = TurnStep::Done;
    }

    /// Answers with a response.
    fn succeed(&mut self, state: &StreamState, delta: Option<WsPoolDelta>, events: &mut Vec<
        PromptEvent,
    >)
        ensures
            final(self)@ == old(self)@.succeeded(state@, delta).turn,
            prompt_event_views(final(events)@) == prompt_event_views(old(events)@) + old(
                self,
            )@.succeeded(state@, delta).events,
    {
        let finished = finish_stream(
            self.session_prompt_id.as_str(),
            &self.originator,
            self.backend(state.stale_chain_fallback),
            state,
            delta,
        );
        let ghost before = prompt_event_views(events@);
        let event = PromptEvent::Finished(finished);
        push_event(events, event);
        assert(before.push(event@) =~= before + seq![event@]);
        self.end();
    }

    /// The answer that a failure is.
    fn failure_answer(&self, error: &LlmError, delta: Option<WsPoolDelta>) -> (event: PromptEvent)
        ensures
            event@ == self@.failure_answer(error@, delta),
    {
        let is_prompt = match self.kind {
            TurnKind::Prompt => true,
            TurnKind::Compaction => false,
        };
        if is_prompt && is_canceled_by_harness(error) {
            PromptEvent::Finished(
                finish_canceled(self.session_prompt_id.as_str(), &self.originator),
            )
        } else {
            let text = error.text();
            PromptEvent::Finished(
                finish_error(
                    self.session_prompt_id.as_str(),
                    &self.originator,
                    self.backend(false),
                    text.as_str(),
                    delta,
                ),
            )
        }
    }

    /// Waits after a failure, or answers with it.
    fn fail(&mut self, failure: Failure, delta: Option<WsPoolDelta>, events: &mut Vec<PromptEvent>)
        requires
            old(self)@.is_sound(),
            is_timed(failure@),
        ensures
            final(self)@ == old(self)@.failed(failure@, delta).turn,
            prompt_event_views(final(events)@) == prompt_event_views(old(events)@) + old(
                self,
            )@.failed(failure@, delta).events,
            old(self)@.step is TryWs || old(self)@.step is TryHttp ==> final(self)@.is_sound(),
    {
        let ghost before = prompt_event_views(events@);
        match retry_delay(&self.delays, self.attempt, failure.retry_after) {
            Some(delay) => {
                let banner = retry_banner(
                    delay,
                    self.attempt + 1,
                    self.delays.len(),
                    &failure.error,
                );
                let event = PromptEvent::Updated {
                    session_prompt_id: self.session_prompt_id.clone(),
                    text: banner,
                    thinking: None,
                    originator: self.originator.copy(),
                };
                push_event(events, event);
                assert(before.push(event@) =~= before + seq![event@]);
                self.attempt = self.attempt + 1;
                self.waiting = Some(failure);
                self.step = TurnStep::Sleep(delay);
            },
            None => {
                let event = self.failure_answer(&failure.error, delta);
                push_event(events, event);
                assert(before.push(event@) =~= before + seq![event@]);
                self.end();
            },
        }
    }

    /// A try over a WebSocket is over.
    pub fn on_ws(
        &mut self,
        updates: Vec<Update>,
        outcome: WsOutcome,
        delta: Option<WsPoolDelta>,
    ) -> (events: Vec<PromptEvent>)
        requires
            old(self)@.is_sound(),
            old(self)@.step is TryWs,
            outcome@ matches WsOutcomeView::Failed(failure) ==> is_timed(failure),
        ensures
            ({
                let stepped = with_shown(
                    old(self)@.shown(update_views(updates@)),
                    old(self)@.after_ws(outcome@, delta),
                );
                &&& final(self)@ == stepped.turn
                &&& prompt_event_views(events@) == stepped.events
            }),
            final(self)@.is_sound(),
    {
        let mut events = self.show(updates);
        let ghost shown = prompt_event_views(events@);
        match outcome {
            WsOutcome::Done(state) => {
                self.ws_failures = 0;
                self.transport = Transport::Websocket;
                self.succeed(&state, delta, &mut events);
            },
            WsOutcome::Canceled => {
                self.transport = Transport::Websocket;
                let failure = Failure {
                    error: LlmError::HttpStatus(
                        CANCELED_BY_HARNESS_STATUS,
                        CANCELED_BY_HARNESS_BODY.to_owned(),
                    ),
                    retry_after: None,
                };
                self.fail(failure, delta, &mut events);
            },
            WsOutcome::Failed(failure) => {
                if should_disable_ws(&failure.error) {
                    self.ws_disabled = true;
                    self.step = TurnStep::TryHttp;
                    assert(shown + seq![] =~= shown);
                } else if failure.retry_after.is_none() {
                    self.transport = Transport::Websocket;
                    self.fail(failure, delta, &mut events);
                } else if self.ws_failures < self.ws_budget {
                    self.ws_failures = self.ws_failures + 1;
                    self.transport = Transport::Websocket;
                    self.fail(failure, delta, &mut events);
                } else {
                    self.ws_failures = self.ws_failures + 1;
                    self.transport = Transport::Websocket;
                    self.ws_disabled = true;
                    self.step = TurnStep::TryHttp;
                    assert(shown + seq![] =~= shown);
                }
            },
        }
        events
    }

    /// A try over HTTP is over.
    pub fn on_http(
        &mut self,
        updates: Vec<Update>,
        outcome: Result<StreamState, Failure>,
        delta: Option<WsPoolDelta>,
    ) -> (events: Vec<PromptEvent>)
        requires
            old(self)@.is_sound(),
            old(self)@.step is TryHttp,
            http_outcome(outcome) matches Err(failure) ==> is_timed(failure),
        ensures
            ({
                let stepped = with_shown(
                    old(self)@.shown(update_views(updates@)),
                    old(self)@.after_http(http_outcome(outcome), delta),
                );
                &&& final(self)@ == stepped.turn
                &&& prompt_event_views(events@) == stepped.events
            }),
            final(self)@.is_sound(),
    {
        let mut events = self.show(updates);
        self.transport = Transport::HttpSse;
        match outcome {
            Ok(state) => self.succeed(&state, delta, &mut events),
            Err(failure) => self.fail(failure, delta, &mut events),
        }
        events
    }

    /// A wait is over. Tells also whether the session was told in the meantime to
    /// use no WebSocket.
    pub fn on_wake(&mut self, aborted: bool, ws_disabled: bool, delta: Option<WsPoolDelta>) -> (events:
        Vec<PromptEvent>)
        requires
            old(self)@.is_sound(),
            old(self)@.step is Sleep,
        ensures
            final(self)@ == old(self)@.after_wait(aborted, ws_disabled, delta).turn,
            prompt_event_views(events@) == old(self)@.after_wait(
                aborted,
                ws_disabled,
                delta,
            ).events,
            final(self)@.is_sound(),
    {
        let mut events: Vec<PromptEvent> = Vec::new();
        assert(prompt_event_views(events@) =~= seq![]);
        if aborted {
            let mut failed: Option<Failure> = None;
            core::mem::swap(&mut failed, &mut self.waiting);
            if let Some(failure) = failed {
                let event = self.failure_answer(&failure.error, delta);
                push_event(&mut events, event);
                assert(prompt_event_views(events@) =~= seq![event@]);
            }
            self.end();
        } else {
            self.waiting = None;
            self.ws_disabled = self.ws_disabled || ws_disabled;
            self.step = if self.supports_websocket && !self.ws_disabled {
                TurnStep::TryWs
            } else {
                TurnStep::TryHttp
            };
        }
        events
    }
}

/// The waits of a schedule are in their bounds.
proof fn lemma_schedule_fits(delays: Seq<u128>, times: nat)
    requires
        is_schedule(delays, LLM_MIN_DELAY_SECS as nat, times),
        times <= 8,
    ensures
        are_delays(delays),
{
    assert(fibonacci_secs(10, 0) == 10);
    assert(fibonacci_secs(10, 1) == 10);
    assert(fibonacci_secs(10, 2) == 20);
    assert(fibonacci_secs(10, 3) == 30);
    assert(fibonacci_secs(10, 4) == 50);
    assert(fibonacci_secs(10, 5) == 80);
    assert(fibonacci_secs(10, 6) == 80);
    assert(fibonacci_secs(10, 7) == 80);
    assert forall|i: int| 0 <= i < delays.len() implies #[trigger] delays[i]
        <= MAX_DURATION_NANOS by {
        assert(i == 0 || i == 1 || i == 2 || i == 3 || i == 4 || i == 5 || i == 6 || i == 7);
    }
}

/// The response that a compaction is.
pub open spec fn compaction_state_of(items: Seq<Seq<char>>) -> StreamView {
    StreamView {
        compacted_input_items: items,
        ..StreamView::fresh().with_text(0, "Conversation compacted."@)
    }
}

/// The response that a compaction is.
pub fn compaction_state(items: Vec<String>) -> (state: StreamState)
    ensures
        state@ == compaction_state_of(crate::text::views(items@)),
{
    let mut state = StreamState::new();
    state.set_message_text_at(0, "Conversation compacted.");
    state.compacted_input_items = items;
    state
}

/// Why a backend cannot compact.
pub open spec fn no_compaction() -> ErrorView {
    ErrorView::HttpStatus(0, "provider does not support remote compaction"@)
}

/// A compaction that starts, or its answer where the backend cannot compact.
pub fn start_compaction(
    session_prompt_id: &str,
    originator: &PromptOriginator,
    config: &ResponsesConfig,
) -> (r: (PromptTurn, Vec<PromptEvent>))
    ensures
        is_schedule(
            r.0@.delays,
            LLM_MIN_DELAY_SECS as nat,
            retries_for(originator@) as nat,
        ),
        r.0@.is_sound(),
        ({
            let fresh = started(
                TurnKind::Compaction,
                session_prompt_id@,
                originator@,
                config@,
                true,
                r.0@.delays,
            );
            if config@.supports_compaction {
                r.0@ == fresh && r.1@.len() == 0
            } else {
                &&& r.0@ == fresh.ended()
                &&& prompt_event_views(r.1@) == seq![fresh.failure_answer(no_compaction(), None)]
            }
        }),
{
    let mut turn = PromptTurn::start(
        TurnKind::Compaction,
        session_prompt_id,
        originator,
        config,
        true,
    );
    let mut events: Vec<PromptEvent> = Vec::new();
    if !config.supports_compaction {
        let error = LlmError::HttpStatus(
            0,
            "provider does not support remote compaction".to_owned(),
        );
        let event = turn.failure_answer(&error, None);
        turn.end();
        events.push(event);
        assert(prompt_event_views(events@) =~= seq![event@]);
    }
    (turn, events)
}

/// What happens to a prompt on its way.
#[derive(Debug)]
#[allow(inconsistent_fields)]
pub enum Happening {
    /// A try over a WebSocket is over.
    Ws { updates: Vec<Update>, outcome: WsOutcome, delta: Option<WsPoolDelta> },
    /// A try over HTTP is over.
    Http { updates: Vec<Update>, outcome: Result<StreamState, Failure>, delta: Option<WsPoolDelta> },
    /// A wait is over.
    Woke { aborted: bool, ws_disabled: bool, delta: Option<WsPoolDelta> },
}

/// What happens to a prompt on its way, as mathematics.
#[allow(inconsistent_fields)]
pub enum HappeningView {
    Ws { updates: Seq<UpdateView>, outcome: WsOutcomeView, delta: Option<WsPoolDelta> },
    Http {
        updates: Seq<UpdateView>,
        outcome: Result<StreamView, FailureView>,
        delta: Option<WsPoolDelta>,
    },
    Woke { aborted: bool, ws_disabled: bool, delta: Option<WsPoolDelta> },
}

impl View for Happening {
    type V = HappeningView;

    open spec fn view(&self) -> HappeningView {
        match self {
            Happening::Ws { updates, outcome, delta } => HappeningView::Ws {
                updates: update_views(updates@),
                outcome: outcome@,
                delta: *delta,
            },
            Happening::Http { updates, outcome, delta } => HappeningView::Http {
                updates: update_views(updates@),
                outcome: http_outcome(*outcome),
                delta: *delta,
            },
            Happening::Woke { aborted, ws_disabled, delta } => HappeningView::Woke {
                aborted: *aborted,
                ws_disabled: *ws_disabled,
                delta: *delta,
            },
        }
    }
}

/// The views of a list of happenings.
pub open spec fn happening_views(happenings: Seq<Happening>) -> Seq<HappeningView> {
    happenings.map_values(|h: Happening| h@)
}

/// Whether a happening asks for a time that a duration can hold.
pub open spec fn is_timed_happening(happening: HappeningView) -> bool {
    match happening {
        HappeningView::Ws { outcome: WsOutcomeView::Failed(failure), .. } => is_timed(failure),
        HappeningView::Http { outcome: Err(failure), .. } => is_timed(failure),
        _ => true,
    }
}

/// What a happening does to a prompt; one that the prompt does not wait for does
/// nothing.
pub open spec fn happened(turn: TurnView, happening: HappeningView) -> Stepped {
    match happening {
        HappeningView::Ws { updates, outcome, delta } => if turn.step is TryWs {
            with_shown(turn.shown(updates), turn.after_ws(outcome, delta))
        } else {
            Stepped { turn, events: seq![] }
        },
        HappeningView::Http { updates, outcome, delta } => if turn.step is TryHttp {
            with_shown(turn.shown(updates), turn.after_http(outcome, delta))
        } else {
            Stepped { turn, events: seq![] }
        },
        HappeningView::Woke { aborted, ws_disabled, delta } => if turn.step is Sleep {
            turn.after_wait(aborted, ws_disabled, delta)
        } else {
            Stepped { turn, events: seq![] }
        },
    }
}

/// What happenings do to a prompt, one after the other.
pub open spec fn all_happened(turn: TurnView, happenings: Seq<HappeningView>) -> Stepped
    decreases happenings.len(),
{
    if happenings.len() == 0 {
        Stepped { turn, events: seq![] }
    } else {
        let before = all_happened(turn, happenings.drop_last());
        with_shown(before.events, happened(before.turn, happenings.last()))
    }
}

impl PromptTurn {
    /// Something happens to the prompt.
    pub fn happen(&mut self, happening: Happening) -> (events: Vec<PromptEvent>)
        requires
            old(self)@.is_sound(),
            is_timed_happening(happening@),
        ensures
            final(self)@ == happened(old(self)@, happening@).turn,
            prompt_event_views(events@) == happened(old(self)@, happening@).events,
            final(self)@.is_sound(),
    {
        match happening {
            Happening::Ws { updates, outcome, delta } => {
                if let TurnStep::TryWs = self.step {
                    return self.on_ws(updates, outcome, delta);
                }
            },
            Happening::Http { updates, outcome, delta } => {
                if let TurnStep::TryHttp = self.step {
                    return self.on_http(updates, outcome, delta);
                }
            },
            Happening::Woke { aborted, ws_disabled, delta } => {
                if let TurnStep::Sleep(_) = self.step {
                    return self.on_wake(aborted, ws_disabled, delta);
                }
            },
        }
        let events: Vec<PromptEvent> = Vec::new();
        assert(prompt_event_views(events@) =~= seq![]);
        events
    }

    /// Happenings, one after the other.
    pub fn happen_all(&mut self, happenings: Vec<Happening>) -> (events: Vec<PromptEvent>)
        requires
            old(self)@.is_sound(),
            forall|i: int|
                0 <= i < happenings@.len() ==> is_timed_happening((#[trigger] happenings@[i])@),
        ensures
            final(self)@ == all_happened(old(self)@, happening_views(happenings@)).turn,
            prompt_event_views(events@) == all_happened(
                old(self)@,
                happening_views(happenings@),
            ).events,
            final(self)@.is_sound(),
    {
        let ghost all = happening_views(happenings@);
        let ghost first = self@;
        let mut events: Vec<PromptEvent> = Vec::new();
        assert(prompt_event_views(events@) =~= seq![]);
        assert(all.take(0) =~= seq![]);
        for happening in iter: happenings
            invariant
                first == old(self)@,
                all == happening_views(iter.seq()),
                self@.is_sound(),
                forall|i: int|
                    0 <= i < iter.seq().len() ==> is_timed_happening((#[trigger] iter.seq()[i])@),
                self@ == all_happened(first, all.take(iter.index())).turn,
                prompt_event_views(events@) == all_happened(first, all.take(iter.index())).events,
        {
            let ghost i = iter.index();
            let ghost before = events@;
            assert(all.take(i + 1).drop_last() =~= all.take(i));
            assert(all.take(i + 1).last() == happening@);
            assert(is_timed_happening(iter.seq()[i]@));
            let mut more = self.happen(happening);
            let ghost added = more@;
            events.append(&mut more);
            assert(prompt_event_views(events@) =~= prompt_event_views(before)
                + prompt_event_views(added));
        }
        assert(all.take(all.len() as int) =~= all);
        events
    }
}

/// The word that a prompt is taken.
pub open spec fn submitted_of(id: Seq<char>, originator: OriginatorView) -> PromptEventView {
    PromptEventView::Submitted { session_prompt_id: id, originator }
}

/// A prompt from its start through all that happens to it, with given waits.
pub fn handle_prompt(
    session_prompt_id: &str,
    originator: &PromptOriginator,
    config: &ResponsesConfig,
    ws_disabled: bool,
    delays: Vec<u128>,
    happenings: Vec<Happening>,
) -> (r: (PromptTurn, Vec<PromptEvent>))
    requires
        are_delays(delays@),
        forall|i: int|
            0 <= i < happenings@.len() ==> is_timed_happening((#[trigger] happenings@[i])@),
    ensures
        ({
            let run = all_happened(
                started(
                    TurnKind::Prompt,
                    session_prompt_id@,
                    originator@,
                    config@,
                    ws_disabled,
                    delays@,
                ),
                happening_views(happenings@),
            );
            &&& r.0@ == run.turn
            &&& prompt_event_views(r.1@) == seq![submitted_of(session_prompt_id@, originator@)]
                + run.events
        }),
        r.0@.is_sound(),
{
    let mut turn = PromptTurn::start_with_delays(
        TurnKind::Prompt,
        session_prompt_id,
        originator,
        config,
        ws_disabled,
        delays,
    );
    let mut events: Vec<PromptEvent> = Vec::new();
    let first = PromptEvent::Submitted {
        session_prompt_id: session_prompt_id.to_owned(),
        originator: originator.copy(),
    };
    events.push(first);
    let ghost front = events@;
    assert(prompt_event_views(front) =~= seq![first@]);
    let mut more = turn.happen_all(happenings);
    let ghost added = more@;
    events.append(&mut more);
    assert(prompt_event_views(events@) =~= prompt_event_views(front) + prompt_event_views(added));
    (turn, events)
}

/// A compaction from its start through all that happens to it.
pub fn handle_compaction_request(
    session_prompt_id: &str,
    originator: &PromptOriginator,
    config: &ResponsesConfig,
    happenings: Vec<Happening>,
) -> (r: (PromptTurn, Vec<PromptEvent>))
    requires
        forall|i: int|
            0 <= i < happenings@.len() ==> is_timed_happening((#[trigger] happenings@[i])@),
    ensures
        is_schedule(
            r.0@.delays,
            LLM_MIN_DELAY_SECS as nat,
            retries_for(originator@) as nat,
        ),
        ({
            let fresh = started(
                TurnKind::Compaction,
                session_prompt_id@,
                originator@,
                config@,
                true,
                r.0@.delays,
            );
            let run = all_happened(
                if config@.supports_compaction {
                    fresh
                } else {
                    fresh.ended()
                },
                happening_views(happenings@),
            );
            &&& r.0@ == run.turn
            &&& prompt_event_views(r.1@) == (if config@.supports_compaction {
                seq![]
            } else {
                seq![fresh.failure_answer(no_compaction(), None)]
            }) + run.events
        }),
{
    let (mut turn, mut events) = start_compaction(session_prompt_id, originator, config);
    let ghost front = events@;
    let ghost begun = turn@;
    assert(config@.supports_compaction ==> prompt_event_views(front) =~= seq![]);
    let mut more = turn.happen_all(happenings);
    let ghost added = more@;
    events.append(&mut more);
    assert(prompt_event_views(events@) =~= prompt_event_views(front) + prompt_event_views(added));
    proof {
        lemma_delays_stay(begun, happening_views(happenings@));
    }
    (turn, events)
}

/// The waits of a schedule stay, whatever happens.
proof fn lemma_delays_stay(turn: TurnView, happenings: Seq<HappeningView>)
    ensures
        all_happened(turn, happenings).turn.delays == turn.delays,
    decreases happenings.len(),
{
    if happenings.len() > 0 {
        lemma_delays_stay(turn, happenings.drop_last());
    }
}

} // verus!
