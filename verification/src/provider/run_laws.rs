//! Laws of the provider at work.

use vstd::prelude::*;

use crate::provider::ack::{is_over, AckView};
use crate::provider::auth::AuthView;
use crate::provider::job::{JobView, PromptView};
use crate::provider::responses::ConfigView;
use crate::provider::run::{
    announced, canceled_out, fresh_provider, heard_all, missing_out, queued_at, submitted_out,
    InputView, OutputView, ProviderStep, ProviderView,
};

verus! {

/// Whether the provider keeps its bounds: no more prompts run than may, none
/// waits while there is room, and nothing that is done was acknowledged.
pub open spec fn is_sound(state: ProviderView) -> bool {
    &&& state.active <= state.limit
    &&& !state.done ==> (state.queue.len() > 0 ==> state.active == state.limit)
    &&& state.acks.is_sound()
}

/// Waiting prompts that start keep the bounds, and leave none waiting while
/// there is room.
proof fn lemma_queue_started(state: ProviderView)
    requires
        state.active <= state.limit,
        state.acks.is_sound(),
    ensures
        ({
            let next = state.queue_started().state;
            &&& next.active <= next.limit
            &&& next.limit == state.limit
            &&& next.queue.len() > 0 ==> next.active == next.limit
            &&& next.acks.is_sound()
            &&& next.done == state.done
            &&& next.compacting == state.compacting
            &&& next.input_closed == state.input_closed
        }),
    decreases state.queue.len(),
{
    if state.active < state.limit && state.queue.len() > 0 {
        let job = state.queue[0];
        let id = job.prompt.session_prompt_id;
        let rest = ProviderView { queue: state.queue.drop_first(), ..state }.told(id);
        if state.cancellation.is_canceled(id) {
            lemma_queue_started(rest.with_log_done(job.log_id));
        } else {
            lemma_queue_started(ProviderView { active: state.active + 1, ..rest });
        }
    }
}

/// Acknowledgements keep their soundness.
proof fn lemma_acked_sound(acks: AckView)
    requires
        acks.is_sound(),
    ensures
        acks.acked().is_sound(),
{
    if acks.next() is Some {
        let id = acks.next()->Some_0;
        assert forall|c: u64| #[trigger] acks.acked().completed.contains(c) implies is_over(
            acks.acked().acked_up_to,
            c,
        ) by {
            assert(id < c);
        }
    }
}

/// The provider keeps its bounds, whatever it hears: no more prompts run than
/// may, and none waits while there is room.
pub proof fn law_bounds_are_kept(state: ProviderView, input: InputView)
    requires
        is_sound(state),
    ensures
        is_sound(state.heard(input).state),
        state.heard(input).state.limit == state.limit,
{
    if !state.done {
        let step = match input {
            InputView::Frame { log_id, frame, credentials } => state.framed(
                log_id,
                frame,
                credentials,
            ).state,
            InputView::PromptDone(log_id) => (ProviderView {
                active: if state.active > 0 {
                    (state.active - 1) as nat
                } else {
                    0
                },
                ..state
            }).with_log_done(log_id),
            InputView::CompactionDone => match state.compacting {
                Some(log_id) => (ProviderView { compacting: None, ..state }).with_log_done(log_id),
                None => state,
            },
            _ => state,
        };
        if !step.done {
            let next = match input {
                InputView::PrewarmDone { session_id, .. } => state.without_ws(session_id),
                InputView::WsDisabled(session_id) => state.without_ws(session_id),
                InputView::Closed => ProviderView { input_closed: true, ..state },
                _ => step,
            };
            lemma_queue_started(step);
            lemma_queue_started(next);
            lemma_acked_sound(step.queue_started().state.acks);
            lemma_acked_sound(next.queue_started().state.acks);
        }
    }
}

/// From its first word on the provider keeps its bounds.
pub proof fn law_bounds_hold_throughout(limit: nat, inputs: Seq<InputView>)
    ensures
        is_sound(heard_all(fresh_provider(limit), inputs).state),
        heard_all(fresh_provider(limit), inputs).state.limit == limit,
    decreases inputs.len(),
{
    if inputs.len() > 0 {
        law_bounds_hold_throughout(limit, inputs.drop_last());
        law_bounds_are_kept(
            heard_all(fresh_provider(limit), inputs.drop_last()).state,
            inputs.last(),
        );
    }
}

/// Whether an output is an acknowledgement.
pub open spec fn is_ack(output: OutputView) -> bool {
    output is Ack
}

/// Whether the acknowledgements among some outputs wait for what is pending.
pub open spec fn acks_wait(out: Seq<OutputView>, acks: AckView) -> bool {
    forall|i: int, p: u64|
        0 <= i < out.len() && is_ack(#[trigger] out[i]) && #[trigger] acks.pending.contains(p)
            ==> out[i]->Ack_0 < p
}

/// Waiting prompts that start acknowledge nothing.
proof fn lemma_start_is_no_ack(state: ProviderView)
    ensures
        forall|i: int|
            0 <= i < state.queue_started().out.len() ==> !is_ack(
                #[trigger] state.queue_started().out[i],
            ),
    decreases state.queue.len(),
{
    if state.active < state.limit && state.queue.len() > 0 {
        let job = state.queue[0];
        let id = job.prompt.session_prompt_id;
        let rest = ProviderView { queue: state.queue.drop_first(), ..state }.told(id);
        let next = if state.cancellation.is_canceled(id) {
            rest.with_log_done(job.log_id)
        } else {
            ProviderView { active: state.active + 1, ..rest }
        };
        lemma_start_is_no_ack(next);
        let out = state.queue_started().out;
        assert forall|i: int| 0 <= i < out.len() implies !is_ack(#[trigger] out[i]) by {
            if i > 0 {
                assert(out[i] == next.queue_started().out[i - 1]);
            }
        }
    }
}

/// No acknowledgement goes out that covers an event that is still being handled:
/// a restart loses no accepted work.
pub proof fn law_no_ack_before_its_time(state: ProviderView, input: InputView)
    ensures
        acks_wait(state.heard(input).out, state.heard(input).state.acks),
{
    if !state.done {
        let step = match input {
            InputView::Frame { log_id, frame, credentials } => state.framed(
                log_id,
                frame,
                credentials,
            ),
            InputView::PromptDone(log_id) => ProviderStep {
                state: (ProviderView {
                    active: if state.active > 0 {
                        (state.active - 1) as nat
                    } else {
                        0
                    },
                    ..state
                }).with_log_done(log_id),
                out: seq![],
            },
            InputView::CompactionDone => ProviderStep {
                state: match state.compacting {
                    Some(log_id) => (ProviderView { compacting: None, ..state }).with_log_done(
                        log_id,
                    ),
                    None => state,
                },
                out: seq![],
            },
            InputView::PrewarmDone { session_id, error } => ProviderStep {
                state: match error {
                    Some(error) => if crate::provider::retry::disables_ws(error) {
                        state.without_ws(session_id)
                    } else {
                        state
                    },
                    None => state,
                },
                out: seq![],
            },
            InputView::WsDisabled(session_id) => ProviderStep {
                state: state.without_ws(session_id),
                out: seq![],
            },
            InputView::Closed => ProviderStep {
                state: ProviderView { input_closed: true, ..state },
                out: seq![],
            },
        };
        assert(forall|i: int| 0 <= i < step.out.len() ==> !is_ack(#[trigger] step.out[i]));
        if !step.state.done {
            let started = step.state.queue_started();
            lemma_start_is_no_ack(step.state);
            let acked = started.state.acks_written();
            let out = state.heard(input).out;
            assert(out =~= step.out + (started.out + acked.out));
            let acks = state.heard(input).state.acks;
            assert forall|i: int, p: u64|
                0 <= i < out.len() && is_ack(#[trigger] out[i])
                    && #[trigger] acks.pending.contains(p) implies out[i]->Ack_0 < p by {
                if i < step.out.len() {
                    assert(out[i] == step.out[i]);
                } else if i < step.out.len() + started.out.len() {
                    assert(out[i] == started.out[i - step.out.len()]);
                } else {
                    assert(started.state.acks.next() is Some);
                    crate::provider::ack::law_ack_waits_for_pending(started.state.acks, p);
                }
            }
        }
    }
}

/// No prompt is lost: one that comes in is answered, started, or waits.
pub proof fn law_no_prompt_is_lost(
    state: ProviderView,
    log_id: Option<u64>,
    prompt: PromptView,
    backend: Option<ConfigView>,
)
    ensures
        ({
            let step = state.prompted(log_id, prompt, backend);
            ||| step.out == seq![canceled_out(prompt)]
            ||| step.out == seq![submitted_out(prompt), missing_out(prompt)]
            ||| backend is Some && step.out == seq![
                OutputView::Start(JobView { log_id, prompt, backend: backend->Some_0 }),
            ]
            ||| backend is Some && step.out == Seq::<OutputView>::empty() && step.state.queue
                == state.queue.push(JobView { log_id, prompt, backend: backend->Some_0 })
        }),
{
}

/// A prompt that is cancelled while it waits is answered at once, and does not
/// wait any more.
pub proof fn law_waiting_prompt_is_cancelled_at_once(
    state: ProviderView,
    log_id: Option<u64>,
    id: Seq<char>,
)
    requires
        queued_at(state.queue, id) < state.queue.len(),
    ensures
        ({
            let at = queued_at(state.queue, id);
            &&& state.queue[at].prompt.session_prompt_id == id
            &&& state.canceled(log_id, id).out == seq![canceled_out(state.queue[at].prompt)]
            &&& state.canceled(log_id, id).state.queue == state.queue.remove(at)
            &&& state.canceled(log_id, id).state.active == state.active
        }),
{
    lemma_queued_at(state.queue, id);
}

/// A prompt stands where it first waits.
proof fn lemma_queued_at(queue: Seq<JobView>, id: Seq<char>)
    ensures
        0 <= queued_at(queue, id) <= queue.len(),
        queued_at(queue, id) < queue.len() ==> queue[queued_at(
            queue,
            id,
        )].prompt.session_prompt_id == id,
    decreases queue.len(),
{
    if queue.len() > 0 && queue[0].prompt.session_prompt_id != id {
        lemma_queued_at(queue.drop_first(), id);
    }
}

/// A prompt that is cancelled before it comes in is answered and never started.
pub proof fn law_cancelled_prompt_is_not_started(
    state: ProviderView,
    log_id: Option<u64>,
    prompt: PromptView,
    backend: Option<ConfigView>,
)
    requires
        state.cancellation.is_canceled(prompt.session_prompt_id),
    ensures
        state.prompted(log_id, prompt, backend).out == seq![canceled_out(prompt)],
        state.prompted(log_id, prompt, backend).state.active == state.active,
        state.prompted(log_id, prompt, backend).state.queue == state.queue,
{
}

/// Prompts that wait start in the order in which they came.
pub proof fn law_queue_is_fair(state: ProviderView)
    ensures
        exists|n: int|
            0 <= n <= state.queue.len() && #[trigger] state.queue.skip(n)
                == state.queue_started().state.queue,
    decreases state.queue.len(),
{
    if state.active < state.limit && state.queue.len() > 0 {
        let job = state.queue[0];
        let id = job.prompt.session_prompt_id;
        let rest = ProviderView { queue: state.queue.drop_first(), ..state }.told(id);
        let next = if state.cancellation.is_canceled(id) {
            rest.with_log_done(job.log_id)
        } else {
            ProviderView { active: state.active + 1, ..rest }
        };
        law_queue_is_fair(next);
        let n = choose|n: int|
            0 <= n <= next.queue.len() && #[trigger] next.queue.skip(n)
                == next.queue_started().state.queue;
        assert(state.queue.skip(n + 1) =~= next.queue.skip(n));
    } else {
        assert(state.queue.skip(0) =~= state.queue);
    }
}

/// The models are announced before the provider says that it is ready.
pub proof fn law_models_come_before_ready(auth: AuthView)
    ensures
        announced(auth)[0] is Hello,
        announced(auth).last() is Ready,
        announced(auth)[2] is Models,
{
}

/// Once the provider is done it does nothing more.
pub proof fn law_done_is_final(state: ProviderView, input: InputView)
    requires
        state.done,
    ensures
        state.heard(input).state == state,
        state.heard(input).out.len() == 0,
{
}

} // verus!
