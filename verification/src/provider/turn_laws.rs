//! Laws of prompts on their way.

use vstd::prelude::*;

use crate::proto::OriginatorView;
use crate::provider::finish::WsPoolDelta;
use crate::provider::http::UpdateView;
use crate::provider::request::{PayloadView, Transport};
use crate::provider::responses::ConfigView;
use crate::provider::stream::StreamView;
use crate::provider::turn::{
    all_happened, for_transport, happened, started, with_shown, FailureView, HappeningView,
    PromptEventView, Stepped, TurnKind, TurnStep, TurnView, WsOutcomeView,
};

verus! {

/// How many answers are among some events.
pub open spec fn answers(events: Seq<PromptEventView>) -> nat
    decreases events.len(),
{
    if events.len() == 0 {
        0
    } else if events.last() is Finished {
        answers(events.drop_last()) + 1
    } else {
        answers(events.drop_last())
    }
}

/// What is shown is no answer.
proof fn lemma_shown_is_no_answer(turn: TurnView, updates: Seq<UpdateView>)
    ensures
        answers(turn.shown(updates)) == 0,
    decreases updates.len(),
{
    let all = turn.shown(updates);
    if updates.len() > 0 {
        lemma_shown_is_no_answer(turn, updates.drop_last());
        assert(all.drop_last() =~= turn.shown(updates.drop_last()));
    }
}

/// Answers add up.
proof fn lemma_answers_add(a: Seq<PromptEventView>, b: Seq<PromptEventView>)
    ensures
        answers(a + b) == answers(a) + answers(b),
    decreases b.len(),
{
    if b.len() == 0 {
        assert(a + b =~= a);
    } else {
        lemma_answers_add(a, b.drop_last());
        assert((a + b).drop_last() =~= a + b.drop_last());
        assert((a + b).last() == b.last());
    }
}

/// Whether a step answers the prompt where, and only where, it ends it.
pub open spec fn answers_as_it_ends(stepped: Stepped) -> bool {
    answers(stepped.events) == if stepped.turn.step is Done {
        1nat
    } else {
        0nat
    }
}

/// One event is one answer or none.
proof fn lemma_single(event: PromptEventView)
    ensures
        answers(seq![event]) == if event is Finished {
            1nat
        } else {
            0nat
        },
{
    assert(seq![event].drop_last() =~= seq![]);
    assert(answers(seq![]) == 0);
}

/// What was shown changes nothing about the answer.
proof fn lemma_with_shown(turn: TurnView, updates: Seq<UpdateView>, stepped: Stepped)
    requires
        answers_as_it_ends(stepped),
    ensures
        answers_as_it_ends(with_shown(turn.shown(updates), stepped)),
{
    lemma_shown_is_no_answer(turn, updates);
    lemma_answers_add(turn.shown(updates), stepped.events);
}

/// A failure is the answer where the prompt ends by it.
proof fn lemma_failed_answers(turn: TurnView, failure: FailureView, delta: Option<WsPoolDelta>)
    ensures
        answers_as_it_ends(turn.failed(failure, delta)),
{
    lemma_single(turn.failed(failure, delta).events[0]);
    assert(turn.failed(failure, delta).events =~= seq![turn.failed(failure, delta).events[0]]);
}

/// A prompt is answered once: a step answers it where, and only where, it ends
/// it.
pub proof fn law_prompt_is_answered_once(
    turn: TurnView,
    updates: Seq<UpdateView>,
    ws: WsOutcomeView,
    http: Result<StreamView, FailureView>,
    aborted: bool,
    ws_disabled: bool,
    delta: Option<WsPoolDelta>,
)
    requires
        turn.is_sound(),
    ensures
        turn.step is TryWs ==> answers_as_it_ends(
            with_shown(turn.shown(updates), turn.after_ws(ws, delta)),
        ),
        turn.step is TryHttp ==> answers_as_it_ends(
            with_shown(turn.shown(updates), turn.after_http(http, delta)),
        ),
        turn.step is Sleep ==> answers_as_it_ends(turn.after_wait(aborted, ws_disabled, delta)),
{
    let over_ws = TurnView { transport: Transport::Websocket, ..turn };
    let over_http = TurnView { transport: Transport::HttpSse, ..turn };
    if turn.step is TryWs {
        match ws {
            WsOutcomeView::Done(state) => {
                let done = TurnView { ws_failures: 0, ..over_ws };
                lemma_single(done.answer(state, delta));
            },
            WsOutcomeView::Canceled => {
                lemma_failed_answers(
                    over_ws,
                    crate::provider::turn::canceled_failure(),
                    delta,
                );
            },
            WsOutcomeView::Failed(failure) => {
                lemma_failed_answers(over_ws, failure, delta);
                lemma_failed_answers(
                    TurnView { ws_failures: turn.ws_failures + 1, ..over_ws },
                    failure,
                    delta,
                );
            },
        }
        lemma_with_shown(turn, updates, turn.after_ws(ws, delta));
    }
    if turn.step is TryHttp {
        match http {
            Ok(state) => lemma_single(over_http.answer(state, delta)),
            Err(failure) => lemma_failed_answers(over_http, failure, delta),
        }
        lemma_with_shown(turn, updates, turn.after_http(http, delta));
    }
    if turn.step is Sleep {
        lemma_single(turn.failure_answer(turn.waiting->Some_0.error, delta));
    }
}

/// How many steps a prompt has before it at most.
pub open spec fn steps_left(turn: TurnView) -> nat {
    if turn.step is Done {
        0
    } else {
        (3 * (turn.delays.len() - turn.attempt) + match turn.step {
            TurnStep::TryHttp => 1int,
            TurnStep::TryWs => 2,
            _ => 3,
        }) as nat
    }
}

/// A prompt comes to its end: every step brings it nearer, whatever comes back.
pub proof fn law_prompt_comes_to_its_end(
    turn: TurnView,
    ws: WsOutcomeView,
    http: Result<StreamView, FailureView>,
    aborted: bool,
    ws_disabled: bool,
    delta: Option<WsPoolDelta>,
)
    requires
        turn.is_sound(),
    ensures
        turn.step is TryWs ==> steps_left(turn.after_ws(ws, delta).turn) < steps_left(turn),
        turn.step is TryHttp ==> steps_left(turn.after_http(http, delta).turn) < steps_left(turn),
        turn.step is Sleep ==> steps_left(turn.after_wait(aborted, ws_disabled, delta).turn)
            < steps_left(turn),
        steps_left(turn) <= 27,
{
}

/// A session that fell back to HTTP stays with it: no later step tries the
/// WebSocket again.
pub proof fn law_fallback_is_kept(
    turn: TurnView,
    http: Result<StreamView, FailureView>,
    aborted: bool,
    ws_disabled: bool,
    delta: Option<WsPoolDelta>,
)
    requires
        turn.is_sound(),
        turn.ws_disabled,
    ensures
        !(turn.step is TryWs),
        turn.step is TryHttp ==> turn.after_http(http, delta).turn.ws_disabled && !(
        turn.after_http(http, delta).turn.step is TryWs),
        turn.step is Sleep ==> turn.after_wait(aborted, ws_disabled, delta).turn.ws_disabled && !(
        turn.after_wait(aborted, ws_disabled, delta).turn.step is TryWs),
{
}

/// A WebSocket that keeps failing is given up: a prompt that has used up its
/// budget goes over to HTTP.
pub proof fn law_failing_ws_is_given_up(
    turn: TurnView,
    failure: FailureView,
    delta: Option<WsPoolDelta>,
)
    requires
        turn.is_sound(),
        turn.step is TryWs,
        turn.ws_failures >= turn.ws_budget,
        failure.retry_after is Some,
    ensures
        turn.after_ws(WsOutcomeView::Failed(failure), delta).turn.step is TryHttp,
        turn.after_ws(WsOutcomeView::Failed(failure), delta).turn.ws_disabled,
{
}

/// A response to go on from is not taken over to another transport.
pub proof fn law_chain_keeps_its_transport(request: PayloadView, transport: Transport)
    ensures
        for_transport(request, transport).previous_response matches Some(previous) ==> {
            &&& request.previous_response == Some(previous)
            &&& previous.transport is None || previous.transport == Some(transport)
        },
        for_transport(for_transport(request, transport), transport) == for_transport(
            request,
            transport,
        ),
{
}

/// A compaction goes over HTTP alone.
pub proof fn law_compaction_goes_over_http(
    id: Seq<char>,
    originator: OriginatorView,
    config: ConfigView,
    ws_disabled: bool,
    delays: Seq<u128>,
)
    ensures
        started(TurnKind::Compaction, id, originator, config, ws_disabled, delays).step is TryHttp,
{
}

/// A prompt stays in its bounds, whatever happens.
proof fn lemma_happened_is_sound(turn: TurnView, happening: HappeningView)
    requires
        turn.is_sound(),
    ensures
        happened(turn, happening).turn.is_sound(),
{
}

/// From its start on a prompt stays in its bounds and is answered once, where and
/// only where it has come to its end.
pub proof fn law_prompt_has_one_answer(
    turn: TurnView,
    happenings: Seq<HappeningView>,
)
    requires
        turn.is_sound(),
        !(turn.step is Done),
    ensures
        all_happened(turn, happenings).turn.is_sound(),
        answers_as_it_ends(all_happened(turn, happenings)),
    decreases happenings.len(),
{
    if happenings.len() == 0 {
        assert(answers(seq![]) == 0);
    } else {
        let before = all_happened(turn, happenings.drop_last());
        let last = happenings.last();
        law_prompt_has_one_answer(turn, happenings.drop_last());
        lemma_happened_is_sound(before.turn, last);
        let step = happened(before.turn, last);
        lemma_answers_add(before.events, step.events);
        match last {
            HappeningView::Ws { updates, outcome, delta } => {
                law_prompt_is_answered_once(
                    before.turn,
                    updates,
                    outcome,
                    Ok(StreamView::fresh()),
                    true,
                    true,
                    delta,
                );
            },
            HappeningView::Http { updates, outcome, delta } => {
                law_prompt_is_answered_once(
                    before.turn,
                    updates,
                    WsOutcomeView::Canceled,
                    outcome,
                    true,
                    true,
                    delta,
                );
            },
            HappeningView::Woke { aborted, ws_disabled, delta } => {
                law_prompt_is_answered_once(
                    before.turn,
                    seq![],
                    WsOutcomeView::Canceled,
                    Ok(StreamView::fresh()),
                    aborted,
                    ws_disabled,
                    delta,
                );
            },
        }
        let none: Seq<PromptEventView> = seq![];
        assert(answers(none) == 0);
    }
}

} // verus!
