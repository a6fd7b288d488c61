//! What holds of the notifications at all times.

use vstd::prelude::*;

use crate::notifications::hooks::{config_error, OutputView};
use crate::notifications::run::is_sound;
use crate::notifications::state::{
    all_configured, armed, asked_at, by_sub_agent, is_configured, lemma_asked_at, put_off, quiet,
    IdleHookKind, Incoming, NotifyView, PendingView,
};

verus! {

/// History leads to nothing: a replayed event changes nothing and sends
/// nothing.
pub proof fn law_history_is_ignored(
    s: NotifyView,
    event: Incoming,
    now: u128,
    host: Seq<char>,
    cwd: Seq<char>,
)
    ensures
        s.delivered(event, true, now, host, cwd) == quiet(s),
{
}

/// Side conversations of extensions are silent: they run no action, and leave
/// the user's turn and its idle timers alone.
pub proof fn law_side_conversations_are_silent(
    s: NotifyView,
    event: Incoming,
    now: u128,
    host: Seq<char>,
    cwd: Seq<char>,
)
    requires
        by_sub_agent(event),
    ensures
        ({
            let r = s.delivered(event, false, now, host, cwd);
            &&& r.out.len() == 0
            &&& r.failure is None
            &&& r.state == s
        }),
{
}

/// Once the end of a turn was told, it is not told again before the next
/// prompt: a further response sends nothing.
pub proof fn law_turn_ends_once(
    s: NotifyView,
    agent: Seq<char>,
    response: Seq<char>,
    again: Incoming,
    now: u128,
    later_on: u128,
    host: Seq<char>,
    cwd: Seq<char>,
)
    requires
        s.turn_ends(agent, response, now, host, cwd).failure is None,
        again is ProviderResponseFinished,
    ensures
        ({
            let after = s.turn_ends(agent, response, now, host, cwd).state;
            &&& after.ended
            &&& after.delivered(again, false, later_on, host, cwd).out.len() == 0
            &&& after.delivered(again, false, later_on, host, cwd).state.ended
        }),
{
}

/// The end of a turn waits for the tools in the background: a response sends
/// nothing while one of them works.
pub proof fn law_end_waits_for_background_tools(
    s: NotifyView,
    event: Incoming,
    now: u128,
    host: Seq<char>,
    cwd: Seq<char>,
)
    requires
        s.background != Set::<Seq<char>>::empty(),
        event is ProviderResponseFinished,
    ensures
        s.delivered(event, false, now, host, cwd).out.len() == 0,
        s.delivered(event, false, now, host, cwd).failure is None,
        s.delivered(event, false, now, host, cwd).state.background == s.background,
{
}

/// The last tool in the background ends a turn whose final response has come,
/// with the response that was kept.
pub proof fn law_last_background_tool_ends_the_turn(
    s: NotifyView,
    call: Seq<char>,
    agent: Seq<char>,
    now: u128,
    host: Seq<char>,
    cwd: Seq<char>,
)
    requires
        s.deferred,
        s.pending_agent == Some(agent),
        s.background == Set::<Seq<char>>::empty().insert(call),
        s.background_done(call, now, host, cwd).failure is None,
    ensures
        s.background_done(call, now, host, cwd).state.ended,
        !s.background_done(call, now, host, cwd).state.deferred,
        s.background_done(call, now, host, cwd).state.idle == armed(
            s.config.agent_idle,
            IdleHookKind::Agent,
            agent,
            s.last_prompt,
            s.pending_text,
            s.default_delay,
            now,
        ),
{
    assert(s.background.remove(call) =~= Set::<Seq<char>>::empty());
}

/// Every prompt of the user resets the idle timers.
pub proof fn law_prompt_resets_idle_timers(
    s: NotifyView,
    event: Incoming,
    now: u128,
    host: Seq<char>,
    cwd: Seq<char>,
)
    requires
        event is AgentPromptSubmitted || event is ProviderPromptSubmitted,
        !by_sub_agent(event),
    ensures
        s.delivered(event, false, now, host, cwd).state.idle.len() == 0,
{
}

/// A turn that goes on is not started again: a second prompt of the user sends
/// nothing before the final response.
pub proof fn law_turn_starts_once(
    s: NotifyView,
    event: Incoming,
    now: u128,
    host: Seq<char>,
    cwd: Seq<char>,
)
    requires
        event is AgentPromptSubmitted,
        s.waiting,
        !s.deferred,
    ensures
        s.delivered(event, false, now, host, cwd).out.len() == 0,
        s.delivered(event, false, now, host, cwd).state.last_prompt == s.last_prompt,
{
}

/// Whether no action is configured and none waits.
pub open spec fn is_disabled(s: NotifyView) -> bool {
    &&& s.config.agent_start.len() == 0
    &&& s.config.agent_end.len() == 0
    &&& s.config.agent_idle.len() == 0
    &&& s.config.agent_idle_all.len() == 0
    &&& s.idle.len() == 0
    &&& s.idle_all.len() == 0
}

proof fn lemma_disabled_times_out_silently(
    s: NotifyView,
    now: u128,
    host: Seq<char>,
    cwd: Seq<char>,
)
    requires
        is_disabled(s),
    ensures
        s.timed_out(now, host, cwd).out.len() == 0,
        s.timed_out(now, host, cwd).failure is None,
{
}

proof fn lemma_disabled_handles_silently(
    s: NotifyView,
    event: Incoming,
    now: u128,
    host: Seq<char>,
    cwd: Seq<char>,
)
    requires
        is_disabled(s),
    ensures
        s.handled(event, now, host, cwd).out.len() == 0,
        s.handled(event, now, host, cwd).failure is None,
        is_disabled(s.handled(event, now, host, cwd).state),
{
    if let Incoming::StartAgentResult { query_id, .. } = event {
        lemma_asked_at(s.idle, query_id@);
        lemma_asked_at(s.idle_all, query_id@);
    }
}

/// Without configured actions nothing is ever sent, whatever the harness
/// delivers and however long it takes.
pub proof fn law_default_configuration_is_silent(
    s: NotifyView,
    event: Incoming,
    replay: bool,
    now: u128,
    host: Seq<char>,
    cwd: Seq<char>,
)
    requires
        is_disabled(s),
    ensures
        s.delivered(event, replay, now, host, cwd).out.len() == 0,
        s.delivered(event, replay, now, host, cwd).failure is None,
        is_disabled(s.delivered(event, replay, now, host, cwd).state),
        s.timed_out(now, host, cwd).out.len() == 0,
        s.timed_out(now, host, cwd).failure is None,
{
    lemma_disabled_times_out_silently(s, now, host, cwd);
    lemma_disabled_handles_silently(s.followed(event, now), event, now, host, cwd);
}

/// The idle actions for all agents wait only while nobody works.
pub open spec fn all_idle_means_nobody_busy(s: NotifyView) -> bool {
    s.idle_all.len() > 0 ==> s.busy == Set::<Seq<char>>::empty()
}

/// Whatever the harness delivers, the idle actions for all agents wait only
/// while nobody works.
pub proof fn law_all_idle_means_nobody_busy(
    s: NotifyView,
    event: Incoming,
    replay: bool,
    now: u128,
    host: Seq<char>,
    cwd: Seq<char>,
)
    requires
        all_idle_means_nobody_busy(s),
    ensures
        all_idle_means_nobody_busy(s.delivered(event, replay, now, host, cwd).state),
{
    if let Incoming::AgentState { agent_id, running } = event {
        if !running && s.busy == Set::<Seq<char>>::empty() {
            assert(s.busy.remove(agent_id@) =~= s.busy);
        }
    }
    if let Incoming::StartAgentResult { query_id, .. } = event {
        lemma_asked_at(s.idle_all, query_id@);
        lemma_asked_at(s.idle, query_id@);
    }
}

proof fn lemma_armed_configured(
    s: NotifyView,
    agent: Seq<char>,
    user_prompt: Seq<char>,
    agent_response: Seq<char>,
    now: u128,
)
    requires
        s.config.agent_idle.len() <= usize::MAX,
        s.config.agent_idle_all.len() <= usize::MAX,
    ensures
        all_configured(
            armed(
                s.config.agent_idle,
                IdleHookKind::Agent,
                agent,
                user_prompt,
                agent_response,
                s.default_delay,
                now,
            ),
            s.config,
            IdleHookKind::Agent,
        ),
        all_configured(
            armed(
                s.config.agent_idle_all,
                IdleHookKind::AgentAll,
                agent,
                user_prompt,
                agent_response,
                s.default_delay,
                now,
            ),
            s.config,
            IdleHookKind::AgentAll,
        ),
{
}

proof fn lemma_removed_configured(list: Seq<PendingView>, s: NotifyView, kind: IdleHookKind, i: int)
    requires
        all_configured(list, s.config, kind),
        0 <= i < list.len(),
    ensures
        all_configured(list.remove(i), s.config, kind),
{
    let left = list.remove(i);
    assert forall|k: int| 0 <= k < left.len() implies (#[trigger] left[k]).kind == kind
        && is_configured(s.config, left[k]) by {
        if k < i {
            assert(left[k] == list[k]);
        } else {
            assert(left[k] == list[k + 1]);
        }
    }
}

/// Every waiting action is one of the configuration in force, whatever the
/// harness delivers: no action is ever looked up in vain.
pub proof fn law_waiting_actions_are_configured(
    s: NotifyView,
    event: Incoming,
    replay: bool,
    now: u128,
    host: Seq<char>,
    cwd: Seq<char>,
)
    requires
        is_sound(s),
        s.config.agent_idle.len() <= usize::MAX,
        s.config.agent_idle_all.len() <= usize::MAX,
    ensures
        is_sound(s.delivered(event, replay, now, host, cwd).state),
{
    let f = s.followed(event, now);
    assert(is_sound(f)) by {
        if let Incoming::AgentState { agent_id, running } = event {
            let turn = if s.contexts.dom().contains(agent_id@) {
                s.contexts[agent_id@]
            } else {
                crate::notifications::state::TurnView {
                    user_prompt: seq![],
                    agent_response: seq![],
                }
            };
            lemma_armed_configured(
                s,
                agent_id@,
                turn.user_prompt,
                turn.agent_response,
                now,
            );
        }
    }
    match event {
        Incoming::ProviderResponseFinished { agent_id, items, .. } => {
            lemma_armed_configured(
                f,
                agent_id@,
                f.last_prompt,
                crate::notifications::state::response_text_of(items@),
                now,
            );
        },
        Incoming::ToolBackgroundResult { .. } => {
            if let Some(agent) = f.pending_agent {
                lemma_armed_configured(f, agent, f.last_prompt, f.pending_text, now);
            }
        },
        Incoming::ToolBackgroundError { .. } => {
            if let Some(agent) = f.pending_agent {
                lemma_armed_configured(f, agent, f.last_prompt, f.pending_text, now);
            }
        },
        Incoming::StartAgentResult { query_id, .. } => {
            lemma_asked_at(f.idle, query_id@);
            lemma_asked_at(f.idle_all, query_id@);
            let i = asked_at(f.idle, query_id@);
            let k = asked_at(f.idle_all, query_id@);
            if i < f.idle.len() {
                lemma_removed_configured(f.idle, f, IdleHookKind::Agent, i);
            } else if k < f.idle_all.len() {
                lemma_removed_configured(f.idle_all, f, IdleHookKind::AgentAll, k);
            }
        },
        Incoming::UiPromptDraft => {
            let a = put_off(f.idle, f.config, f.default_delay, now);
            let b = put_off(f.idle_all, f.config, f.default_delay, now);
            assert forall|k: int| 0 <= k < a.len() implies (#[trigger] a[k]).kind
                == IdleHookKind::Agent && is_configured(f.config, a[k]) by {
                assert(f.idle[k].kind == IdleHookKind::Agent);
            }
            assert forall|k: int| 0 <= k < b.len() implies (#[trigger] b[k]).kind
                == IdleHookKind::AgentAll && is_configured(f.config, b[k]) by {
                assert(f.idle_all[k].kind == IdleHookKind::AgentAll);
            }
        },
        _ => {},
    }
}

/// A configuration that is refused changes nothing, and one that is taken drops
/// the actions that wait.
pub proof fn law_configuration_is_all_or_nothing(
    s: NotifyView,
    config: crate::notifications::hooks::ExtConfig,
    host: Seq<char>,
    cwd: Seq<char>,
)
    ensures
        ({
            let r = s.configure(Ok(config), host, cwd);
            match config_error(config@, host, cwd) {
                Some(fault) => r.state == s && r.out == seq![
                    OutputView::ConfigError(fault.seen()),
                ],
                None => r.state.config == config@ && r.state.idle.len() == 0
                    && r.state.idle_all.len() == 0 && r.out.len() == 0,
            }
        }),
{
}

} // verus!
