//! Laws of what the configured actions do, and when.

use vstd::prelude::*;

use crate::json::{at, lemma_first_member, text_at};
use crate::notifications::hooks::{
    all_outputs, delay_of, hook_argv, hook_outputs, rendered_argv, HookConfig, IdleHookConfig,
    OutputView,
};
use crate::notifications::state::{
    armed, by_user, configured, deadline_of, put_off, response_text_of, shown_name, with_lines,
    with_name, ContextRole, IdleHookKind, IdleStateView, Incoming, NotifyView, PendingView,
    ResponseItem,
};
use crate::notifications::template::{
    basename_of, context_data, filled_in, filling, host_of, name_start, path_end, ContextView,
};
use crate::text::{decimal_of, join_of, trim_of, views};

verus! {

/// A template speaks of the hook, the agent, the turn and the place by their names.
pub proof fn law_template_speaks_of_the_turn(ctx: ContextView)
    ensures
        text_at(context_data(ctx), "hook"@) == Some(ctx.hook),
        text_at(at(context_data(ctx), "agent"@), "id"@) == Some(ctx.agent_id),
        text_at(at(context_data(ctx), "agent"@), "name"@) == Some(ctx.agent_name),
        text_at(at(context_data(ctx), "turn"@), "user_prompt"@) == Some(ctx.user_prompt),
        text_at(at(context_data(ctx), "turn"@), "agent_response"@) == Some(ctx.agent_response),
        text_at(at(context_data(ctx), "turn"@), "agent_summary"@) == Some(ctx.agent_summary),
        text_at(context_data(ctx), "host"@) == Some(ctx.host),
        text_at(context_data(ctx), "cwd"@) == Some(ctx.cwd),
        text_at(context_data(ctx), "cwd_basename"@) == Some(ctx.cwd_basename),
{
    reveal_strlit("hook");
    reveal_strlit("agent");
    reveal_strlit("id");
    reveal_strlit("name");
    reveal_strlit("turn");
    reveal_strlit("user_prompt");
    reveal_strlit("agent_response");
    reveal_strlit("agent_summary");
    reveal_strlit("host");
    reveal_strlit("cwd");
    reveal_strlit("cwd_basename");
    assert("hook"@.len() == 4 && "turn"@.len() == 4 && "host"@.len() == 4 && "name"@.len() == 4);
    assert("hook"@[0] == 'h' && "turn"@[0] == 't' && "host"@[0] == 'h');
    assert("hook"@[2] == 'o' && "host"@[2] == 's');
    assert("agent"@.len() == 5 && "id"@.len() == 2 && "cwd"@.len() == 3 && "cwd_basename"@.len()
        == 12);
    assert("user_prompt"@.len() == 11 && "agent_response"@.len() == 14 && "agent_summary"@.len()
        == 13);
    let members = context_data(ctx)->Object_0;
    lemma_first_member(members, "hook"@, 0);
    lemma_first_member(members, "agent"@, 1);
    lemma_first_member(members, "turn"@, 2);
    lemma_first_member(members, "host"@, 3);
    lemma_first_member(members, "cwd"@, 4);
    lemma_first_member(members, "cwd_basename"@, 5);
    let agent = at(context_data(ctx), "agent"@)->Object_0;
    lemma_first_member(agent, "id"@, 0);
    lemma_first_member(agent, "name"@, 1);
    let turn = at(context_data(ctx), "turn"@)->Object_0;
    lemma_first_member(turn, "user_prompt"@, 0);
    lemma_first_member(turn, "agent_response"@, 1);
    lemma_first_member(turn, "agent_summary"@, 2);
}

proof fn lemma_argv(command: Seq<String>, ctx: ContextView)
    ensures
        rendered_argv(command, ctx) matches Some(argv) ==> argv.len() == command.len() && forall|k: int|
            0 <= k < argv.len() ==> filled_in(command[k]@, ctx) == Some(#[trigger] argv[k]),
        (forall|k: int| 0 <= k < command.len() ==> filled_in((#[trigger] command[k])@, ctx) is Some)
            ==> rendered_argv(command, ctx) is Some,
    decreases command.len(),
{
    if command.len() > 0 {
        let front = command.drop_last();
        lemma_argv(front, ctx);
        if let Some(argv) = rendered_argv(command, ctx) {
            assert forall|k: int| 0 <= k < argv.len() implies filled_in(command[k]@, ctx) == Some(
                #[trigger] argv[k],
            ) by {
                if k < front.len() {
                    assert(argv[k] == rendered_argv(front, ctx)->0[k]);
                    assert(front[k] == command[k]);
                }
            }
        }
        if forall|k: int|
            0 <= k < command.len() ==> filled_in((#[trigger] command[k])@, ctx) is Some {
            assert forall|k: int| 0 <= k < front.len() implies filled_in(
                (#[trigger] front[k])@,
                ctx,
            ) is Some by {
                assert(front[k] == command[k]);
            }
            assert(filled_in(command[command.len() - 1]@, ctx) is Some);
        }
    }
}

/// An action rings the bell where it is told to, sets its variable where it has one,
/// and runs its command where it has one, each once, in this order. The command that
/// is run has the parts of the configured one, filled in.
pub proof fn law_action_does_what_is_configured(hook: HookConfig, ctx: ContextView)
    ensures
        hook.osc1337 is None ==> hook_outputs(hook, ctx).1 is None,
        hook.bell ==> hook_outputs(hook, ctx).0.len() > 0 && hook_outputs(hook, ctx).0[0]
            is TermBell,
        !hook.bell ==> !hook_outputs(hook, ctx).0.contains(OutputView::TermBell),
        hook.osc1337 matches Some(osc) ==> (filling(osc.key@, ctx) matches Ok(name) ==> (filling(
            osc.value@,
            ctx,
        ) matches Ok(value) ==> hook_outputs(hook, ctx).1 is None && hook_outputs(
            hook,
            ctx,
        ).0.contains(OutputView::SetUserVar { name, value }))),
        hook.command matches Some(command) ==> (command@.len() > 0 && hook_outputs(hook, ctx).1
            is None ==> (rendered_argv(command@, ctx) matches Some(argv) ==> {
            &&& hook_outputs(hook, ctx).0.len() > 0
            &&& hook_outputs(hook, ctx).0.last() == OutputView::RunCommand { argv }
            &&& argv.len() == command@.len()
            &&& forall|k: int|
                0 <= k < argv.len() ==> filled_in(command@[k]@, ctx) == Some(#[trigger] argv[k])
        })),
        hook.command matches Some(command) ==> ((forall|k: int|
            0 <= k < command@.len() ==> filled_in((#[trigger] command@[k])@, ctx) is Some)
            ==> rendered_argv(command@, ctx) is Some),
        hook.command is None ==> hook_argv(hook, ctx) is None && forall|k: int|
            0 <= k < hook_outputs(hook, ctx).0.len() ==> !((#[trigger] hook_outputs(hook, ctx).0[k])
                is RunCommand),
        hook_outputs(hook, ctx).0.len() <= 3,
{
    if let Some(command) = hook.command {
        lemma_argv(command@, ctx);
    }
    if let Some(osc) = hook.osc1337 {
        if filling(osc.key@, ctx) is Ok && filling(osc.value@, ctx) is Ok {
            let out = hook_outputs(hook, ctx).0;
            let set = OutputView::SetUserVar {
                name: filling(osc.key@, ctx)->Ok_0,
                value: filling(osc.value@, ctx)->Ok_0,
            };
            if hook.bell {
                assert(out[1] == set);
            } else {
                assert(out[0] == set);
            }
        }
    }
}

/// Actions are run one after the other, each of them, as long as none fails.
pub proof fn law_every_action_is_run(hooks: Seq<HookConfig>, hook: HookConfig, ctx: ContextView)
    ensures
        all_outputs(seq![], ctx).0.len() == 0,
        all_outputs(seq![], ctx).1 is None,
        all_outputs(hooks, ctx).1 is None ==> {
            &&& all_outputs(hooks.push(hook), ctx).0 == all_outputs(hooks, ctx).0 + hook_outputs(
                hook,
                ctx,
            ).0
            &&& all_outputs(hooks.push(hook), ctx).1 == hook_outputs(hook, ctx).1
        },
        all_outputs(hooks, ctx).1 is Some ==> all_outputs(hooks.push(hook), ctx) == all_outputs(
            hooks,
            ctx,
        ),
{
    assert(hooks.push(hook).drop_last() =~= hooks);
}

/// Whether a context is that of a turn of an agent at a place.
pub open spec fn speaks_of(
    ctx: ContextView,
    hook: Seq<char>,
    agent: Seq<char>,
    user_prompt: Seq<char>,
    agent_response: Seq<char>,
    agent_summary: Seq<char>,
    host: Seq<char>,
    cwd: Seq<char>,
) -> bool {
    &&& ctx.hook == hook
    &&& ctx.agent_id == agent
    &&& ctx.user_prompt == user_prompt
    &&& ctx.agent_response == agent_response
    &&& ctx.agent_summary == agent_summary
    &&& ctx.host == host
    &&& ctx.cwd == cwd
    &&& ctx.cwd_basename == basename_of(cwd)
}

/// A prompt of the user that starts a turn runs the actions for that, which can
/// speak of the prompt and of the agent by its name.
pub proof fn law_prompt_runs_start_actions(
    s: NotifyView,
    event: Incoming,
    now: u128,
    host: Seq<char>,
    cwd: Seq<char>,
) -> (ctx: ContextView)
    requires
        !s.waiting,
        !s.deferred,
        event matches Incoming::AgentPromptSubmitted { originator, internal, .. } && by_user(
            originator,
        ) && !internal,
    ensures
        ({
            let r = s.delivered(event, false, now, host, cwd);
            &&& r.out == all_outputs(s.config.agent_start, ctx).0
            &&& r.failure == all_outputs(s.config.agent_start, ctx).1
            &&& r.state.last_prompt == event->AgentPromptSubmitted_text@
            &&& r.failure is None ==> r.state.waiting && !r.state.ended
        }),
        speaks_of(
            ctx,
            "agent_start"@,
            event->AgentPromptSubmitted_agent_id@,
            event->AgentPromptSubmitted_text@,
            seq![],
            seq![],
            host,
            cwd,
        ),
        ctx.agent_name == shown_name(
            s.delivered(event, false, now, host, cwd).state.names,
            event->AgentPromptSubmitted_agent_id@,
        ),
{
    let agent = event->AgentPromptSubmitted_agent_id@;
    let name = crate::text::opt_view(event->AgentPromptSubmitted_display_name);
    crate::notifications::hooks::context_at(
        "agent_start"@,
        agent,
        shown_name(with_name(s.names, agent, name), agent),
        event->AgentPromptSubmitted_text@,
        seq![],
        seq![],
        host,
        cwd,
    )
}

/// The final response of a turn runs the actions for its end, which can speak of the
/// prompt that the turn was started with and of what the assistant wrote. The idle
/// actions of the agent start to wait, each for its own time.
pub proof fn law_final_response_runs_end_actions(
    s: NotifyView,
    event: Incoming,
    now: u128,
    host: Seq<char>,
    cwd: Seq<char>,
) -> (ctx: ContextView)
    requires
        !s.ended,
        s.background == Set::<Seq<char>>::empty(),
        event matches Incoming::ProviderResponseFinished {
            originator,
            requests_tools,
            agent_prompt_id,
            ..
        } && by_user(originator) && !requests_tools && !s.completed.contains(agent_prompt_id@),
    ensures
        ({
            let r = s.delivered(event, false, now, host, cwd);
            &&& r.out == all_outputs(s.config.agent_end, ctx).0
            &&& r.failure == all_outputs(s.config.agent_end, ctx).1
            &&& r.failure is None ==> {
                &&& r.state.ended && !r.state.waiting
                &&& r.state.completed.contains(event->agent_prompt_id@)
                &&& r.state.idle.len() == s.config.agent_idle.len()
                &&& forall|k: int|
                    0 <= k < r.state.idle.len() ==> is_waiting(
                        #[trigger] r.state.idle[k],
                        IdleHookKind::Agent,
                        k,
                        event->ProviderResponseFinished_agent_id@,
                        s.last_prompt,
                        response_text_of(event->items@),
                        crate::shell::command::later(
                            now,
                            delay_of(s.config.agent_idle[k], s.default_delay) as int,
                        ),
                    )
            }
        }),
        speaks_of(
            ctx,
            "agent_end"@,
            event->ProviderResponseFinished_agent_id@,
            s.last_prompt,
            response_text_of(event->items@),
            seq![],
            host,
            cwd,
        ),
        ctx.agent_name == shown_name(s.names, event->ProviderResponseFinished_agent_id@),
{
    let agent = event->ProviderResponseFinished_agent_id@;
    crate::notifications::hooks::context_at(
        "agent_end"@,
        agent,
        shown_name(s.names, agent),
        s.last_prompt,
        response_text_of(event->items@),
        seq![],
        host,
        cwd,
    )
}

/// Whether an idle action waits for its time, and for whom.
pub open spec fn is_waiting(
    pending: PendingView,
    kind: IdleHookKind,
    index: int,
    agent: Seq<char>,
    user_prompt: Seq<char>,
    agent_response: Seq<char>,
    deadline: u128,
) -> bool {
    &&& pending.kind == kind
    &&& pending.index == index as usize
    &&& pending.agent_id == agent
    &&& pending.user_prompt == user_prompt
    &&& pending.agent_response == agent_response
    &&& pending.state == IdleStateView::WaitingIdle { deadline }
}

/// A response that asks for tools, or comes again, ends nothing.
pub proof fn law_response_that_goes_on_ends_nothing(
    s: NotifyView,
    event: Incoming,
    now: u128,
    host: Seq<char>,
    cwd: Seq<char>,
)
    requires
        event matches Incoming::ProviderResponseFinished { requests_tools, agent_prompt_id, .. }
            && (requests_tools || s.completed.contains(agent_prompt_id@) || s.ended),
    ensures
        s.delivered(event, false, now, host, cwd).out.len() == 0,
        s.delivered(event, false, now, host, cwd).failure is None,
        s.delivered(event, false, now, host, cwd).state.ended == s.ended,
        s.delivered(event, false, now, host, cwd).state.idle == s.idle,
{
}

/// An idle action waits for the seconds that are configured, or for the default.
pub proof fn law_idle_time_is_as_configured(hook: IdleHookConfig, default_delay: u128)
    ensures
        hook.delay_seconds matches Some(secs) ==> delay_of(hook, default_delay) == secs
            * 1_000_000_000,
        hook.delay_seconds is None ==> delay_of(hook, default_delay) == default_delay,
{
    if let Some(secs) = hook.delay_seconds {
        assert(secs * 1_000_000_000 <= u128::MAX) by (nonlinear_arith)
            requires
                secs <= u64::MAX,
        ;
    }
}

/// Nothing is run before its time.
pub proof fn law_nothing_is_run_before_its_time(
    s: NotifyView,
    now: u128,
    host: Seq<char>,
    cwd: Seq<char>,
)
    requires
        forall|k: int| 0 <= k < s.idle.len() ==> now < deadline_of((#[trigger] s.idle[k]).state),
        forall|k: int|
            0 <= k < s.idle_all.len() ==> now < deadline_of((#[trigger] s.idle_all[k]).state),
    ensures
        s.timed_out(now, host, cwd).out.len() == 0,
        s.timed_out(now, host, cwd).failure is None,
        s.timed_out(now, host, cwd).state == s,
{
    crate::notifications::state::lemma_due_at(s.idle, now);
    crate::notifications::state::lemma_due_at(s.idle_all, now);
    let i = crate::notifications::state::due_at(s.idle, now);
    if i < s.idle.len() {
        assert(now < deadline_of(s.idle[i].state));
    }
    let k = crate::notifications::state::due_at(s.idle_all, now);
    if k < s.idle_all.len() {
        assert(now < deadline_of(s.idle_all[k].state));
    }
    assert(s.timed_out(now, host, cwd).out =~= seq![]);
}

/// An idle action whose time has come is run, with the turn that it waited for; one
/// that wants a summary asks for it first. Each is run once.
pub proof fn law_due_action_is_run(
    s: NotifyView,
    pending: PendingView,
    now: u128,
    host: Seq<char>,
    cwd: Seq<char>,
) -> (ctx: ContextView)
    requires
        deadline_of(pending.state) <= now,
    ensures
        pending.state is WaitingSummary || !configured(s.config, pending).agent_summary ==> {
            let (left, id, out, failure) = s.run_due(seq![pending], now, host, cwd);
            &&& left.len() == 0
            &&& out == hook_outputs(configured(s.config, pending).hook, ctx).0
            &&& failure == hook_outputs(configured(s.config, pending).hook, ctx).1
            &&& id == s.next_query
        },
        speaks_of(
            ctx,
            match pending.kind {
                IdleHookKind::Agent => "agent_idle"@,
                IdleHookKind::AgentAll => "agent_idle_all"@,
            },
            pending.agent_id,
            pending.user_prompt,
            pending.agent_response,
            seq![],
            host,
            cwd,
        ),
{
    let list = seq![pending];
    let none = Seq::<PendingView>::empty();
    assert(list.remove(0) =~= none);
    assert(crate::notifications::state::due_at(list, now) == 0);
    assert(s.run_due(none, now, host, cwd).2 =~= seq![]);
    let out = s.run_pending(pending, seq![], host, cwd).0;
    assert(out + Seq::<OutputView>::empty() =~= out);
    crate::notifications::hooks::context_at(
        crate::notifications::state::kind_name(pending.kind),
        pending.agent_id,
        shown_name(s.names, pending.agent_id),
        pending.user_prompt,
        pending.agent_response,
        seq![],
        host,
        cwd,
    )
}

/// An idle action that wants a summary asks an agent for it when its time has come,
/// and waits on for the answer.
pub proof fn law_summary_is_asked_for(
    s: NotifyView,
    pending: PendingView,
    now: u128,
    host: Seq<char>,
    cwd: Seq<char>,
)
    requires
        deadline_of(pending.state) <= now,
        pending.state is WaitingIdle,
        configured(s.config, pending).agent_summary,
        s.summary_timeout > 0,
        now + s.summary_timeout <= u128::MAX,
    ensures
        ({
            let (left, id, out, failure) = s.run_due(seq![pending], now, host, cwd);
            let query = "idle-"@ + decimal_of(s.next_query as nat);
            &&& failure is None
            &&& out.len() == 1
            &&& out[0] matches OutputView::StartAgentRequest { query_id, .. } && query_id == query
            &&& left.len() == 1
            &&& left[0].state matches IdleStateView::WaitingSummary { query_id, deadline }
                && query_id == query && deadline == now + s.summary_timeout
            &&& left[0].agent_id == pending.agent_id
            &&& left[0].user_prompt == pending.user_prompt
            &&& left[0].agent_response == pending.agent_response
        }),
{
    let list = seq![pending];
    let none = Seq::<PendingView>::empty();
    assert(list.remove(0) =~= none);
    assert(crate::notifications::state::due_at(list, now) == 0);
    let query = "idle-"@ + decimal_of(s.next_query as nat);
    let asked = PendingView {
        state: IdleStateView::WaitingSummary {
            query_id: query,
            deadline: crate::shell::command::later(now, s.summary_timeout as int),
        },
        ..pending
    };
    let next = NotifyView {
        next_query: crate::notifications::state::next_id(s.next_query),
        ..s
    };
    let waiting = none.push(asked);
    assert(waiting[0] == asked);
    assert(waiting.drop_first() =~= none);
    assert(crate::notifications::state::due_at(none, now) == 0);
    assert(crate::notifications::state::due_at(waiting, now) == 1) by {
        reveal_with_fuel(crate::notifications::state::due_at, 2);
    }
    assert(next.run_due(waiting, now, host, cwd).0 == waiting);
}

/// A summary that comes is handed to the action that asked for it, without the white
/// space at its ends; where the request failed, the action is run without one.
pub proof fn law_summary_reaches_its_action(
    s: NotifyView,
    query: Seq<char>,
    text: Seq<char>,
    failed: bool,
    host: Seq<char>,
    cwd: Seq<char>,
) -> (ctx: ContextView)
    requires
        s.idle.len() == 1,
        s.idle[0].state matches IdleStateView::WaitingSummary { query_id, .. } && query_id == query,
    ensures
        ({
            let r = s.summarized(query, text, failed, host, cwd);
            &&& r.out == hook_outputs(configured(s.config, s.idle[0]).hook, ctx).0
            &&& r.failure == hook_outputs(configured(s.config, s.idle[0]).hook, ctx).1
            &&& r.state.idle.len() == 0
        }),
        ctx.agent_summary == if failed {
            seq![]
        } else {
            trim_of(text)
        },
        ctx.agent_id == s.idle[0].agent_id,
        ctx.user_prompt == s.idle[0].user_prompt,
        ctx.agent_response == s.idle[0].agent_response,
{
    let pending = s.idle[0];
    assert(crate::notifications::state::asked_at(s.idle, query) == 0);
    crate::notifications::hooks::context_at(
        crate::notifications::state::kind_name(pending.kind),
        pending.agent_id,
        shown_name(s.names, pending.agent_id),
        pending.user_prompt,
        pending.agent_response,
        if failed {
            seq![]
        } else {
            trim_of(text)
        },
        host,
        cwd,
    )
}

/// A user who types puts every idle action off, each by its own time from now on; one
/// that waits for a summary is left alone. Nothing is lost.
pub proof fn law_typing_puts_actions_off(
    s: NotifyView,
    event: Incoming,
    now: u128,
    host: Seq<char>,
    cwd: Seq<char>,
    k: int,
)
    requires
        event is UiPromptDraft,
        0 <= k < s.idle.len(),
    ensures
        ({
            let r = s.delivered(event, false, now, host, cwd);
            &&& r.out.len() == 0
            &&& r.state.idle.len() == s.idle.len()
            &&& r.state.idle_all.len() == s.idle_all.len()
            &&& s.idle[k].state is WaitingIdle ==> deadline_of(r.state.idle[k].state)
                == crate::shell::command::later(
                now,
                delay_of(configured(s.config, s.idle[k]), s.default_delay) as int,
            )
            &&& s.idle[k].state is WaitingSummary ==> r.state.idle[k] == s.idle[k]
            &&& r.state.idle[k].agent_id == s.idle[k].agent_id
            &&& r.state.idle[k].index == s.idle[k].index
        }),
        put_off(s.idle, s.config, s.default_delay, now).len() == s.idle.len(),
{
}

/// When the last agent that works comes to rest, the actions for that start to wait;
/// while another works, they do not.
pub proof fn law_last_agent_at_rest_arms_the_actions(
    s: NotifyView,
    event: Incoming,
    now: u128,
    host: Seq<char>,
    cwd: Seq<char>,
)
    requires
        event matches Incoming::AgentState { agent_id, running } && !running && s.busy.contains(
            agent_id@,
        ),
    ensures
        ({
            let r = s.delivered(event, false, now, host, cwd);
            let agent = event->AgentState_agent_id@;
            &&& r.state.busy == s.busy.remove(agent)
            &&& s.busy.remove(agent) == Set::<Seq<char>>::empty() ==> {
                &&& r.state.idle_all.len() == s.config.agent_idle_all.len()
                &&& forall|k: int|
                    0 <= k < r.state.idle_all.len() ==> (#[trigger] r.state.idle_all[k]).agent_id
                        == agent && deadline_of(r.state.idle_all[k].state)
                        == crate::shell::command::later(
                        now,
                        delay_of(s.config.agent_idle_all[k], s.default_delay) as int,
                    ) && (s.contexts.dom().contains(agent) ==> r.state.idle_all[k].user_prompt
                        == s.contexts[agent].user_prompt && r.state.idle_all[k].agent_response
                        == s.contexts[agent].agent_response)
            }
            &&& s.busy.remove(agent) != Set::<Seq<char>>::empty() ==> r.state.idle_all == s.idle_all
        }),
        armed(s.config.agent_idle_all, IdleHookKind::AgentAll, seq![], seq![], seq![], 0, now).len()
            == s.config.agent_idle_all.len(),
{
}

/// An agent that starts to work disarms the actions for the rest of all.
pub proof fn law_working_agent_disarms_the_actions(
    s: NotifyView,
    event: Incoming,
    now: u128,
    host: Seq<char>,
    cwd: Seq<char>,
)
    requires
        event matches Incoming::AgentState { running, .. } && running,
        s.ignored.dom() == Set::<Seq<char>>::empty(),
    ensures
        s.delivered(event, false, now, host, cwd).state.idle_all.len() == 0,
        s.delivered(event, false, now, host, cwd).state.busy.contains(event->AgentState_agent_id@),
{
    if exists|q: Seq<char>| #[trigger]
        s.ignored.dom().contains(q) && s.ignored[q] == event->AgentState_agent_id@ {
        let q = choose|q: Seq<char>| #[trigger]
            s.ignored.dom().contains(q) && s.ignored[q] == event->AgentState_agent_id@;
        assert(!Set::<Seq<char>>::empty().contains(q));
    }
}

/// An agent is called by the name that it was last given, without white space at its
/// ends, and by its id where it has none.
pub proof fn law_agent_is_called_by_its_name(
    names: Map<Seq<char>, Seq<char>>,
    agent: Seq<char>,
    other: Seq<char>,
    name: Seq<char>,
)
    requires
        other != agent,
        trim_of(name) == name,
    ensures
        name.len() > 0 ==> shown_name(with_name(names, agent, Some(name)), agent) == name,
        shown_name(with_name(names, agent, Some(name)), other) == shown_name(names, other),
        with_name(names, agent, None) == names,
        !names.dom().contains(agent) ==> shown_name(names, agent) == agent,
{
}

proof fn lemma_lines(content: Seq<String>)
    requires
        forall|k: int| 0 <= k < content.len() ==> (#[trigger] content[k])@.len() > 0,
    ensures
        with_lines(seq![], content) == join_of(views(content), "\n"@),
        content.len() > 0 ==> with_lines(seq![], content).len() > 0,
    decreases content.len(),
{
    if content.len() > 0 {
        let front = content.drop_last();
        assert forall|k: int| 0 <= k < front.len() implies (#[trigger] front[k])@.len() > 0 by {
            assert(front[k] == content[k]);
        }
        lemma_lines(front);
        assert(content[content.len() - 1]@.len() > 0);
        assert(views(content).drop_last() =~= views(front));
        assert(views(content).last() == content.last()@);
        if front.len() == 0 {
            assert(front =~= seq![]);
            assert(with_lines(seq![], front) =~= seq![]);
        }
    } else {
        assert(with_lines(seq![], content) =~= join_of(views(content), "\n"@));
    }
}

/// What the assistant wrote in a message are all its texts, each on a line of its
/// own; what others wrote does not count.
pub proof fn law_response_is_what_the_assistant_wrote(item: ResponseItem)
    ensures
        item matches ResponseItem::Message { role, content } ==> (role == ContextRole::Assistant
            && (forall|k: int| 0 <= k < content@.len() ==> (#[trigger] content@[k])@.len() > 0)
            ==> response_text_of(seq![item]) == join_of(views(content@), "\n"@)),
        item matches ResponseItem::Message { role, .. } ==> (role != ContextRole::Assistant
            ==> response_text_of(seq![item]).len() == 0),
        item is Other ==> response_text_of(seq![item]).len() == 0,
{
    let items = seq![item];
    assert(items.drop_last() =~= seq![]);
    assert(response_text_of(items.drop_last()) =~= seq![]);
    if let ResponseItem::Message { role, content } = item {
        if forall|k: int| 0 <= k < content@.len() ==> (#[trigger] content@[k])@.len() > 0 {
            lemma_lines(content@);
        }
    }
}

proof fn lemma_name_start(path: Seq<char>, end: int, start: int)
    requires
        0 <= start <= end <= path.len(),
        start == 0 || path[start - 1] == '/',
        forall|i: int| start <= i < end ==> path[i] != '/',
    ensures
        name_start(path, end) == start,
    decreases end - start,
{
    if start < end {
        lemma_name_start(path, end - 1, start);
    }
}

/// The last name of a path is what stands behind its last slash.
pub proof fn law_last_name_is_behind_the_last_slash(dir: Seq<char>, name: Seq<char>)
    requires
        name.len() > 0,
        !name.contains('/'),
        name != ".."@,
    ensures
        basename_of(dir.push('/') + name) == name,
        basename_of(dir.push('/') + name.push('/')) == name,
        basename_of(name) == name,
{
    let path = dir.push('/') + name;
    let start = dir.len() + 1;
    assert forall|i: int| start <= i < path.len() implies path[i] != '/' by {
        assert(path[i] == name[i - start]);
        assert(name.contains(name[i - start]));
    }
    assert(path[path.len() - 1] != '/');
    assert(path_end(path, path.len() as int) == path.len());
    lemma_name_start(path, path.len() as int, start as int);
    assert(path.subrange(start as int, path.len() as int) =~= name);
    let slashed = dir.push('/') + name.push('/');
    let n = path.len() as int;
    assert(slashed[n] == '/');
    assert forall|i: int| start <= i < n implies slashed[i] != '/' by {
        assert(slashed[i] == path[i]);
    }
    assert(slashed[n - 1] != '/');
    assert(path_end(slashed, n) == n);
    assert(path_end(slashed, n + 1) == n);
    lemma_name_start(slashed, n, start as int);
    assert(slashed.subrange(start as int, n) =~= name);
    assert forall|i: int| 0 <= i < name.len() implies name[i] != '/' by {
        assert(name.contains(name[i]));
    }
    assert(path_end(name, name.len() as int) == name.len());
    lemma_name_start(name, name.len() as int, 0);
    assert(name.subrange(0, name.len() as int) =~= name);
}

/// A machine has the name that the system gives it, up to the first zero.
pub proof fn law_host_has_its_name(name: Seq<char>, rest: Seq<u8>)
    ensures
        host_of(None) == "host"@,
        !vstd::utf8::encode_utf8(name).contains(0) ==> host_of(
            Some(vstd::utf8::encode_utf8(name).push(0) + rest),
        ) == name,
{
    let bytes = vstd::utf8::encode_utf8(name);
    if !bytes.contains(0) {
        let all = bytes.push(0) + rest;
        lemma_zero_at(all, bytes.len() as int);
        assert(all.take(bytes.len() as int) =~= bytes);
        vstd::utf8::encode_utf8_valid_utf8(name);
        vstd::utf8::encode_utf8_decode_utf8(name);
    }
}

proof fn lemma_zero_at(bytes: Seq<u8>, n: int)
    requires
        0 <= n < bytes.len(),
        bytes[n] == 0,
        forall|i: int| 0 <= i < n ==> bytes[i] != 0,
    ensures
        crate::notifications::template::zero_at(bytes) == n,
    decreases n,
{
    if n > 0 {
        let rest = bytes.drop_first();
        assert forall|i: int| 0 <= i < n - 1 implies rest[i] != 0 by {
            assert(rest[i] == bytes[i + 1]);
        }
        lemma_zero_at(rest, n - 1);
    }
}

} // verus!
