//! Laws of what is wrong with configured actions, and of how long is waited.

use vstd::prelude::*;

use crate::notifications::hooks::{
    context_at, hook_error, hook_variable, hooks_error, trial_context, HookConfig,
};
use crate::notifications::run::until;
use crate::notifications::state::{deadline_of, earliest, NotifyView, PendingView};
use crate::notifications::template::{basename_of, filling, ContextView};

verus! {

/// An action is refused where it does nothing or its command is empty, and taken where
/// it only rings the bell.
pub proof fn law_action_has_to_do_something(
    name: Seq<char>,
    hook: HookConfig,
    host: Seq<char>,
    cwd: Seq<char>,
)
    requires
        hook.osc1337 is None,
    ensures
        !hook.bell && hook.command is None ==> (hook_error(name, hook, host, cwd) matches Some(fault)
            && fault.about == name + " hook item must set bell, command, or osc1337"@),
        hook.command matches Some(command) ==> (command@.len() == 0 ==> (hook_error(
            name,
            hook,
            host,
            cwd,
        ) matches Some(fault) && fault.about == name + " command must not be empty"@)),
        hook.bell && hook.command is None ==> hook_error(name, hook, host, cwd) is None,
{
}

/// A command is taken where all its parts can be filled in, and refused where one
/// cannot.
pub proof fn law_command_has_to_be_filled_in(
    name: Seq<char>,
    hook: HookConfig,
    command: Vec<String>,
    host: Seq<char>,
    cwd: Seq<char>,
)
    requires
        hook.osc1337 is None,
        hook.command == Some(command),
        command@.len() > 0,
    ensures
        hook_error(name, hook, host, cwd) is None <==> forall|i: int|
            0 <= i < command@.len() ==> filling(
                (#[trigger] command@[i])@,
                trial_context(name, host, cwd),
            ) is Ok,
        hook_error(name, hook, host, cwd) matches Some(fault) ==> fault.about == name
            + " command template failed: "@ && fault.words is Some,
{
    lemma_command(command@, trial_context(name, host, cwd));
}

/// A command fails where one of its parts does.
proof fn lemma_command(command: Seq<String>, ctx: ContextView)
    ensures
        crate::notifications::hooks::command_failure(command, ctx) is None <==> forall|i: int|
            0 <= i < command.len() ==> filling((#[trigger] command[i])@, ctx) is Ok,
    decreases command.len(),
{
    if command.len() > 0 {
        let rest = command.drop_first();
        lemma_command(rest, ctx);
        assert(command[0] == command.first());
        if crate::notifications::hooks::command_failure(command, ctx) is None {
            assert forall|i: int| 0 <= i < command.len() implies filling(
                (#[trigger] command[i])@,
                ctx,
            ) is Ok by {
                if i > 0 {
                    assert(rest[i - 1] == command[i]);
                }
            }
        } else if filling(command[0]@, ctx) is Ok {
            let i = choose|i: int|
                0 <= i < rest.len() && !(filling((#[trigger] rest[i])@, ctx) is Ok);
            assert(command[i + 1] == rest[i]);
        }
    }
}

/// A list of actions is taken where each of them is; else the first that is not is
/// named.
pub proof fn law_every_action_is_looked_at(
    name: Seq<char>,
    hooks: Seq<HookConfig>,
    host: Seq<char>,
    cwd: Seq<char>,
)
    ensures
        hooks_error(name, hooks, host, cwd) is None <==> forall|i: int|
            0 <= i < hooks.len() ==> hook_error(name, #[trigger] hooks[i], host, cwd) is None,
        hooks.len() > 0 && hook_error(name, hooks[0], host, cwd) is Some ==> hooks_error(
            name,
            hooks,
            host,
            cwd,
        ) == hook_error(name, hooks[0], host, cwd),
    decreases hooks.len(),
{
    if hooks.len() > 0 {
        let rest = hooks.drop_first();
        law_every_action_is_looked_at(name, rest, host, cwd);
        if hooks_error(name, hooks, host, cwd) is None {
            assert forall|i: int| 0 <= i < hooks.len() implies hook_error(
                name,
                #[trigger] hooks[i],
                host,
                cwd,
            ) is None by {
                if i > 0 {
                    assert(rest[i - 1] == hooks[i]);
                }
            }
        } else if hook_error(name, hooks[0], host, cwd) is None {
            let i = choose|i: int|
                0 <= i < rest.len() && hook_error(name, #[trigger] rest[i], host, cwd) is Some;
            assert(hooks[i + 1] == rest[i]);
        }
    }
}

/// A variable is set to what its templates come to, under the name that they give it.
pub proof fn law_variable_is_filled_in(
    hook: HookConfig,
    ctx: ContextView,
    key: Seq<char>,
    value: Seq<char>,
)
    ensures
        hook.osc1337 matches Some(osc) ==> (filling(osc.key@, ctx) == Ok::<
            Seq<char>,
            Set<Seq<char>>,
        >(key) && filling(osc.value@, ctx) == Ok::<Seq<char>, Set<Seq<char>>>(value)
            ==> hook_variable(hook, ctx) == Some(
            Ok::<(Seq<char>, Seq<char>), Set<Seq<char>>>((key, value)),
        )),
        hook.osc1337 is None ==> hook_variable(hook, ctx) is None,
{
}

/// The extension waits for the action whose time comes first, and for no longer.
pub proof fn law_first_deadline_is_waited_for(list: Seq<PendingView>, i: int)
    requires
        0 <= i < list.len(),
    ensures
        earliest(list) matches Some(first) && first <= deadline_of(list[i].state),
        exists|k: int|
            0 <= k < list.len() && earliest(list) == Some(
                deadline_of((#[trigger] list[k]).state),
            ),
    decreases list.len(),
{
    let n = list.len() - 1;
    let front = list.drop_last();
    if front.len() > 0 {
        let j = if i < n {
            i
        } else {
            0
        };
        law_first_deadline_is_waited_for(front, j);
        assert(front[j] == list[j]);
        let k = choose|k: int|
            0 <= k < front.len() && earliest(front) == Some(
                deadline_of((#[trigger] front[k]).state),
            );
        assert(list[k] == front[k]);
    } else {
        assert(earliest(front) is None);
    }
    assert(earliest(list) == Some(deadline_of(list[n].state)) || earliest(list) == earliest(front));
}

/// It waits for actions of one agent and for those of all alike.
pub proof fn law_both_lists_are_waited_for(state: NotifyView)
    ensures
        earliest(state.idle) matches Some(a) ==> (state.next_deadline() matches Some(first) && first
            <= a),
        earliest(state.idle_all) matches Some(b) ==> (state.next_deadline() matches Some(first)
            && first <= b),
        state.next_deadline() is Some ==> state.next_deadline() == earliest(state.idle)
            || state.next_deadline() == earliest(state.idle_all),
{
}

/// A wait ends at its deadline.
pub proof fn law_wait_ends_at_its_deadline(deadline: u128, now: u128)
    ensures
        now <= deadline ==> now + until(deadline, now) == deadline,
        now > deadline ==> until(deadline, now) == 0,
{
}

/// A template is given each thing under its own name.
pub proof fn law_template_is_given_everything(
    hook: Seq<char>,
    id: Seq<char>,
    name: Seq<char>,
    prompt: Seq<char>,
    response: Seq<char>,
    summary: Seq<char>,
    host: Seq<char>,
    cwd: Seq<char>,
)
    ensures
        ({
            let ctx = context_at(hook, id, name, prompt, response, summary, host, cwd);
            &&& ctx.hook == hook
            &&& ctx.agent_id == id
            &&& ctx.agent_name == name
            &&& ctx.user_prompt == prompt
            &&& ctx.agent_response == response
            &&& ctx.agent_summary == summary
            &&& ctx.host == host
            &&& ctx.cwd == cwd
            &&& ctx.cwd_basename == basename_of(cwd)
        }),
{
}

} // verus!
