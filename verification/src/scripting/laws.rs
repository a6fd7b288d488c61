//! Laws of the scripting extension.

use vstd::prelude::*;

use crate::json::Json;
use crate::scripting::host::{claim_of, claimed, job_at, without_job, CallView, HostView, JobView};
use crate::scripting::message::{
    init_messages, intercepted, normalized, InitView, InterceptView, OutputView,
};
use crate::scripting::run::{
    completed, event_plan, intercept_reply, job_given, loop_after, tool_value, HostStep, LoopState,
    RuntimeInput, StartedView,
};
use crate::scripting::value::Script;

verus! {

/// Whether an output answers a call.
pub open spec fn answers(output: OutputView, call: CallView) -> bool {
    match output {
        OutputView::ToolResult { call: answered, .. } => answered == call,
        OutputView::ToolError { call: answered, .. } => answered == call,
        _ => false,
    }
}

/// Whether a step answers a call, or leaves it to a job.
pub open spec fn is_settled(step: HostStep, call: CallView) -> bool {
    ||| step.out.len() == 1 && answers(step.out[0], call)
    ||| step.out.len() == 0 && exists|id: i64|
        (#[trigger] job_at(step.host.jobs, id)) matches Some(job) && job.tool_claimed
            && job.tool_call == Some(call)
}

/// A job that was given to a call is that call's.
proof fn lemma_claimed_job(jobs: Seq<(i64, JobView)>, id: i64, call: CallView)
    requires
        job_at(jobs, id) is Some,
    ensures
        job_at(claimed(jobs, id, call), id) == Some(
            JobView {
                tool_call: Some(call),
                tool_claimed: true,
                ..job_at(jobs, id)->Some_0
            },
        ),
    decreases jobs.len(),
{
    if jobs.len() > 0 {
        let next = claimed(jobs, id, call);
        if jobs[0].0 != id {
            lemma_claimed_job(jobs.drop_first(), id, call);
            assert(next.drop_first() =~= claimed(jobs.drop_first(), id, call));
        }
    }
}

/// A job that is given settles a call.
proof fn lemma_job_given(host: HostView, id: i64, call: CallView, chained: bool)
    ensures
        is_settled(job_given(host, id, call, chained), call),
{
    if claim_of(host.jobs, id) is Claimed {
        lemma_claimed_job(host.jobs, id, call);
        let step = job_given(host, id, call, chained);
        assert(job_at(step.host.jobs, id) matches Some(job) && job.tool_claimed
            && job.tool_call == Some(call));
    }
}

/// Every call of a tool is answered once: by what its handler returns, or by a
/// job that it waits for.
pub proof fn law_call_is_settled(
    host: HostView,
    started: StartedView,
    outcome: Result<Script, Seq<char>>,
)
    ensures
        is_settled(tool_value(host, started, outcome), started.pending()),
{
    if let Ok(Script::Job(id)) = outcome {
        lemma_job_given(host, id, started.pending(), false);
    }
}

/// A call that waits for a job is answered once the job is done, or waits for the
/// next job.
pub proof fn law_waiting_call_is_settled(
    host: HostView,
    call: CallView,
    had_callback: bool,
    outcome: Result<Script, Seq<char>>,
    result: Json,
)
    ensures
        is_settled(completed(host, Some(call), had_callback, outcome, result), call),
{
    if let Ok(Script::Job(id)) = outcome {
        lemma_job_given(host, id, call, true);
    }
}

/// A job is given to one call at most.
pub proof fn law_job_is_given_once(host: HostView, id: i64, call: CallView, other: CallView)
    requires
        claim_of(host.jobs, id) is Claimed,
    ensures
        ({
            let after = job_given(host, id, call, false).host;
            &&& claim_of(after.jobs, id) is AlreadyClaimed
            &&& job_given(after, id, other, false).host == after
            &&& job_given(after, id, other, true).host == after
        }),
{
    lemma_claimed_job(host.jobs, id, call);
}

/// A job that is done is gone: it is not answered for twice.
pub proof fn law_done_job_is_gone(host: HostView, id: i64)
    requires
        host.is_sound(),
    ensures
        job_at(without_job(host.jobs, id), id) is None,
{
    lemma_gone(host.jobs, id);
}

/// A job that is taken out of a list without repetitions is not in it.
proof fn lemma_gone(jobs: Seq<(i64, JobView)>, id: i64)
    requires
        forall|i: int, j: int|
            0 <= i < j < jobs.len() ==> #[trigger] jobs[i].0 < #[trigger] jobs[j].0,
    ensures
        job_at(without_job(jobs, id), id) is None,
    decreases jobs.len(),
{
    if jobs.len() > 0 {
        let rest = jobs.drop_first();
        assert forall|i: int, j: int| 0 <= i < j < rest.len() implies #[trigger] rest[i].0
            < #[trigger] rest[j].0 by {
            assert(rest[i] == jobs[i + 1] && rest[j] == jobs[j + 1]);
        }
        if jobs[0].0 == id {
            assert forall|i: int| 0 <= i < rest.len() implies (#[trigger] rest[i]).0 != id by {
                assert(rest[i] == jobs[i + 1]);
                assert(jobs[0].0 < jobs[i + 1].0);
            }
            lemma_absent(rest, id);
        } else {
            lemma_gone(rest, id);
            let next = without_job(jobs, id);
            assert(next.drop_first() =~= without_job(rest, id));
        }
    }
}

/// A job that is at no place is not there.
proof fn lemma_absent(jobs: Seq<(i64, JobView)>, id: i64)
    requires
        forall|i: int| 0 <= i < jobs.len() ==> (#[trigger] jobs[i]).0 != id,
    ensures
        job_at(jobs, id) is None,
    decreases jobs.len(),
{
    if jobs.len() > 0 {
        let rest = jobs.drop_first();
        assert forall|i: int| 0 <= i < rest.len() implies (#[trigger] rest[i]).0 != id by {
            assert(rest[i] == jobs[i + 1]);
        }
        lemma_absent(rest, id);
    }
}

/// An event that is held back is always let go: there is one reply, and it comes
/// last, whatever the script does.
pub proof fn law_intercept_is_replied_once(
    outcome: Result<Script, Seq<char>>,
    refused: Option<Seq<char>>,
    enabled: bool,
    functions: Seq<(Seq<char>, usize)>,
    event: Json,
)
    ensures
        ({
            let out = intercepted(outcome, refused);
            &&& 1 <= out.len() <= 2
            &&& out.last() is Reply
            &&& out.len() == 2 ==> out[0] is Notice
        }),
        intercept_reply(enabled, functions, event) matches Err(out) ==> {
            &&& 1 <= out.len() <= 2
            &&& out.last() is Reply
            &&& out.len() == 2 ==> out[0] is Notice
        },
        !enabled ==> intercept_reply(enabled, functions, event) is Err,
{
}

/// History calls no tool again.
pub proof fn law_history_calls_no_tool(
    host: HostView,
    functions: Seq<(Seq<char>, usize)>,
    tool: Option<Seq<char>>,
    event: Json,
    recorded_at: Option<u64>,
)
    ensures
        !(event_plan(host, functions, tool, event, true, recorded_at) is Tool),
{
}

/// What an `init` asks for, once put into one entry, stays as it is.
pub proof fn law_normalized_init_is_stable(init: InitView)
    requires
        normalized(init) is Ok,
    ensures
        normalized(init)->Ok_0.intercept.len() <= 1,
        normalized(normalized(init)->Ok_0) == normalized(init),
{
    let once = normalized(init)->Ok_0;
    if init.intercept.len() > 0 {
        let list = once.intercept;
        assert(list.len() == 1);
        assert forall|i: int| 0 <= i < list.len() implies (#[trigger] list[i]).priority
            == list[0].priority by {}
        assert(list.drop_last() =~= seq![]);
        let none: Seq<InterceptView> = seq![];
        assert(crate::scripting::message::all_selectors(none) =~= seq![]);
        assert(crate::scripting::message::all_selectors(list) =~= list[0].selectors);
        assert(seq![
            InterceptView {
                selectors: crate::scripting::message::all_selectors(list),
                priority: list[0].priority,
            },
        ] =~= list);
    }
}

/// The script says that it is ready last.
pub proof fn law_ready_comes_last(
    init: InitView,
    registers: Seq<crate::scripting::host::RegisterView>,
)
    ensures
        init_messages(init, registers).last() is Ready,
{
}

/// The extension stays for the jobs that are under way, and only for them, once
/// the harness sends nothing more.
pub proof fn law_jobs_are_waited_for(state: LoopState, has_jobs: bool)
    requires
        !state.done,
        state.enabled,
    ensures
        loop_after(state, RuntimeInput::ReaderClosed, has_jobs).done == !has_jobs,
        state.reader_closed ==> loop_after(state, RuntimeInput::ShellComplete, has_jobs).done
            == !has_jobs,
        !state.reader_closed ==> !loop_after(state, RuntimeInput::ShellComplete, has_jobs).done,
{
}

} // verus!
