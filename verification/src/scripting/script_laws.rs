//! Laws of what a script is told, and of what is made of its answers.

use vstd::prelude::*;

use crate::convert::{
    cbor_of_json, is_plain, json_of_cbor, keys_differ, law_json_survives_cbor,
};
use crate::json::{lemma_first_member, member, text_at, Json};
use crate::scripting::host::{
    find_entry, handler_of, has_fn, job_at, new_job, registers_of, registration_error, spawn_of, staged_of, without_job,
    HostView, JobView, NameChecks, StagedView,
};
use crate::scripting::message::{
    config_json, disabled_messages, emitted, init_messages, init_outcome, intercepted, job_json, level_of, meta_of, normalized,
    ActionView, InitView, NoticeLevel, OutputView,
};
use crate::scripting::run::{
    call_json, event_plan, handler_args, shell_completed, tool_value, EventPlanView, StartedView,
};
use crate::scripting::value::{json_of_script, law_json_survives_a_script, script_of_json, Script};
use crate::text::decimal_of;
use crate::value::Cbor;

verus! {

/// The members of what a script is told of a call.
proof fn lemma_call_json(started: StartedView)
    ensures
        text_at(call_json(started), "call_id"@) == Some(started.call_id),
        text_at(call_json(started), "tool_name"@) == Some(started.tool_name),
        text_at(call_json(started), "agent_id"@) == Some(started.agent_id),
        member(call_json(started), "originator"@) == Some(started.originator_json),
        is_plain(started.originator_json) ==> is_plain(call_json(started)),
{
    reveal_strlit("call_id");
    reveal_strlit("tool_name");
    reveal_strlit("agent_id");
    reveal_strlit("originator");
    reveal_strlit("tool_type");
    assert("call_id"@.len() == 7 && "tool_name"@.len() == 9 && "agent_id"@.len() == 8);
    assert("originator"@.len() == 10 && "tool_type"@.len() == 9);
    assert("tool_name"@[5] == 'n' && "tool_type"@[5] == 't');
    let members = call_json(started)->Object_0;
    assert(members[0].0 == "call_id"@ && members[1].0 == "tool_name"@ && members[2].0
        == "agent_id"@ && members[3].0 == "originator"@ && members[4].0 == "tool_type"@);
    lemma_first_member(members, "call_id"@, 0);
    lemma_first_member(members, "tool_name"@, 1);
    lemma_first_member(members, "agent_id"@, 2);
    lemma_first_member(members, "originator"@, 3);
    assert(keys_differ(members));
    if is_plain(started.originator_json) {
        assert forall|i: int| 0 <= i < members.len() implies is_plain((#[trigger] members[i]).1) by {
            assert(members[i].1 is Text || i == 3);
        }
        assert(is_plain(Json::Object(members)));
    }
}

/// The handler of a tool is called with the arguments of the call, and told which
/// call it is.
pub proof fn law_handler_gets_the_arguments(started: StartedView, arguments: Json)
    requires
        is_plain(arguments),
        is_plain(started.originator_json),
        started.arguments == cbor_of_json(arguments),
    ensures
        handler_args(started) matches Ok((args, call)) && {
            &&& json_of_script(args) == Ok::<Json, Seq<char>>(arguments)
            &&& json_of_script(call) matches Ok(told) && {
                &&& text_at(told, "call_id"@) == Some(started.call_id)
                &&& text_at(told, "tool_name"@) == Some(started.tool_name)
                &&& text_at(told, "agent_id"@) == Some(started.agent_id)
                &&& member(told, "originator"@) == Some(started.originator_json)
            }
        },
{
    law_json_survives_cbor(arguments);
    law_json_survives_a_script(arguments);
    lemma_call_json(started);
    law_json_survives_a_script(call_json(started));
}

/// What a handler returns is the result of its call, and changes nothing else.
pub proof fn law_result_of_a_handler_is_told(host: HostView, started: StartedView, result: Json)
    requires
        is_plain(result),
    ensures
        script_of_json(result) matches Ok(value) && {
            let step = tool_value(host, started, Ok(value));
            &&& step.host == host
            &&& step.out.len() == 1
            &&& step.out[0] matches OutputView::ToolResult { call, result: told } && {
                &&& call.call_id == started.call_id
                &&& call.tool_name == started.tool_name
                &&& call.originator == started.originator
                &&& json_of_cbor(told) == Ok::<Json, Seq<char>>(result)
            }
        },
{
    law_json_survives_a_script(result);
    law_json_survives_cbor(result);
}

/// A handler that fails is told as the error of its call.
pub proof fn law_failure_of_a_handler_is_told(
    host: HostView,
    started: StartedView,
    message: Seq<char>,
)
    ensures
        ({
            let step = tool_value(host, started, Err(message));
            &&& step.host == host
            &&& step.out.len() == 1
            &&& step.out[0] matches OutputView::ToolError { call, message: told } && {
                &&& call.call_id == started.call_id
                &&& call.tool_name == started.tool_name
                &&& call.originator == started.originator
                &&& told == "rhai tool handler failed: "@ + message
            }
        }),
{
    reveal_strlit("rhai tool handler failed");
    reveal_strlit("rhai tool handler failed: ");
    reveal_strlit(": ");
    assert("rhai tool handler failed"@ + ": "@ + message =~= "rhai tool handler failed: "@
        + message);
}

/// The other jobs stay when one is taken out.
proof fn lemma_others_stay(jobs: Seq<(i64, JobView)>, id: i64, other: i64)
    requires
        other != id,
    ensures
        job_at(without_job(jobs, id), other) == job_at(jobs, other),
    decreases jobs.len(),
{
    if jobs.len() > 0 && jobs[0].0 != id {
        lemma_others_stay(jobs.drop_first(), id, other);
        let left = without_job(jobs, id);
        assert(left[0] == jobs[0]);
        assert(left.drop_first() =~= without_job(jobs.drop_first(), id));
    }
}

/// What a script is told of a job that is done.
pub proof fn law_job_is_told(id: i64, job: JobView)
    ensures
        member(job_json(id, job), "id"@) == Some(Json::Integer(id as int)),
        text_at(job_json(id, job), "command"@) == Some(job.command),
        job.tag is None ==> member(job_json(id, job), "tag"@) is None,
        job.tag matches Some(tag) ==> (json_of_script(tag) matches Ok(told) ==> member(
            job_json(id, job),
            "tag"@,
        ) == Some(told)),
        job.tag is None ==> is_plain(job_json(id, job)),
{
    reveal_strlit("id");
    reveal_strlit("command");
    reveal_strlit("tag");
    assert("id"@.len() == 2 && "command"@.len() == 7 && "tag"@.len() == 3);
    let members = job_json(id, job)->Object_0;
    assert(members[0] == ("id"@, Json::Integer(id as int)));
    assert(members[1] == ("command"@, Json::Text(job.command)));
    lemma_first_member(members, "id"@, 0);
    lemma_first_member(members, "command"@, 1);
    lemma_first_member(members, "tag"@, 2);
    assert(keys_differ(members));
    if job.tag is None {
        assert(is_plain(members[0].1) && is_plain(members[1].1) && members.len() == 2);
        assert(is_plain(Json::Object(members)));
    }
}

/// The call that waits for a job is answered with what the job came to, or with what
/// the job's function makes of it. The other jobs wait on.
pub proof fn law_result_of_a_job_is_told(
    host: HostView,
    id: i64,
    result: Json,
    answer: Json,
    failure: Seq<char>,
    other: i64,
)
    requires
        is_plain(result),
        is_plain(answer),
        job_at(host.jobs, id) matches Some(job) && job.tool_call is Some && job.tag is None,
        other != id,
    ensures
        ({
            let job = job_at(host.jobs, id)->Some_0;
            let waiting = job.tool_call->Some_0;
            let done = shell_completed(host, id, result, Ok(script_of_json(answer)->Ok_0));
            let failed = shell_completed(host, id, result, Err(failure));
            &&& done.out.len() == 1
            &&& done.out[0] matches OutputView::ToolResult { call, result: told } && {
                &&& call == waiting
                &&& json_of_cbor(told) == Ok::<Json, Seq<char>>(
                    if job.on_complete is Some {
                        answer
                    } else {
                        result
                    },
                )
            }
            &&& job.on_complete is Some ==> failed.out == seq![
                OutputView::ToolError {
                    call: waiting,
                    message: "rhai shell callback failed: "@ + failure,
                },
            ]
            &&& job_at(done.host.jobs, other) == job_at(host.jobs, other)
            &&& done.host.tools == host.tools
            &&& done.host.next_job_id == host.next_job_id
        }),
{
    let job = job_at(host.jobs, id)->Some_0;
    law_json_survives_a_script(result);
    law_json_survives_cbor(result);
    law_json_survives_a_script(answer);
    law_json_survives_cbor(answer);
    law_job_is_told(id, job);
    law_json_survives_a_script(job_json(id, job));
    lemma_others_stay(host.jobs, id, other);
    reveal_strlit("rhai shell callback failed");
    reveal_strlit("rhai shell callback failed: ");
    reveal_strlit(": ");
    assert("rhai shell callback failed"@ + ": "@ + failure =~= "rhai shell callback failed: "@
        + failure);
}

/// A job that is not known comes to nothing.
pub proof fn law_unknown_job_comes_to_nothing(
    host: HostView,
    id: i64,
    result: Json,
    outcome: Result<Script, Seq<char>>,
    other: i64,
)
    requires
        job_at(host.jobs, id) is None,
    ensures
        shell_completed(host, id, result, outcome).out.len() == 0,
        job_at(shell_completed(host, id, result, outcome).host.jobs, other) == job_at(
            host.jobs,
            other,
        ),
{
    if other != id {
        lemma_others_stay(host.jobs, id, other);
    } else {
        lemma_unknown_stays(host.jobs, id);
    }
}

/// To take out a job that is not there leaves it not there.
proof fn lemma_unknown_stays(jobs: Seq<(i64, JobView)>, id: i64)
    requires
        job_at(jobs, id) is None,
    ensures
        without_job(jobs, id) == jobs,
    decreases jobs.len(),
{
    if jobs.len() > 0 {
        lemma_unknown_stays(jobs.drop_first(), id);
        assert(without_job(jobs, id) =~= jobs);
    }
}

/// The job at the end of a list in which its number is new.
proof fn lemma_last_job(jobs: Seq<(i64, JobView)>, id: i64, job: JobView, asked: i64)
    requires
        forall|i: int| 0 <= i < jobs.len() ==> (#[trigger] jobs[i]).0 != id,
    ensures
        job_at(jobs.push((id, job)), asked) == if asked == id {
            Some(job)
        } else {
            job_at(jobs, asked)
        },
    decreases jobs.len(),
{
    let all = jobs.push((id, job));
    if jobs.len() > 0 {
        let rest = jobs.drop_first();
        assert forall|i: int| 0 <= i < rest.len() implies (#[trigger] rest[i]).0 != id by {
            assert(rest[i] == jobs[i + 1]);
        }
        lemma_last_job(rest, id, job, asked);
        assert(all[0] == jobs[0]);
        assert(all.drop_first() =~= rest.push((id, job)));
    } else {
        assert(all.drop_first() =~= jobs);
    }
}

/// A job that is started is held under the next number, with its command, its
/// function and its tag. It answers no call yet, and the other jobs stay.
pub proof fn law_started_job_is_held(
    host: HostView,
    command: Seq<char>,
    opts: Seq<(Seq<char>, Script)>,
    other: i64,
)
    requires
        host.is_sound(),
        host.next_job_id < i64::MAX,
        spawn_of(opts) is Ok,
    ensures
        ({
            let id = (host.next_job_id + 1) as i64;
            let jobs = host.jobs.push((id, new_job(command, spawn_of(opts)->Ok_0)));
            &&& job_at(host.jobs, id) is None
            &&& job_at(jobs, id) matches Some(job) && {
                &&& job.command == command
                &&& job.on_complete matches Some(name) ==> find_entry(opts, "on_complete"@) == Some(
                    Script::Function(name),
                )
                &&& job.on_complete is None ==> find_entry(opts, "on_complete"@) is None
                &&& job.tag == find_entry(opts, "tag"@)
                &&& job.tool_call is None
                &&& !job.tool_claimed
            }
            &&& other != id ==> job_at(jobs, other) == job_at(host.jobs, other)
        }),
{
    let id = (host.next_job_id + 1) as i64;
    let job = new_job(command, spawn_of(opts)->Ok_0);
    assert forall|i: int| 0 <= i < host.jobs.len() implies (#[trigger] host.jobs[i]).0 != id by {}
    lemma_last_job(host.jobs, id, job, id);
    lemma_last_job(host.jobs, id, job, other);
    lemma_unknown(host.jobs, id);
}

/// A number that no job has is that of no job.
proof fn lemma_unknown(jobs: Seq<(i64, JobView)>, id: i64)
    requires
        forall|i: int| 0 <= i < jobs.len() ==> (#[trigger] jobs[i]).0 != id,
    ensures
        job_at(jobs, id) is None,
    decreases jobs.len(),
{
    if jobs.len() > 0 {
        let rest = jobs.drop_first();
        assert forall|i: int| 0 <= i < rest.len() implies (#[trigger] rest[i]).0 != id by {
            assert(rest[i] == jobs[i + 1]);
        }
        lemma_unknown(rest, id);
    }
}

/// A job runs where and for as long as its options say: two minutes, where they say
/// nothing, and never for less than no time.
pub proof fn law_job_runs_as_asked(opts: Seq<(Seq<char>, Script)>)
    ensures
        spawn_of(opts) matches Ok(spawn) ==> {
            &&& spawn.timeout_secs >= 0
            &&& match find_entry(opts, "timeout"@) {
                Some(value) => value == Script::Int(spawn.timeout_secs),
                None => spawn.timeout_secs == 120,
            }
            &&& match find_entry(opts, "cwd"@) {
                Some(value) => spawn.cwd matches Some(dir) && value == Script::Text(dir),
                None => spawn.cwd is None,
            }
        },
        spawn_of(opts) is Err <==> {
            ||| find_entry(opts, "timeout"@) matches Some(value) && !(value matches Script::Int(i)
                && i >= 0)
            ||| find_entry(opts, "cwd"@) matches Some(value) && !(value is Text)
            ||| find_entry(opts, "on_complete"@) matches Some(value) && !(value is Function)
        },
{
}

/// A tool is registered as the script says, under its name and for its handler; it is
/// enabled unless the script says otherwise.
pub proof fn law_tool_is_registered_as_said(
    name: Seq<char>,
    spec: Seq<(Seq<char>, Script)>,
    handler: Seq<char>,
    checks: NameChecks,
)
    ensures
        staged_of(name, spec, handler, checks) matches Ok(tool) ==> {
            &&& tool.handler == handler
            &&& tool.spec.name == name
            &&& match find_entry(spec, "description"@) {
                Some(value) => tool.spec.description matches Some(text) && value == Script::Text(
                    text,
                ),
                None => tool.spec.description is None,
            }
            &&& match find_entry(spec, "model_visible_name"@) {
                Some(value) => tool.spec.model_visible_name matches Some(text) && value
                    == Script::Text(text),
                None => tool.spec.model_visible_name is None,
            }
            &&& match find_entry(spec, "enabled_by_default"@) {
                Some(value) => value == Script::Bool(tool.spec.enabled_by_default),
                None => tool.spec.enabled_by_default,
            }
            &&& match find_entry(spec, "group"@) {
                Some(value) => tool.group matches Some(text) && value == Script::Text(text),
                None => tool.group is None,
            }
            &&& match find_entry(spec, "parameters"@) {
                Some(value) => tool.spec.parameters matches Some(json) && json_of_script(value)
                    == Ok::<Json, Seq<char>>(json),
                None => tool.spec.parameters is None,
            }
        },
        staged_of(name, seq![], handler, checks) is Ok <==> checks.tool,
{
}

/// A call is handled by the tool that was registered last under its name, and by
/// that alone.
pub proof fn law_last_registration_handles_calls(
    tools: Seq<StagedView>,
    tool: StagedView,
    name: Seq<char>,
)
    ensures
        handler_of(tools.push(tool), tool.spec.name) == Some(tool.handler),
        name != tool.spec.name ==> handler_of(tools.push(tool), name) == handler_of(tools, name),
{
    assert(tools.push(tool).drop_last() =~= tools);
}

/// A call of a tool of the script's own goes to its handler. Any other event is told
/// to the script word for word, with whether it is history and when it was recorded.
pub proof fn law_event_is_told_to_the_script(
    host: HostView,
    functions: Seq<(Seq<char>, usize)>,
    tool: Option<Seq<char>>,
    event: Json,
    replay: bool,
    recorded_at: Option<u64>,
)
    requires
        is_plain(event),
    ensures
        ({
            let plan = event_plan(host, functions, tool, event, replay, recorded_at);
            let own = tool matches Some(name) && handler_of(host.tools, name) is Some;
            &&& own && !replay ==> plan == EventPlanView::Tool(
                handler_of(host.tools, tool->Some_0)->Some_0,
            )
            &&& !own && has_fn(functions, "on_event"@, 2) ==> {
                plan matches EventPlanView::OnEvent(told, meta) && {
                    &&& json_of_script(told) == Ok::<Json, Seq<char>>(event)
                    &&& json_of_script(meta) matches Ok(meta) && {
                        &&& member(meta, "replay"@) == Some(Json::Bool(replay))
                        &&& recorded_at is None ==> member(meta, "recorded_at"@) is None
                        &&& recorded_at matches Some(at) ==> (at <= i64::MAX ==> member(
                            meta,
                            "recorded_at"@,
                        ) == Some(Json::Integer(at as int)))
                    }
                }
            }
            &&& !own && !has_fn(functions, "on_event"@, 2) ==> plan is Ignore
        }),
{
    reveal_strlit("replay");
    reveal_strlit("recorded_at");
    assert("replay"@.len() == 6 && "recorded_at"@.len() == 11);
    let meta = meta_of(replay, recorded_at);
    let members = meta->Object_0;
    assert(members[0] == ("replay"@, Json::Bool(replay)));
    lemma_first_member(members, "replay"@, 0);
    lemma_first_member(members, "recorded_at"@, 1);
    assert(keys_differ(members));
    assert(forall|i: int| 0 <= i < members.len() ==> is_plain((#[trigger] members[i]).1));
    law_json_survives_a_script(event);
    law_json_survives_a_script(meta);
}

/// An event that a script emits is emitted word for word, unless the harness knows no
/// such event.
pub proof fn law_event_is_emitted(event: Json, refused: Seq<char>)
    requires
        is_plain(event),
    ensures
        script_of_json(event) matches Ok(value) && emitted(value, None) == OutputView::Emit(event)
            && emitted(value, Some(refused)) is Notice,
{
    law_json_survives_a_script(event);
}

/// A script lets an event that was held back go on as it was, lets another go on in
/// its place, or drops it. Where it fails, the event goes on as it was.
pub proof fn law_held_event_goes_as_the_script_says(
    event: Json,
    failure: Seq<char>,
    refused: Option<Seq<char>>,
)
    requires
        is_plain(event),
    ensures
        ({
            let pass = OutputView::Reply(ActionView::Pass(None));
            let replaced = Json::Object(seq![("kind"@, Json::Text("pass"@)), ("event"@, event)]);
            let kept = Json::Object(seq![("kind"@, Json::Text("pass"@))]);
            let dropped = Json::Object(seq![("kind"@, Json::Text("drop"@))]);
            &&& intercepted(Ok(Script::Unit), refused) == seq![pass]
            &&& intercepted(Ok(Script::Text("pass"@)), refused) == seq![pass]
            &&& intercepted(Ok(Script::Text("drop"@)), refused) == seq![
                OutputView::Reply(ActionView::Drop),
            ]
            &&& intercepted(Ok(script_of_json(kept)->Ok_0), refused) == seq![pass]
            &&& intercepted(Ok(script_of_json(dropped)->Ok_0), refused) == seq![
                OutputView::Reply(ActionView::Drop),
            ]
            &&& intercepted(Ok(script_of_json(replaced)->Ok_0), None) == seq![
                OutputView::Reply(ActionView::Pass(Some(event))),
            ]
            &&& intercepted(Err(failure), refused).last() == pass
        }),
{
    reveal_strlit("kind");
    reveal_strlit("event");
    reveal_strlit("pass");
    reveal_strlit("drop");
    assert("kind"@.len() == 4 && "event"@.len() == 5);
    assert("pass"@[0] == 'p' && "drop"@[0] == 'd');
    let replaced = seq![("kind"@, Json::Text("pass"@)), ("event"@, event)];
    let kept = seq![("kind"@, Json::Text("pass"@))];
    let dropped = seq![("kind"@, Json::Text("drop"@))];
    assert(keys_differ(replaced) && keys_differ(kept) && keys_differ(dropped));
    assert(is_plain(replaced[0].1) && is_plain(replaced[1].1));
    assert(is_plain(kept[0].1) && is_plain(dropped[0].1));
    lemma_first_member(replaced, "kind"@, 0);
    lemma_first_member(replaced, "event"@, 1);
    lemma_first_member(kept, "kind"@, 0);
    lemma_first_member(kept, "event"@, 1);
    lemma_first_member(dropped, "kind"@, 0);
    law_json_survives_a_script(Json::Object(replaced));
    law_json_survives_a_script(Json::Object(kept));
    law_json_survives_a_script(Json::Object(dropped));
}

/// What `init` asks for reaches the harness: what it listens to, what it holds back
/// and with which priority, and every tool with its group.
pub proof fn law_init_is_told(init: InitView, tools: Seq<StagedView>, i: int, t: int)
    requires
        0 <= i < init.intercept.len(),
        0 <= t < tools.len(),
    ensures
        ({
            let out = init_messages(init, registers_of(tools));
            let first = if init.subscribe.len() > 0 {
                1int
            } else {
                0int
            };
            &&& out.len() == first + init.intercept.len() + tools.len() + 1
            &&& init.subscribe.len() > 0 ==> out[0] == OutputView::Subscribe(init.subscribe)
            &&& out[first + i] == (OutputView::Intercept {
                selectors: init.intercept[i].selectors,
                priority: init.intercept[i].priority,
            })
            &&& out[first + init.intercept.len() + t] matches OutputView::Register(register)
                && register.tool == tools[t].spec && register.tool_group == tools[t].group
            &&& init.ready_message matches Some(message) ==> out.last() == OutputView::Ready(
                message,
            )
        }),
{
}

/// The entries that are put into one hold back what they held back before, with the
/// priority that they all have; the rest of an `init` stays.
pub proof fn law_one_entry_holds_back_the_same(init: InitView, i: int, k: int)
    requires
        0 <= i < init.intercept.len(),
        0 <= k < init.intercept[i].selectors.len(),
    ensures
        normalized(init) matches Ok(one) ==> {
            &&& one.intercept.len() == 1
            &&& one.intercept[0].priority == init.intercept[i].priority
            &&& one.intercept[0].selectors.contains(init.intercept[i].selectors[k])
            &&& one.subscribe == init.subscribe
            &&& one.ready_message == init.ready_message
        },
{
    lemma_selector_is_kept(init.intercept, i, k);
}

/// Every selector is among all selectors.
proof fn lemma_selector_is_kept(
    list: Seq<crate::scripting::message::InterceptView>,
    i: int,
    k: int,
)
    requires
        0 <= i < list.len(),
        0 <= k < list[i].selectors.len(),
    ensures
        crate::scripting::message::all_selectors(list).contains(list[i].selectors[k]),
    decreases list.len(),
{
    let all = crate::scripting::message::all_selectors(list);
    let front = crate::scripting::message::all_selectors(list.drop_last());
    let x = list[i].selectors[k];
    if i == list.len() - 1 {
        assert(all[front.len() + k] == x);
    } else {
        lemma_selector_is_kept(list.drop_last(), i, k);
        let j = choose|j: int| 0 <= j < front.len() && front[j] == x;
        assert(all[j] == x);
    }
}

/// A script is told its variables word for word, and the directory for its state.
pub proof fn law_configuration_is_told(vars: Json, dir: Seq<char>)
    ensures
        member(config_json(vars, Some(dir)), "vars"@) == Some(vars),
        text_at(config_json(vars, Some(dir)), "state_dir"@) == Some(dir),
        member(config_json(vars, None), "vars"@) == Some(vars),
        member(config_json(vars, None), "state_dir"@) == Some(Json::Null),
{
    reveal_strlit("vars");
    reveal_strlit("state_dir");
    assert("vars"@.len() == 4 && "state_dir"@.len() == 9);
    let with = config_json(vars, Some(dir))->Object_0;
    let without = config_json(vars, None)->Object_0;
    assert(with[0].0 == "vars"@ && with[1].0 == "state_dir"@);
    assert(without[0].0 == "vars"@ && without[1].0 == "state_dir"@);
    lemma_first_member(with, "vars"@, 0);
    lemma_first_member(with, "state_dir"@, 1);
    lemma_first_member(without, "vars"@, 0);
    lemma_first_member(without, "state_dir"@, 1);
}

/// A script is ready once every tool has a handler that it can be called with; the
/// first that has none is named.
pub proof fn law_every_tool_has_its_handler(
    tools: Seq<StagedView>,
    functions: Seq<(Seq<char>, usize)>,
)
    ensures
        registration_error(tools, functions) is None <==> forall|i: int|
            0 <= i < tools.len() ==> functions.contains(((#[trigger] tools[i]).handler, 2usize)),
        tools.len() > 0 && !functions.contains((tools[0].handler, 2usize)) ==> registration_error(
            tools,
            functions,
        ) == Some(
            "tool handler `"@ + tools[0].handler + "` must name a function with 2 parameters"@,
        ),
    decreases tools.len(),
{
    if tools.len() > 0 {
        let rest = tools.drop_first();
        law_every_tool_has_its_handler(rest, functions);
        if functions.contains((tools[0].handler, 2usize)) {
            if registration_error(rest, functions) is None {
                assert forall|i: int| 0 <= i < tools.len() implies functions.contains(
                    ((#[trigger] tools[i]).handler, 2usize),
                ) by {
                    if i > 0 {
                        assert(rest[i - 1] == tools[i]);
                    }
                }
            } else {
                let i = choose|i: int|
                    0 <= i < rest.len() && !functions.contains(
                        ((#[trigger] rest[i]).handler, 2usize),
                    );
                assert(tools[i + 1] == rest[i]);
            }
        }
    }
}

/// A script without `init`, or whose `init` returns nothing, asks for nothing. One
/// that fails is told in its words. Else what it asks for is what was read of it.
pub proof fn law_init_asks_for_what_it_returns(
    init: InitView,
    value: Json,
    failure: Seq<char>,
    outcome: Result<Script, Seq<char>>,
    parsed: Result<InitView, Seq<char>>,
)
    requires
        is_plain(value),
        value != Json::Null,
        init.intercept.len() == 0,
    ensures
        init_outcome(false, outcome, parsed) matches Ok(asked) && asked.subscribe.len() == 0
            && asked.intercept.len() == 0 && asked.ready_message is None,
        init_outcome(true, Ok(Script::Unit), parsed) == init_outcome(false, outcome, parsed),
        init_outcome(true, Err(failure), parsed) matches Err(message) && failure.is_suffix_of(
            message,
        ),
        init_outcome(true, Ok(script_of_json(value)->Ok_0), Ok(init)) == Ok::<InitView, Seq<char>>(
            init,
        ),
        init_outcome(true, Ok(script_of_json(value)->Ok_0), Err(failure)) == Err::<
            InitView,
            Seq<char>,
        >(failure),
{
    law_json_survives_a_script(value);
    let message = "running init"@ + ": "@ + failure;
    assert(message.subrange(message.len() - failure.len(), message.len() as int) =~= failure);
}

/// A script that cannot run says so, and that it is ready, in the words of the error.
pub proof fn law_disabled_script_is_told(message: Seq<char>)
    ensures
        disabled_messages(message).len() == 2,
        disabled_messages(message)[0] == OutputView::ConfigError(message),
        disabled_messages(message)[1] matches OutputView::Ready(told) && message.is_suffix_of(told),
{
    let told = "rhai disabled"@ + ": "@ + message;
    assert(told.subrange(told.len() - message.len(), told.len() as int) =~= message);
}

/// A plain value is told to a script, and told by it, as what it is. A number that a
/// script cannot count to is told as its digits.
pub proof fn law_plain_values_are_told_as_they_are(
    b: bool,
    i: i64,
    large: u64,
    text: Seq<char>,
    name: Seq<char>,
)
    requires
        large > i64::MAX,
    ensures
        script_of_json(Json::Null) == Ok::<Script, Seq<char>>(Script::Unit),
        script_of_json(Json::Bool(b)) == Ok::<Script, Seq<char>>(Script::Bool(b)),
        script_of_json(Json::Integer(i as int)) == Ok::<Script, Seq<char>>(Script::Int(i as int)),
        script_of_json(Json::Text(text)) == Ok::<Script, Seq<char>>(Script::Text(text)),
        script_of_json(Json::Integer(large as int)) == Ok::<Script, Seq<char>>(
            Script::Text(decimal_of(large as nat)),
        ),
        script_of_json(Json::Integer(i64::MIN - 1)) is Err,
        json_of_script(Script::Unit) == Ok::<Json, Seq<char>>(Json::Null),
        json_of_script(Script::Bool(b)) == Ok::<Json, Seq<char>>(Json::Bool(b)),
        json_of_script(Script::Int(i as int)) == Ok::<Json, Seq<char>>(Json::Integer(i as int)),
        json_of_script(Script::Text(text)) == Ok::<Json, Seq<char>>(Json::Text(text)),
        json_of_script(Script::Function(name)) is Err,
        json_of_script(Script::Job(i)) is Err,
        cbor_of_json(Json::Null) == Cbor::Null,
        cbor_of_json(Json::Bool(b)) == Cbor::Bool(b),
        cbor_of_json(Json::Integer(i as int)) == Cbor::Integer(i as int),
        cbor_of_json(Json::Text(text)) == Cbor::Text(text),
{
}

/// A list is told item by item, in order.
pub proof fn law_lists_are_told_item_by_item(items: Seq<Json>, i: int)
    requires
        is_plain(Json::Array(items)),
        0 <= i < items.len(),
    ensures
        script_of_json(Json::Array(items)) matches Ok(Script::Array(list)) && list.len()
            == items.len() && script_of_json(items[i]) == Ok::<Script, Seq<char>>(list[i]),
        cbor_of_json(Json::Array(items)) matches Cbor::Array(list) && list.len() == items.len()
            && list[i] == cbor_of_json(items[i]),
{
    law_json_survives_a_script(Json::Array(items));
    let results = crate::scripting::value::items_of_json(items);
    lemma_collected(results, i);
}

/// What is collected is what the results hold.
proof fn lemma_collected(results: Seq<Result<Script, Seq<char>>>, i: int)
    requires
        crate::convert::collect(results) is Ok,
        0 <= i < results.len(),
    ensures
        crate::convert::collect(results)->Ok_0.len() == results.len(),
        results[i] == Ok::<Script, Seq<char>>(crate::convert::collect(results)->Ok_0[i]),
    decreases results.len(),
{
    let front = results.drop_last();
    if i < front.len() {
        lemma_collected(front, i);
        assert(front[i] == results[i]);
    } else if front.len() > 0 {
        lemma_collected(front, 0);
    }
}

/// A notice has the level that its name says; under any other name it informs.
pub proof fn law_notice_has_the_level_of_its_name(name: Seq<char>)
    ensures
        level_of("warning"@) == NoticeLevel::Warning,
        level_of("critical"@) == NoticeLevel::Warning,
        level_of("important"@) == NoticeLevel::Warning,
        level_of("debug"@) == NoticeLevel::Debug,
        level_of("trace"@) == NoticeLevel::Trace,
        level_of(name) == NoticeLevel::Info || name == "warning"@ || name == "critical"@ || name
            == "important"@ || name == "debug"@ || name == "trace"@,
{
    reveal_strlit("warning");
    reveal_strlit("critical");
    reveal_strlit("important");
    reveal_strlit("debug");
    reveal_strlit("trace");
    assert("warning"@.len() == 7 && "critical"@.len() == 8 && "important"@.len() == 9);
    assert("debug"@[0] == 'd' && "trace"@[0] == 't' && "debug"@.len() == 5 && "trace"@.len() == 5);
}

} // verus!
