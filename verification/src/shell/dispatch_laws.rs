//! Laws of how calls are run and answered.

use vstd::prelude::*;

use crate::shell::command::{
    command_failure, planned, CommandOutcomeView, ShellAccessMode, ShellCommandMode,
};
use crate::shell::cwd_state::{cwd_key, CwdView};
use crate::shell::dir_lock::{AutoStartView, LockView};
use crate::shell::dir_lock_tool::{
    dir_lock_result, lock_done, lock_error, unlock_call, update_call, DirLockStepView,
};
use crate::shell::dispatch::{
    cd_call, command_event, event_with_wait, executed, explicit_path, joined_path, key_at,
    locked_start, path_field, rewritten, route_of, value_with_wait, with_text, LockedStepView,
    Route, APPLY_PATCH_TOOL_NAME, EDIT_TOOL_NAME, FIND_TOOL_NAME, GREP_TOOL_NAME,
    LOCK_WAIT_DURATION_SECONDS_HEADER, LS_TOOL_NAME, READ_TOOL_NAME, SHELL_TOOL_NAME,
    WRITE_TOOL_NAME,
};
use crate::shell::display::{FailureView, OutputView};
use crate::shell::event::{failure_event, result_event, EventView, StartedView};
use crate::value::{
    field, int_field, is_absent, lemma_first_entry, lookup, text_field, Cbor,
};

verus! {

/// A path that starts at the root is meant as it stands; every other is meant below
/// the directory of the agent.
pub proof fn law_relative_paths_are_below_the_directory(base: Seq<char>, path: Seq<char>)
    ensures
        path.len() > 0 && path[0] == '/' ==> joined_path(base, path) == path,
        (path.len() == 0 || path[0] != '/') && base.len() > 0 && base.last() != '/' ==> joined_path(
            base,
            path,
        ) == base + "/"@ + path,
        (path.len() == 0 || path[0] != '/') && base.len() > 0 && base.last() == '/' ==> joined_path(
            base,
            path,
        ) == base + path,
{
}

proof fn lemma_key_is_found(entries: Seq<(Cbor, Cbor)>, key: Seq<char>)
    ensures
        0 <= key_at(entries, key) <= entries.len(),
        key_at(entries, key) < entries.len() ==> entries[key_at(entries, key)].0 == Cbor::Text(key),
        forall|i: int|
            0 <= i < key_at(entries, key) ==> (#[trigger] entries[i]).0 != Cbor::Text(key),
    decreases entries.len(),
{
    if entries.len() > 0 && entries[0].0 != Cbor::Text(key) {
        let rest = entries.drop_first();
        lemma_key_is_found(rest, key);
        assert forall|i: int| 0 <= i < key_at(entries, key) implies (#[trigger] entries[i]).0
            != Cbor::Text(key) by {
            if i > 0 {
                assert(entries[i] == rest[i - 1]);
            }
        }
    }
}

proof fn lemma_other_key(a: Seq<(Cbor, Cbor)>, b: Seq<(Cbor, Cbor)>, key: Seq<char>)
    requires
        a.len() == b.len(),
        forall|i: int|
            0 <= i < a.len() ==> (#[trigger] a[i]).0 == b[i].0 && (a[i].0 == Cbor::Text(key) ==> a[i]
                == b[i]),
    ensures
        lookup(a, key) == lookup(b, key),
    decreases a.len(),
{
    if a.len() > 0 {
        assert(a[0].0 == b[0].0);
        let x = a.drop_first();
        let y = b.drop_first();
        assert forall|i: int| 0 <= i < x.len() implies (#[trigger] x[i]).0 == y[i].0 && (x[i].0
            == Cbor::Text(key) ==> x[i] == y[i]) by {
            assert(x[i] == a[i + 1] && y[i] == b[i + 1]);
        }
        lemma_other_key(x, y, key);
    }
}

/// A text that is put into arguments is found there, and everything else stays.
pub proof fn law_text_is_put_into_arguments(
    entries: Seq<(Cbor, Cbor)>,
    key: Seq<char>,
    value: Seq<char>,
    other: Seq<char>,
)
    requires
        other != key,
    ensures
        text_field(with_text(Cbor::Dict(entries), key, value), key) == Some(value),
        field(with_text(Cbor::Dict(entries), key, value), other) == field(
            Cbor::Dict(entries),
            other,
        ),
{
    lemma_key_is_found(entries, key);
    let p = key_at(entries, key);
    let after = with_text(Cbor::Dict(entries), key, value)->Dict_0;
    assert forall|i: int| 0 <= i < p implies (#[trigger] after[i]).0 != Cbor::Text(key) by {
        assert(after[i] == entries[i]);
    }
    lemma_first_entry(after, key, p);
    if p < entries.len() {
        lemma_other_key(after, entries, other);
    } else {
        lemma_pushed(entries, (Cbor::Text(key), Cbor::Text(value)), other);
    }
}

proof fn lemma_pushed(entries: Seq<(Cbor, Cbor)>, last: (Cbor, Cbor), key: Seq<char>)
    requires
        last.0 != Cbor::Text(key),
    ensures
        lookup(entries.push(last), key) == lookup(entries, key),
    decreases entries.len(),
{
    if entries.len() > 0 {
        assert(entries.push(last).drop_first() =~= entries.drop_first().push(last));
        lemma_pushed(entries.drop_first(), last, key);
    } else {
        assert(entries.push(last).drop_first() =~= seq![]);
        assert(lookup(entries.push(last).drop_first(), key) is None);
    }
}

/// A call that names a path is run on that path as its agent means it: the
/// canonical one where it is known, else the one below the agent's directory. Its
/// other arguments, its id, its tool and its agent stay.
pub proof fn law_call_is_run_where_it_means(
    call: StartedView,
    entries: Seq<(Cbor, Cbor)>,
    base: Seq<char>,
    path: Seq<char>,
    canonical: Option<Seq<char>>,
    cwd: CwdView,
    other: Seq<char>,
)
    requires
        call.arguments == Cbor::Dict(entries),
        path_field(call.tool_name) matches Some(key) && other != key && explicit_path(
            call.arguments,
            key,
        ) == Some(path),
    ensures
        ({
            let (run, after, sent) = rewritten(call, base, canonical, cwd);
            let key = path_field(call.tool_name)->0;
            &&& text_field(run.arguments, key) == Some(
                match canonical {
                    Some(dir) => dir,
                    None => joined_path(base, path),
                },
            )
            &&& field(run.arguments, other) == field(call.arguments, other)
            &&& run.call_id == call.call_id
            &&& run.tool_name == call.tool_name
            &&& run.agent_id == call.agent_id
            &&& run.originator == call.originator
            &&& after.cwd == cwd.cwd && after.pending == cwd.pending
            &&& canonical is None ==> sent.len() == 0
        }),
{
    let key = path_field(call.tool_name)->0;
    law_text_is_put_into_arguments(
        entries,
        key,
        match canonical {
            Some(dir) => dir,
            None => joined_path(base, path),
        },
        other,
    );
}

/// A command that names a directory moves its agent there: the harness is asked to
/// keep it, and the agent is to be told. No other tool moves an agent so.
pub proof fn law_command_moves_its_agent(
    call: StartedView,
    base: Seq<char>,
    path: Seq<char>,
    dir: Seq<char>,
    cwd: CwdView,
)
    requires
        explicit_path(call.arguments, "cwd"@) == Some(path),
    ensures
        call.tool_name == SHELL_TOOL_NAME@ ==> {
            let (run, after, sent) = rewritten(call, base, Some(dir), cwd);
            &&& sent == seq![
                EventView::AgentMetadataSet {
                    agent_id: call.agent_id,
                    key: cwd_key(cwd.instance),
                    value: Cbor::Text(dir),
                    inheritable: true,
                },
            ]
            &&& after.notices == cwd.notices.insert(call.agent_id, dir)
        },
        call.tool_name == READ_TOOL_NAME@ || call.tool_name == GREP_TOOL_NAME@ || call.tool_name
            == FIND_TOOL_NAME@ || call.tool_name == LS_TOOL_NAME@ || call.tool_name
            == EDIT_TOOL_NAME@ ==> rewritten(call, base, Some(dir), cwd).2.len() == 0,
{
    lemma_tool_names();
    reveal_strlit("cwd");
    reveal_strlit("path");
    assert("cwd"@.len() == 3 && "path"@.len() == 4);
}

proof fn lemma_tool_names()
    ensures
        SHELL_TOOL_NAME@.len() == 5,
        SHELL_TOOL_NAME@[0] == 's',
        READ_TOOL_NAME@.len() == 4,
        READ_TOOL_NAME@[0] == 'r',
        GREP_TOOL_NAME@.len() == 4,
        GREP_TOOL_NAME@[0] == 'g',
        FIND_TOOL_NAME@.len() == 4,
        FIND_TOOL_NAME@[0] == 'f',
        LS_TOOL_NAME@.len() == 2,
        EDIT_TOOL_NAME@.len() == 4,
        EDIT_TOOL_NAME@[0] == 'e',
        EDIT_TOOL_NAME@[1] == 'd',
        WRITE_TOOL_NAME@.len() == 5,
        WRITE_TOOL_NAME@[0] == 'w',
        APPLY_PATCH_TOOL_NAME@.len() == 11,
        crate::shell::dispatch::GPT_SHELL_TOOL_NAME@.len() == 9,
        crate::shell::dispatch::ECHO_TOOL_NAME@.len() == 4,
        crate::shell::dispatch::ECHO_TOOL_NAME@[0] == 'e',
        crate::shell::dispatch::ECHO_TOOL_NAME@[1] == 'c',
        crate::shell::dispatch::CD_TOOL_NAME@.len() == 2,
        crate::shell::dir_lock_tool::DIR_LOCK_TOOL_NAME@.len() == 8,
{
    reveal_strlit("shell");
    reveal_strlit("read");
    reveal_strlit("grep");
    reveal_strlit("find");
    reveal_strlit("ls");
    reveal_strlit("edit");
    reveal_strlit("write");
    reveal_strlit("apply_patch");
    reveal_strlit("gpt_shell");
    reveal_strlit("echo");
    reveal_strlit("cd");
    reveal_strlit("dir_lock");
}

/// With locking on, what updates files runs under a lock, and every other command
/// cannot write; with locking off, nothing waits.
pub proof fn law_updates_are_locked(name: Seq<char>)
    ensures
        name == EDIT_TOOL_NAME@ || name == APPLY_PATCH_TOOL_NAME@ || name == SHELL_TOOL_NAME@
            ==> route_of(name, true) is Locked && route_of(name, false) == Route::Plain(None),
        name == READ_TOOL_NAME@ || name == GREP_TOOL_NAME@ || name == FIND_TOOL_NAME@ || name
            == LS_TOOL_NAME@ ==> route_of(name, true) == Route::Plain(
            Some(ShellCommandMode::Visible(ShellAccessMode::ReadOnly)),
        ) && route_of(name, false) == Route::Plain(None),
{
    lemma_tool_names();
}

/// A result is answered to the call that asked for it, with what came out and what
/// is shown; so is a failure, with its words.
pub proof fn law_call_is_answered(call: StartedView, output: OutputView, failed: FailureView)
    ensures
        result_event(call, output) matches EventView::ToolResult {
            call_id,
            tool_name,
            result,
            display,
            originator,
        } && call_id == call.call_id && tool_name == call.tool_name && result == output.result
            && display == Some(output.display) && originator == call.originator,
        failure_event(call, failed) matches EventView::ToolError {
            call_id,
            tool_name,
            message,
            details,
            originator,
            ..
        } && call_id == call.call_id && tool_name == call.tool_name && message == failed.message
            && details == failed.details && originator == call.originator,
        command_event(call, Ok(CommandOutcomeView::Finished(output)), None) == result_event(
            call,
            output,
        ),
        command_event(call, Err(failed), None) == failure_event(call, failed),
        command_event(call, Ok(CommandOutcomeView::Cancelled), None)
            == (EventView::ToolCancelled { call_id: call.call_id, tool_name: call.tool_name }),
{
}

/// A tool that reads or writes files is answered once, with its outcome; one that
/// is not there is refused.
pub proof fn law_tool_is_answered_with_its_outcome(
    call: StartedView,
    output: OutputView,
    failed: FailureView,
)
    requires
        call.tool_name == READ_TOOL_NAME@ || call.tool_name == GREP_TOOL_NAME@ || call.tool_name
            == FIND_TOOL_NAME@ || call.tool_name == LS_TOOL_NAME@ || call.tool_name
            == EDIT_TOOL_NAME@ || call.tool_name == WRITE_TOOL_NAME@,
    ensures
        executed(call, false, Ok(output)).len() == 1,
        executed(call, false, Ok(output))[0] matches EventView::ToolResult {
            call_id,
            tool_name,
            result,
            display,
            ..
        } && call_id == call.call_id && tool_name == call.tool_name && result == output.result
            && display == Some(output.display),
        executed(call, false, Err(failed)).len() == 1,
        executed(call, false, Err(failed))[0] matches EventView::ToolError {
            call_id,
            message,
            ..
        } && call_id == call.call_id && message == failed.message,
{
}

proof fn lemma_kept_lookup(entries: Seq<(Cbor, Cbor)>, key: Seq<char>)
    requires
        key != LOCK_WAIT_DURATION_SECONDS_HEADER@,
    ensures
        lookup(crate::shell::dispatch::without_wait(entries), key) == lookup(entries, key),
    decreases entries.len(),
{
    let kept = crate::shell::dispatch::without_wait(entries);
    if entries.len() > 0 {
        let front = entries.drop_last();
        let last = entries.last();
        lemma_kept_lookup(front, key);
        let before = crate::shell::dispatch::without_wait(front);
        assert(entries =~= front.push(last));
        lemma_lookup_last(front, last, key);
        if last.0 != Cbor::Text(LOCK_WAIT_DURATION_SECONDS_HEADER@) {
            assert(kept == before.push(last));
            lemma_lookup_last(before, last, key);
        } else {
            assert(kept == before);
        }
    } else {
        assert(kept =~= entries);
    }
}

proof fn lemma_lookup_last(entries: Seq<(Cbor, Cbor)>, last: (Cbor, Cbor), key: Seq<char>)
    ensures
        lookup(entries.push(last), key) == match lookup(entries, key) {
            Some(value) => Some(value),
            None => if last.0 == Cbor::Text(key) {
                Some(last.1)
            } else {
                None
            },
        },
    decreases entries.len(),
{
    if entries.len() > 0 {
        assert(entries.push(last).drop_first() =~= entries.drop_first().push(last));
        lemma_lookup_last(entries.drop_first(), last, key);
    } else {
        assert(entries.push(last).drop_first() =~= seq![]);
        assert(lookup(entries.push(last).drop_first(), key) is None);
    }
}

/// A wait that is reported is added to a result and takes nothing from it.
pub proof fn law_wait_is_added(
    call: StartedView,
    output: OutputView,
    entries: Seq<(Cbor, Cbor)>,
    seconds: u64,
    key: Seq<char>,
)
    requires
        output.result == Cbor::Dict(entries),
        key != LOCK_WAIT_DURATION_SECONDS_HEADER@,
        seconds <= i64::MAX,
    ensures
        event_with_wait(result_event(call, output), Some(seconds)) matches EventView::ToolResult {
            call_id,
            result,
            ..
        } && call_id == call.call_id && field(result, key) == field(output.result, key)
            && int_field(result, LOCK_WAIT_DURATION_SECONDS_HEADER@) == Some(seconds as i64),
        event_with_wait(result_event(call, output), None) == result_event(call, output),
{
    let after = value_with_wait(output.result, seconds, "output"@)->Dict_0;
    lemma_first_entry(after, LOCK_WAIT_DURATION_SECONDS_HEADER@, 0);
    lemma_kept_lookup(entries, key);
    assert(after.drop_first() =~= crate::shell::dispatch::without_wait(entries));
}

/// A call of `cd` asks the harness to keep the directory that it leads to, and waits
/// until that is done; one that leads nowhere is refused, and so is a second one.
pub proof fn law_cd_asks_for_the_directory(
    call: StartedView,
    path: Seq<char>,
    failed: FailureView,
    waited: Option<u64>,
    cwd: CwdView,
)
    ensures
        !cwd.pending.dom().contains(call.agent_id) ==> {
            let (after, sent) = cd_call(call, Ok(path), waited, cwd);
            &&& sent == EventView::AgentMetadataSet {
                agent_id: call.agent_id,
                key: cwd_key(cwd.instance),
                value: Cbor::Text(path),
                inheritable: true,
            }
            &&& after.pending.dom().contains(call.agent_id)
            &&& after.pending[call.agent_id].expected_cwd == path
            &&& after.pending[call.agent_id].call == call
            &&& after.cwd == cwd.cwd
        },
        cwd.pending.dom().contains(call.agent_id) ==> cd_call(call, Ok(path), waited, cwd).0 == cwd
            && cd_call(call, Ok(path), waited, cwd).1 is ToolError,
        cd_call(call, Err(failed), waited, cwd) == (cwd, failure_event(call, failed)),
{
}

/// A shell call runs the command that it names, word for word, in the directory and
/// within the seconds that it names.
pub proof fn law_command_is_run_as_named(
    arguments: Cbor,
    mode: ShellCommandMode,
    command: Seq<char>,
)
    requires
        text_field(arguments, "command"@) == Some(command),
        is_absent(field(arguments, "cwd"@)) || text_field(arguments, "cwd"@) is Some,
        is_absent(field(arguments, "timeout"@)) || (int_field(arguments, "timeout"@) matches Some(n)
            && n >= 0),
    ensures
        planned(arguments, mode) matches Ok(plan) && {
            &&& plan.command == command
            &&& plan.cwd == text_field(arguments, "cwd"@)
            &&& int_field(arguments, "timeout"@) matches Some(n) ==> plan.timeout_secs == n
            &&& plan.read_only == (mode == ShellCommandMode::Visible(ShellAccessMode::ReadOnly))
        },
        command_failure(command, command, command, None).message == command,
{
}

/// A call that gets its lock runs under it; a command that no lock of its agent
/// holds cannot write.
pub proof fn law_locked_call_runs_under_its_lock(
    call: StartedView,
    dirs: Seq<Seq<Seq<char>>>,
    id: u64,
    elapsed: u128,
)
    ensures
        locked_start(call, dirs, AutoStartView::Granted { id }, elapsed) matches LockedStepView::Run {
            lock,
            ..
        } && lock == Some(id),
        locked_start(call, dirs, AutoStartView::NotCovered, elapsed) matches LockedStepView::Run {
            lock,
            mode,
            ..
        } && lock is None && mode == Some(ShellCommandMode::Visible(ShellAccessMode::ReadOnly)),
        locked_start(call, dirs, AutoStartView::Waiting { waiter: id }, elapsed) matches
            LockedStepView::Waiting { waiter, progress } && waiter == id && (progress matches
            EventView::ToolProgress { call_id, .. } && call_id == call.call_id),
{
}

/// A call of the lock tool says whether the directory is locked now, to the call
/// that asked.
pub proof fn law_lock_call_is_answered(
    call: StartedView,
    input: Seq<char>,
    dir: Seq<Seq<char>>,
    s: LockView,
    now: u128,
    locked: bool,
    message: Seq<char>,
)
    ensures
        field(dir_lock_result(input, dir, locked), "locked"@) == Some(Cbor::Bool(locked)),
        lock_done(call, message, input, dir, locked) matches EventView::ToolResult {
            call_id,
            result,
            ..
        } && call_id == call.call_id && result == dir_lock_result(input, dir, locked),
        lock_error(call, message, None, input) matches EventView::ToolError {
            call_id,
            message: told,
            ..
        } && call_id == call.call_id && told == message,
        s.start_manual(call.call_id, call.agent_id, dir, now).1 is Granted ==> update_call(
            call,
            input,
            dir,
            s,
            now,
        ).1 == DirLockStepView::Done(lock_done(call, "update"@, input, dir, true)),
        s.start_manual(call.call_id, call.agent_id, dir, now).1 is AlreadyHeld ==> (update_call(
            call,
            input,
            dir,
            s,
            now,
        ).1 matches DirLockStepView::Done(event) && event is ToolError),
        update_call(call, input, dir, s, now).0 == s.start_manual(
            call.call_id,
            call.agent_id,
            dir,
            now,
        ).0,
        text_field(call.arguments, "owner_agent_id"@) is None && is_absent(
            field(call.arguments, "owner_agent_id"@),
        ) ==> {
            let (after, step) = unlock_call(call, input, dir, None, s);
            let held = crate::shell::dir_lock::held_at(s.manual, call.agent_id, dir)
                < s.manual.len();
            &&& held ==> after == s.unlock(call.agent_id, dir) && step == DirLockStepView::Done(
                lock_done(call, "unlock"@, input, dir, false),
            )
            &&& !held ==> after == s && (step matches DirLockStepView::Done(event) && event
                is ToolError)
        },
{
    reveal_strlit("locked");
    reveal_strlit("canonical_directory");
    assert("locked"@.len() == 6 && "canonical_directory"@.len() == 19);
    let entries = dir_lock_result(input, dir, locked)->Dict_0;
    if crate::path::path_text(dir) != input {
        lemma_first_entry(entries, "locked"@, 1);
    } else {
        lemma_first_entry(entries, "locked"@, 0);
    }
}

} // verus!
