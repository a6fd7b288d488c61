//! The `dir_lock` tool, and what is said to the agent of a lock.

use vstd::prelude::*;

use crate::path::{dir_views, dirs_text, display_dirs, path_text, DirPath};
use crate::shell::command::{initial_display, mode_label, command_payload, ShellCommandMode,
    NANOS_PER_SEC};
use crate::shell::dir_lock::{held_at, not_held_message, AbandonedLock, AbandonedView, LockState,
    LockView, LockWaitPolicy, ManualPoll, ManualPollView, ManualStart, ManualStartView};
use crate::shell::display::{
    ok_display, plain_display, plain_state, FailureView, OutputView, StateView, ToolFailure,
    ToolOutput, ToolUseStatus, failure_with_args,
};
use crate::shell::event::{cancelled_call_event, cancelled_event, result_event, tool_result, Event,
    EventView, StartedView, ToolStarted};
use crate::text::{opt_view, push_text, same_text, views};
use crate::value::{argument_error, argument_text, entry, entry_if, entry_views, field,
    group_cbor_views, is_absent, opt_cbor, optional_argument_text_strict, push_entry, text_field,
    text_value, Cbor, CborValue};

verus! {

/// The name of the directory locking tool.
pub const DIR_LOCK_TOOL_NAME: &'static str = "dir_lock";

pub const ABANDONED_LOCK_ERROR: &'static str = "dir_lock_abandoned";

pub const ABANDONED_LOCK_OUTPUT: &'static str =
    "Directory locked and inactive - possibly abandoned. Consider messaging the lock owner agent and/or force-unlocking with `dir_lock unlock` using `blocking_directory` as `directory` and `lock_owner_id` as `owner_agent_id`.";

pub const DUPLICATE_LOCK_ERROR: &'static str = "dir_lock_duplicate";

pub const DUPLICATE_LOCK_OUTPUT: &'static str =
    "Directory lock already held by this agent. Unlock the existing lock before locking another overlapping directory.";

/// Whole seconds, in 64 bits with a sign.
pub open spec fn whole_seconds(nanos: u128) -> int {
    if nanos / NANOS_PER_SEC > i64::MAX {
        i64::MAX as int
    } else {
        (nanos / NANOS_PER_SEC) as int
    }
}

fn seconds_value(nanos: u128) -> (value: CborValue)
    ensures
        value@ == Cbor::Integer(whole_seconds(nanos)),
{
    let secs: u128 = nanos / NANOS_PER_SEC;
    if secs > 9223372036854775807u128 {
        CborValue::Integer(9223372036854775807i128)
    } else {
        CborValue::Integer(secs as i128)
    }
}

/// What the agent is told of a lock that seems forgotten.
pub open spec fn abandoned_details(lock: AbandonedView) -> Cbor {
    Cbor::Dict(
        seq![
            entry("blocking_directory", Cbor::Text(path_text(lock.dir))),
            entry("lock_owner_id", Cbor::Text(lock.owner)),
            entry("idle_seconds", Cbor::Integer(whole_seconds(lock.idle_for))),
            entry("held_seconds", Cbor::Integer(whole_seconds(lock.held_for))),
            entry("output", Cbor::Text(ABANDONED_LOCK_OUTPUT@)),
        ],
    )
}

impl AbandonedLock {
    /// What the agent is told of the lock.
    pub fn details(&self) -> (details: CborValue)
        ensures
            details@ == abandoned_details(self@),
    {
        broadcast use group_cbor_views;

        let mut entries: Vec<(CborValue, CborValue)> = Vec::new();
        push_entry(&mut entries, "blocking_directory", CborValue::Text(self.dir.display()));
        push_entry(&mut entries, "lock_owner_id", CborValue::Text(self.owner.clone()));
        push_entry(&mut entries, "idle_seconds", seconds_value(self.idle_for));
        push_entry(&mut entries, "held_seconds", seconds_value(self.held_for));
        push_entry(&mut entries, "output", text_value(ABANDONED_LOCK_OUTPUT));
        assert(entry_views(entries@) =~= abandoned_details(self@)->Dict_0);
        CborValue::Dict(entries)
    }

    /// The failure of a tool that waited for the lock.
    pub fn tool_failure(&self) -> (f: ToolFailure)
        ensures
            f@ == (FailureView {
                details: Some(abandoned_details(self@)),
                ..failure_with_args(ABANDONED_LOCK_ERROR@, path_text(self@.dir))
            }),
    {
        ToolFailure::new(ABANDONED_LOCK_ERROR.to_owned()).with_args(
            self.dir.display(),
        ).with_details(self.details())
    }
}

/// What the agent is told where it already holds an overlapping lock.
pub open spec fn duplicate_details(
    owner: Seq<char>,
    blocking: Seq<Seq<char>>,
    requested: Seq<Seq<char>>,
) -> Cbor {
    Cbor::Dict(
        seq![
            entry("blocking_directory", Cbor::Text(path_text(blocking))),
            entry("requested_directory", Cbor::Text(path_text(requested))),
            entry("lock_owner_id", Cbor::Text(owner)),
            entry("output", Cbor::Text(DUPLICATE_LOCK_OUTPUT@)),
        ],
    )
}

/// What the agent is told where it already holds an overlapping lock.
pub fn duplicate_manual_lock_details(
    owner: &String,
    blocking_dir: &DirPath,
    requested_dir: &DirPath,
) -> (details: CborValue)
    ensures
        details@ == duplicate_details(owner@, blocking_dir@, requested_dir@),
{
    broadcast use group_cbor_views;

    let mut entries: Vec<(CborValue, CborValue)> = Vec::new();
    push_entry(&mut entries, "blocking_directory", CborValue::Text(blocking_dir.display()));
    push_entry(&mut entries, "requested_directory", CborValue::Text(requested_dir.display()));
    push_entry(&mut entries, "lock_owner_id", CborValue::Text(owner.clone()));
    push_entry(&mut entries, "output", text_value(DUPLICATE_LOCK_OUTPUT));
    assert(entry_views(entries@) =~= duplicate_details(
        owner@,
        blocking_dir@,
        requested_dir@,
    )->Dict_0);
    CborValue::Dict(entries)
}

/// The result of a lock call. The canonical directory is named only where it
/// is written otherwise than the call has it.
pub open spec fn dir_lock_result(input: Seq<char>, dir: Seq<Seq<char>>, locked: bool) -> Cbor {
    Cbor::Dict(
        entry_if(path_text(dir) != input, "canonical_directory", Cbor::Text(path_text(dir)))
            + seq![entry("locked", Cbor::Bool(locked))],
    )
}

/// The result of a lock call.
pub fn dir_lock_result_value(input: &str, dir: &DirPath, locked: bool) -> (value: CborValue)
    ensures
        value@ == dir_lock_result(input@, dir@, locked),
{
    broadcast use group_cbor_views;

    let canonical = dir.display();
    let mut entries: Vec<(CborValue, CborValue)> = Vec::new();
    if !same_text(canonical.as_str(), input) {
        push_entry(&mut entries, "canonical_directory", CborValue::Text(canonical));
    }
    push_entry(&mut entries, "locked", CborValue::Bool(locked));
    assert(entry_views(entries@) =~= dir_lock_result(input@, dir@, locked)->Dict_0);
    CborValue::Dict(entries)
}

/// The label of a lock call.
pub open spec fn lock_args(command: Seq<char>, dir: Seq<Seq<char>>) -> Seq<char> {
    command + " "@ + path_text(dir)
}

/// The label of a lock call.
pub fn dir_lock_display_args(command: &str, dir: &DirPath) -> (args: String)
    ensures
        args@ == lock_args(command@, dir@),
{
    let mut args = command.to_owned();
    args.append(" ");
    args.append(dir.display().as_str());
    args
}

/// The failure of a lock call.
pub open spec fn lock_error(
    call: StartedView,
    message: Seq<char>,
    details: Option<Cbor>,
    args: Seq<char>,
) -> EventView {
    EventView::ToolError {
        call_id: call.call_id,
        tool_name: call.tool_name,
        message,
        details,
        display: Some(plain_state(args, ToolUseStatus::Error, "dir_lock failed"@)),
        originator: call.originator,
    }
}

/// The failure of a lock call.
fn tool_error_with_args(
    call: &ToolStarted,
    message: String,
    details: Option<CborValue>,
    args: &str,
) -> (event: Event)
    ensures
        event@ == lock_error(call@, message@, opt_cbor(details), args@),
{
    Event::ToolError {
        call_id: call.call_id.clone(),
        tool_name: call.tool_name.clone(),
        message,
        details,
        display: Some(plain_display(args, ToolUseStatus::Error, "dir_lock failed")),
        originator: call.originator.copy(),
    }
}

/// The report that a call waits for a lock.
pub open spec fn waiting_event(
    call: StartedView,
    dirs: Seq<Seq<Seq<char>>>,
    mode: Option<ShellCommandMode>,
) -> EventView {
    let command = match text_field(call.arguments, "command"@) {
        Some(command) => command,
        None => seq![],
    };
    let plain = plain_state(dirs_text(dirs), ToolUseStatus::InProgress, "waiting"@);
    let chips: Seq<Seq<char>> = seq!["dir lock"@];
    EventView::ToolProgress {
        call_id: call.call_id,
        tool_name: call.tool_name,
        message: Some("waiting for directory lock: "@ + dirs_text(dirs)),
        display: Some(
            match mode {
                Some(mode) => StateView {
                    info_chips: chips,
                    mode: mode_label(mode),
                    payload: command_payload(command),
                    ..plain
                },
                None => StateView { info_chips: chips, ..plain },
            },
        ),
    }
}

/// The report that a call waits for a lock. It replaces the call's description
/// until the lock is granted.
pub fn waiting_progress_event(
    call: &ToolStarted,
    dirs: &Vec<DirPath>,
    shell_command_mode: Option<ShellCommandMode>,
) -> (event: Event)
    ensures
        event@ == waiting_event(call@, dir_views(dirs@), shell_command_mode),
{
    let text = display_dirs(dirs);
    let mut display = match shell_command_mode {
        Some(mode) => initial_display(&call.arguments, mode, "waiting"),
        None => plain_display(text.as_str(), ToolUseStatus::InProgress, "waiting"),
    };
    display.args = text.clone();
    push_text(&mut display.info_chips, "dir lock".to_owned());
    assert(views(display.info_chips@) =~= seq!["dir lock"@]);
    let mut message = "waiting for directory lock: ".to_owned();
    message.append(text.as_str());
    Event::ToolProgress {
        call_id: call.call_id.clone(),
        tool_name: call.tool_name.clone(),
        message: Some(message),
        display: Some(display),
    }
}

/// What a lock call led to.
#[derive(Debug)]
pub enum DirLockStep {
    /// The call is over.
    Done(Event),
    /// The call waits; the event says so.
    Waiting { waiter: u64, progress: Event },
}

/// What a lock call led to, as mathematics.
pub enum DirLockStepView {
    Done(EventView),
    Waiting { waiter: u64, progress: EventView },
}

impl View for DirLockStep {
    type V = DirLockStepView;

    open spec fn view(&self) -> DirLockStepView {
        match self {
            DirLockStep::Done(event) => DirLockStepView::Done(event@),
            DirLockStep::Waiting { waiter, progress } => DirLockStepView::Waiting {
                waiter: *waiter,
                progress: progress@,
            },
        }
    }
}

/// A directory that was looked for, or why there is none, as mathematics.
pub open spec fn found_view(found: Result<DirPath, String>) -> Result<Seq<Seq<char>>, Seq<char>> {
    match found {
        Ok(dir) => Ok(dir@),
        Err(message) => Err(message@),
    }
}

/// The success of a lock call.
pub open spec fn lock_done(
    call: StartedView,
    command: Seq<char>,
    input: Seq<char>,
    dir: Seq<Seq<char>>,
    locked: bool,
) -> EventView {
    result_event(
        call,
        OutputView {
            result: dir_lock_result(input, dir, locked),
            display: plain_state(lock_args(command, dir), ToolUseStatus::Success, "ok"@),
        },
    )
}

/// An `update` call for a directory that was found.
pub open spec fn update_call(
    call: StartedView,
    input: Seq<char>,
    dir: Seq<Seq<char>>,
    s: LockView,
    now: u128,
) -> (LockView, DirLockStepView) {
    let (t, r) = s.start_manual(call.call_id, call.agent_id, dir, now);
    (
        t,
        match r {
            ManualStartView::Granted => DirLockStepView::Done(
                lock_done(call, "update"@, input, dir, true),
            ),
            ManualStartView::Waiting { waiter } => DirLockStepView::Waiting {
                waiter,
                progress: waiting_event(call, seq![dir], None),
            },
            ManualStartView::AlreadyHeld { dir: held } => DirLockStepView::Done(
                lock_error(
                    call,
                    DUPLICATE_LOCK_ERROR@,
                    Some(duplicate_details(call.agent_id, held, dir)),
                    lock_args("update"@, dir),
                ),
            ),
        },
    )
}

/// An `unlock` call for a directory that was found. It gives back the lock of
/// the agent that is named, or of the caller.
pub open spec fn unlock_call(
    call: StartedView,
    input: Seq<char>,
    dir: Seq<Seq<char>>,
    owner_error: Option<Seq<char>>,
    s: LockView,
) -> (LockView, DirLockStepView) {
    let args = lock_args("unlock"@, dir);
    let named = text_field(call.arguments, "owner_agent_id"@);
    let owner = match named {
        Some(owner) => owner,
        None => call.agent_id,
    };
    if !is_absent(field(call.arguments, "owner_agent_id"@)) && named is None {
        (
            s,
            DirLockStepView::Done(
                lock_error(
                    call,
                    argument_error("owner_agent_id"@, "a string"@),
                    Some(call.arguments),
                    args,
                ),
            ),
        )
    } else if named is Some && owner_error is Some {
        (
            s,
            DirLockStepView::Done(
                lock_error(
                    call,
                    "invalid owner_agent_id `"@ + owner + "`: "@ + owner_error->0,
                    Some(call.arguments),
                    args,
                ),
            ),
        )
    } else if held_at(s.manual, owner, dir) < s.manual.len() {
        (
            s.unlock(owner, dir),
            DirLockStepView::Done(lock_done(call, "unlock"@, input, dir, false)),
        )
    } else {
        (
            s,
            DirLockStepView::Done(
                lock_error(call, not_held_message(owner, dir), Some(call.arguments), args),
            ),
        )
    }
}

/// A call of the lock tool: what it does to the locks, and what is said of it.
pub open spec fn lock_call(
    call: StartedView,
    enabled: bool,
    found: Result<Seq<Seq<char>>, Seq<char>>,
    owner_error: Option<Seq<char>>,
    s: LockView,
    now: u128,
) -> (LockView, DirLockStepView) {
    let command = text_field(call.arguments, "command"@);
    let input = text_field(call.arguments, "directory"@);
    if !enabled {
        (
            s,
            DirLockStepView::Done(
                lock_error(
                    call,
                    "dir_lock is disabled; set ext-shell config `dir_lock.enable` to true to use it"@,
                    None,
                    seq![],
                ),
            ),
        )
    } else if call.agent_id.len() == 0 {
        (
            s,
            DirLockStepView::Done(
                lock_error(
                    call,
                    "dir_lock requires a non-empty tool owner agent_id"@,
                    None,
                    seq![],
                ),
            ),
        )
    } else if command is None {
        (
            s,
            DirLockStepView::Done(
                lock_error(
                    call,
                    argument_error("command"@, "a string"@),
                    Some(call.arguments),
                    seq![],
                ),
            ),
        )
    } else if input is None {
        (
            s,
            DirLockStepView::Done(
                lock_error(
                    call,
                    argument_error("directory"@, "a string"@),
                    Some(call.arguments),
                    seq![],
                ),
            ),
        )
    } else {
        match found {
            Err(message) => (
                s,
                DirLockStepView::Done(
                    lock_error(call, message, Some(call.arguments), input->0),
                ),
            ),
            Ok(dir) => if command->0 == "update"@ {
                update_call(call, input->0, dir, s, now)
            } else if command->0 == "unlock"@ {
                unlock_call(call, input->0, dir, owner_error, s)
            } else {
                (
                    s,
                    DirLockStepView::Done(
                        lock_error(
                            call,
                            "argument `command` must be `update` or `unlock`"@,
                            Some(call.arguments),
                            lock_args(command->0, dir),
                        ),
                    ),
                )
            },
        }
    }
}

/// The success of a lock call.
fn lock_result(call: &ToolStarted, command: &str, input: &str, dir: &DirPath, locked: bool) -> (
    event: Event)
    ensures
        event@ == lock_done(call@, command@, input@, dir@, locked),
{
    let args = dir_lock_display_args(command, dir);
    tool_result(
        call,
        ToolOutput {
            result: dir_lock_result_value(input, dir, locked),
            display: ok_display(args.as_str()),
        },
    )
}

/// Handles a call of the lock tool. `found` is what became of looking for the
/// call's directory, and `owner_error` what is wrong with the agent that an
/// `unlock` call names, if anything.
pub fn dispatch_dir_lock_tool(
    call: &ToolStarted,
    enabled: bool,
    found: &Result<DirPath, String>,
    owner_error: &Option<String>,
    locks: &mut LockState,
    now: u128,
) -> (step: DirLockStep)
    requires
        old(locks).next_waiter_id < u64::MAX,
    ensures
        (final(locks)@, step@) == lock_call(
            call@,
            enabled,
            found_view(*found),
            opt_view(*owner_error),
            old(locks)@,
            now,
        ),
{
    let no_args = "";
    proof {
        reveal_strlit("");
        assert(no_args@ =~= seq![]);
    }
    if !enabled {
        return DirLockStep::Done(
            tool_error_with_args(
                call,
                "dir_lock is disabled; set ext-shell config `dir_lock.enable` to true to use it".to_owned(),
                None,
                no_args,
            ),
        );
    }
    if call.agent_id.as_str().is_empty() {
        return DirLockStep::Done(
            tool_error_with_args(
                call,
                "dir_lock requires a non-empty tool owner agent_id".to_owned(),
                None,
                no_args,
            ),
        );
    }
    let command = match argument_text(&call.arguments, "command") {
        Ok(command) => command,
        Err(message) => {
            return DirLockStep::Done(
                tool_error_with_args(call, message, Some(call.arguments.copy()), no_args),
            );
        },
    };
    let input = match argument_text(&call.arguments, "directory") {
        Ok(input) => input,
        Err(message) => {
            return DirLockStep::Done(
                tool_error_with_args(call, message, Some(call.arguments.copy()), no_args),
            );
        },
    };
    let dir = match found {
        Ok(dir) => dir,
        Err(message) => {
            return DirLockStep::Done(
                tool_error_with_args(
                    call,
                    message.clone(),
                    Some(call.arguments.copy()),
                    input.as_str(),
                ),
            );
        },
    };
    if same_text(command.as_str(), "update") {
        let args = dir_lock_display_args("update", dir);
        match locks.acquire_manual(call.call_id.clone(), call.agent_id.clone(), dir.copy(), now) {
            ManualStart::Granted => DirLockStep::Done(
                lock_result(call, "update", input.as_str(), dir, true),
            ),
            ManualStart::Waiting { waiter } => {
                let mut dirs: Vec<DirPath> = Vec::new();
                dirs.push(dir.copy());
                assert(dir_views(dirs@) =~= seq![dir@]);
                DirLockStep::Waiting { waiter, progress: waiting_progress_event(call, &dirs, None) }
            },
            ManualStart::AlreadyHeld { dir: held } => DirLockStep::Done(
                tool_error_with_args(
                    call,
                    DUPLICATE_LOCK_ERROR.to_owned(),
                    Some(duplicate_manual_lock_details(&call.agent_id, &held, dir)),
                    args.as_str(),
                ),
            ),
        }
    } else if same_text(command.as_str(), "unlock") {
        let args = dir_lock_display_args("unlock", dir);
        let named = match optional_argument_text_strict(&call.arguments, "owner_agent_id") {
            Ok(named) => named,
            Err(message) => {
                return DirLockStep::Done(
                    tool_error_with_args(
                        call,
                        message,
                        Some(call.arguments.copy()),
                        args.as_str(),
                    ),
                );
            },
        };
        let owner = match named {
            Some(owner) => {
                if let Some(error) = owner_error {
                    let mut message = "invalid owner_agent_id `".to_owned();
                    message.append(owner.as_str());
                    message.append("`: ");
                    message.append(error.as_str());
                    return DirLockStep::Done(
                        tool_error_with_args(
                            call,
                            message,
                            Some(call.arguments.copy()),
                            args.as_str(),
                        ),
                    );
                }
                owner
            },
            None => call.agent_id.clone(),
        };
        match locks.unlock_manual(&owner, dir) {
            Ok(_) => DirLockStep::Done(lock_result(call, "unlock", input.as_str(), dir, false)),
            Err(message) => DirLockStep::Done(
                tool_error_with_args(call, message, Some(call.arguments.copy()), args.as_str()),
            ),
        }
    } else {
        let args = dir_lock_display_args(command.as_str(), dir);
        DirLockStep::Done(
            tool_error_with_args(
                call,
                "argument `command` must be `update` or `unlock`".to_owned(),
                Some(call.arguments.copy()),
                args.as_str(),
            ),
        )
    }
}

/// What a look at a waiting lock call led to.
#[derive(Debug)]
pub enum DirLockPoll {
    Done(Event),
    Wait { next_check: u128, wait_for: u128 },
}

/// What a look at a waiting lock call led to, as mathematics.
pub enum DirLockPollView {
    Done(EventView),
    Wait { next_check: u128, wait_for: u128 },
}

impl View for DirLockPoll {
    type V = DirLockPollView;

    open spec fn view(&self) -> DirLockPollView {
        match self {
            DirLockPoll::Done(event) => DirLockPollView::Done(event@),
            DirLockPoll::Wait { next_check, wait_for } => DirLockPollView::Wait {
                next_check: *next_check,
                wait_for: *wait_for,
            },
        }
    }
}

/// A look at an `update` call that waits.
pub open spec fn waiting_call(
    call: StartedView,
    input: Seq<char>,
    dir: Seq<Seq<char>>,
    r: ManualPollView,
) -> DirLockPollView {
    match r {
        ManualPollView::Granted => DirLockPollView::Done(
            lock_done(call, "update"@, input, dir, true),
        ),
        ManualPollView::Cancelled => DirLockPollView::Done(cancelled_call_event(call)),
        ManualPollView::AlreadyHeld { dir: held } => DirLockPollView::Done(
            lock_error(
                call,
                DUPLICATE_LOCK_ERROR@,
                Some(duplicate_details(call.agent_id, held, dir)),
                lock_args("update"@, dir),
            ),
        ),
        ManualPollView::Abandoned(lock) => DirLockPollView::Done(
            lock_error(
                call,
                ABANDONED_LOCK_ERROR@,
                Some(abandoned_details(lock)),
                lock_args("update"@, lock.dir),
            ),
        ),
        ManualPollView::Wait { next_check, wait_for } => DirLockPollView::Wait {
            next_check,
            wait_for,
        },
    }
}

/// Looks at an `update` call that waits for its lock.
pub fn poll_dir_lock_tool(
    call: &ToolStarted,
    input: &str,
    dir: &DirPath,
    waiter: u64,
    next_check: u128,
    now: u128,
    policy: LockWaitPolicy,
    locks: &mut LockState,
) -> (poll: DirLockPoll)
    ensures
        ({
            let (t, r) = old(locks)@.poll_manual(waiter, next_check, now, policy);
            final(locks)@ == t && poll@ == waiting_call(call@, input@, dir@, r)
        }),
{
    match locks.poll_manual(waiter, next_check, now, policy) {
        ManualPoll::Granted => DirLockPoll::Done(lock_result(call, "update", input, dir, true)),
        ManualPoll::Cancelled => DirLockPoll::Done(cancelled_event(call)),
        ManualPoll::AlreadyHeld { dir: held } => {
            let args = dir_lock_display_args("update", dir);
            DirLockPoll::Done(
                tool_error_with_args(
                    call,
                    DUPLICATE_LOCK_ERROR.to_owned(),
                    Some(duplicate_manual_lock_details(&call.agent_id, &held, dir)),
                    args.as_str(),
                ),
            )
        },
        ManualPoll::Abandoned(lock) => {
            let args = dir_lock_display_args("update", &lock.dir);
            DirLockPoll::Done(
                tool_error_with_args(
                    call,
                    ABANDONED_LOCK_ERROR.to_owned(),
                    Some(lock.details()),
                    args.as_str(),
                ),
            )
        },
        ManualPoll::Wait { next_check, wait_for } => DirLockPoll::Wait { next_check, wait_for },
    }
}

} // verus!
