//! Laws of who gets a directory lock, and of what the calls about locks do.

use vstd::prelude::*;

use crate::seqs::lemma_keep;
use crate::shell::dir_lock::{
    covers, first_abandoned, held_at, owned_overlapping, AbandonedView, AutoPollView,
    AutoStartView, AutoView, LockView, LockWaitPolicy, ManualStartView, ManualView,
    WaitKind, WaiterView,
};
use crate::shell::dir_lock_tool::{lock_call, DirLockStepView};
use crate::shell::dispatch::{action_call, lock_target, priority_of, ActionView, LockTargetView};
use crate::shell::event::{EventView, StartedView};
use crate::shell::lock_dirs::{
    existing_dir, file_parent, path_parent, shell_cwd, update_lock_dir, LookupView, Standing,
};
use crate::shell::scheduler::WorkPriority;
use crate::value::{field, text_field, Cbor};

verus! {

/// Whether neither of two directories lies in the other.
pub open spec fn apart(a: Seq<Seq<char>>, b: Seq<Seq<char>>) -> bool {
    !a.is_prefix_of(b) && !b.is_prefix_of(a)
}

/// Whether no lock is held on any part of a directory.
pub open spec fn is_clear(s: LockView, dir: Seq<Seq<char>>) -> bool {
    &&& forall|i: int| 0 <= i < s.manual.len() ==> apart((#[trigger] s.manual[i]).dir, dir)
    &&& forall|i: int, k: int|
        0 <= i < s.automatic.len() && 0 <= k < s.automatic[i].dirs.len() ==> apart(
            #[trigger] s.automatic[i].dirs[k],
            dir,
        )
}

/// A new lock of an agent on a directory, that nothing uses yet.
pub open spec fn new_lock(owner: Seq<char>, dir: Seq<Seq<char>>, now: u128) -> ManualView {
    ManualView { owner, dir, acquired_at: now, last_used_at: now, active: seq![] }
}

/// An agent without a lock on any part of a directory owns none there.
proof fn lemma_owns_none(manual: Seq<ManualView>, owner: Seq<char>, dir: Seq<Seq<char>>)
    requires
        forall|i: int|
            0 <= i < manual.len() && (#[trigger] manual[i]).owner == owner ==> apart(
                manual[i].dir,
                dir,
            ),
    ensures
        owned_overlapping(manual, owner, seq![dir]) is None,
    decreases manual.len(),
{
    if manual.len() > 0 {
        let rest = manual.drop_first();
        assert forall|i: int|
            0 <= i < rest.len() && (#[trigger] rest[i]).owner == owner implies apart(
            rest[i].dir,
            dir,
        ) by {
            assert(rest[i] == manual[i + 1]);
        }
        lemma_owns_none(rest, owner, dir);
        assert(manual[0].owner == owner ==> apart(manual[0].dir, dir));
    }
}

/// Nothing stands in the way of a request for a directory that nobody locked.
proof fn lemma_no_conflict(s: LockView, owner: Seq<char>, dir: Seq<Seq<char>>, kind: WaitKind)
    requires
        is_clear(s, dir),
    ensures
        !s.has_conflict(owner, seq![dir], kind),
{
    assert forall|i: int| 0 <= i < s.automatic.len() implies !s.blocked_by_auto(
        #[trigger] s.automatic[i],
        owner,
        seq![dir],
        kind,
    ) by {
        assert forall|k: int| 0 <= k < s.automatic[i].dirs.len() implies apart(
            #[trigger] s.automatic[i].dirs[k],
            dir,
        ) by {}
    }
    assert forall|i: int| 0 <= i < s.manual.len() implies !s.blocked_by_manual(
        #[trigger] s.manual[i],
        owner,
        seq![dir],
        kind,
    ) by {}
}

/// An agent that asks for a directory that nobody locked, and that nobody waits for,
/// gets it at once: the lock is its own, and all other locks stay.
pub proof fn law_free_directory_is_granted(
    s: LockView,
    call_id: Seq<char>,
    owner: Seq<char>,
    dir: Seq<Seq<char>>,
    now: u128,
)
    requires
        is_clear(s, dir),
        s.waiters.len() == 0,
    ensures
        s.start_manual(call_id, owner, dir, now).1 is Granted,
        s.start_manual(call_id, owner, dir, now).0 == (LockView {
            manual: s.manual.push(new_lock(owner, dir, now)),
            ..s
        }),
        s.start_auto(call_id, owner, seq![dir], false, now).1 is Granted,
        s.start_auto(call_id, owner, seq![dir], false, now).0.automatic == s.automatic.push(
            AutoView { id: s.next_auto_id, owner, dirs: seq![dir] },
        ),
{
    lemma_no_conflict(s, owner, dir, WaitKind::Manual);
    lemma_no_conflict(s, owner, dir, WaitKind::Automatic);
    lemma_owns_none(s.manual, owner, dir);
    assert(s.start_manual(call_id, owner, dir, now).0.manual =~= s.manual.push(
        new_lock(owner, dir, now),
    ));
}

/// An agent that asks for a directory of which another agent locked a part, or a
/// part of which it locked, gets in line behind those who wait, and no lock changes.
pub proof fn law_taken_directory_is_waited_for(
    s: LockView,
    call_id: Seq<char>,
    owner: Seq<char>,
    dir: Seq<Seq<char>>,
    now: u128,
    i: int,
)
    requires
        0 <= i < s.manual.len(),
        s.manual[i].owner != owner,
        !apart(s.manual[i].dir, dir),
        s.next_waiter_id < u64::MAX,
        forall|j: int|
            0 <= j < s.manual.len() && (#[trigger] s.manual[j]).owner == owner ==> apart(
                s.manual[j].dir,
                dir,
            ),
    ensures
        s.start_manual(call_id, owner, dir, now).1 == (ManualStartView::Waiting {
            waiter: s.next_waiter_id,
        }),
        s.start_manual(call_id, owner, dir, now).0 == (LockView {
            waiters: s.waiters.push(
                WaiterView {
                    id: s.next_waiter_id,
                    call_id,
                    owner,
                    dirs: seq![dir],
                    kind: WaitKind::Manual,
                },
            ),
            next_waiter_id: (s.next_waiter_id + 1) as u64,
            ..s
        }),
        s.start_auto(call_id, owner, seq![dir], false, now).1 == (AutoStartView::Waiting {
            waiter: s.next_waiter_id,
        }),
        s.start_auto(call_id, owner, seq![dir], false, now).0.manual == s.manual,
        s.start_auto(call_id, owner, seq![dir], false, now).0.automatic == s.automatic,
{
    lemma_owns_none(s.manual, owner, dir);
    assert(seq![dir][0] == dir);
    assert(s.blocked_by_manual(s.manual[i], owner, seq![dir], WaitKind::Manual));
    assert(!covers(s.manual, owner, seq![dir])) by {
        if covers(s.manual, owner, seq![dir]) {
            assert(crate::shell::dir_lock::covered(s.manual, owner, seq![dir][0]));
        }
    }
    assert(s.blocked_by_manual(s.manual[i], owner, seq![dir], WaitKind::Automatic));
}

/// The first in line gets the directory that it waits for once nobody has it, and
/// leaves the line; the others keep their places.
pub proof fn law_first_in_line_is_served(
    s: LockView,
    dir: Seq<Seq<char>>,
    next_check: u128,
    now: u128,
    policy: LockWaitPolicy,
)
    requires
        s.waiters.len() > 0,
        s.waiters[0].dirs == seq![dir],
        is_clear(s, dir),
    ensures
        ({
            let first = s.waiters[0];
            let (manual, told) = s.poll_manual(first.id, next_check, now, policy);
            let (auto, auto_told) = s.poll_auto(first.id, false, next_check, now, policy);
            &&& told is Granted
            &&& manual.waiters == s.waiters.drop_first()
            &&& manual.manual == s.manual.push(new_lock(first.owner, dir, now))
            &&& manual.automatic == s.automatic
            &&& auto_told == (AutoPollView::Granted { id: s.next_auto_id })
            &&& auto.waiters == s.waiters.drop_first()
            &&& auto.automatic == s.automatic.push(
                AutoView { id: s.next_auto_id, owner: first.owner, dirs: seq![dir] },
            )
        }),
{
    let first = s.waiters[0];
    lemma_no_conflict(s, first.owner, dir, first.kind);
    lemma_owns_none(s.manual, first.owner, dir);
    assert(s.poll_manual(first.id, next_check, now, policy).0.manual =~= s.manual.push(
        new_lock(first.owner, dir, now),
    ));
}

/// A lock is reported as forgotten where it is of another agent, overlaps what is
/// waited for, is used by no tool and was not used for as long as it takes. What is
/// said of it is how long it is held and how long it was not used.
pub proof fn law_forgotten_lock_is_told(
    manual: Seq<ManualView>,
    owner: Seq<char>,
    dir: Seq<Seq<char>>,
    now: u128,
    after: u128,
)
    ensures
        first_abandoned(manual, owner, seq![dir], now, after) matches Some(told) ==> exists|i: int|
            0 <= i < manual.len() && is_forgotten(#[trigger] manual[i], owner, dir, now, after)
                && told.owner == manual[i].owner && told.dir == manual[i].dir && told.held_for
                == later_by(manual[i].acquired_at, now) && told.idle_for == later_by(
                manual[i].last_used_at,
                now,
            ),
        first_abandoned(manual, owner, seq![dir], now, after) is None ==> forall|i: int|
            0 <= i < manual.len() ==> !is_forgotten(#[trigger] manual[i], owner, dir, now, after),
    decreases manual.len(),
{
    assert(seq![dir][0] == dir);
    if manual.len() > 0 {
        let rest = manual.drop_first();
        law_forgotten_lock_is_told(rest, owner, dir, now, after);
        if is_forgotten(manual[0], owner, dir, now, after) {
            assert(first_abandoned(manual, owner, seq![dir], now, after) == Some(
                AbandonedView {
                    owner: manual[0].owner,
                    dir: manual[0].dir,
                    held_for: later_by(manual[0].acquired_at, now) as u128,
                    idle_for: later_by(manual[0].last_used_at, now) as u128,
                },
            ));
        } else {
            assert(first_abandoned(manual, owner, seq![dir], now, after) == first_abandoned(
                rest,
                owner,
                seq![dir],
                now,
                after,
            ));
            if first_abandoned(rest, owner, seq![dir], now, after) is Some {
                let told = first_abandoned(rest, owner, seq![dir], now, after)->Some_0;
                let i = choose|i: int|
                    0 <= i < rest.len() && is_forgotten(#[trigger] rest[i], owner, dir, now, after)
                        && told.owner == rest[i].owner && told.dir == rest[i].dir && told.held_for
                        == later_by(rest[i].acquired_at, now) && told.idle_for == later_by(
                        rest[i].last_used_at,
                        now,
                    );
                assert(manual[i + 1] == rest[i]);
                assert(is_forgotten(manual[i + 1], owner, dir, now, after));
            } else {
                assert forall|i: int| 0 <= i < manual.len() implies !is_forgotten(
                    #[trigger] manual[i],
                    owner,
                    dir,
                    now,
                    after,
                ) by {
                    if i > 0 {
                        assert(rest[i - 1] == manual[i]);
                    }
                }
            }
        }
    }
}

/// How much later a moment is than another; nothing where it is not later.
pub open spec fn later_by(then: u128, now: u128) -> int {
    if then <= now {
        now - then
    } else {
        0
    }
}

/// Whether a lock is one that another agent seems to have forgotten.
pub open spec fn is_forgotten(
    lock: ManualView,
    owner: Seq<char>,
    dir: Seq<Seq<char>>,
    now: u128,
    after: u128,
) -> bool {
    &&& lock.owner != owner
    &&& !apart(lock.dir, dir)
    &&& lock.active.len() == 0
    &&& later_by(lock.last_used_at, now) >= after
}

/// To turn a call away takes its waiters out of the line, and nothing else.
pub proof fn law_only_the_call_is_turned_away(s: LockView, call_id: Seq<char>, i: int)
    requires
        0 <= i < s.waiters.len(),
    ensures
        s.waiters[i].call_id != call_id ==> s.cancel_call(call_id).waiters.contains(s.waiters[i]),
        s.waiters[i].call_id == call_id ==> !s.cancel_call(call_id).waiters.contains(s.waiters[i]),
        s.cancel_call(call_id).manual == s.manual,
        s.cancel_call(call_id).automatic == s.automatic,
{
    lemma_keep(s.waiters, |w: WaiterView| w.call_id != call_id);
}

/// To release locks by force, or because their agent left, spares all other locks.
pub proof fn law_other_locks_are_spared(
    s: LockView,
    dir: Seq<Seq<char>>,
    owner: Seq<char>,
    i: int,
)
    requires
        0 <= i < s.manual.len(),
    ensures
        apart(s.manual[i].dir, dir) ==> s.force_unlock(dir).manual.contains(s.manual[i]),
        !apart(s.manual[i].dir, dir) ==> !s.force_unlock(dir).manual.contains(s.manual[i]),
        s.force_unlock(dir).automatic == s.automatic,
        s.force_unlock(dir).waiters == s.waiters,
        s.manual[i].owner != owner ==> s.release_agent(owner).manual.contains(s.manual[i]),
        s.manual[i].owner == owner ==> !s.release_agent(owner).manual.contains(s.manual[i]),
        s.release_agent(owner).automatic == s.automatic,
{
    lemma_keep(s.manual, |l: ManualView| !crate::path::overlap(l.dir, dir));
    lemma_keep(s.manual, |l: ManualView| l.owner != owner);
}

/// A tool that is done gives back its own lock alone.
pub proof fn law_done_tool_gives_back_its_lock(s: LockView, id: u64, now: u128, i: int)
    requires
        0 <= i < s.automatic.len(),
    ensures
        s.automatic[i].id != id ==> s.release_auto(id, now).automatic.contains(s.automatic[i]),
        s.automatic[i].id == id ==> !s.release_auto(id, now).automatic.contains(s.automatic[i]),
        s.release_auto(id, now).waiters == s.waiters,
        s.release_auto(id, now).manual.len() == s.manual.len(),
{
    lemma_keep(s.automatic, |lock: AutoView| lock.id != id);
}

/// A call of the lock tool locks the directory that it names for its agent.
pub proof fn law_lock_tool_locks(
    call: StartedView,
    dir: Seq<Seq<char>>,
    input: Seq<char>,
    owner_error: Option<Seq<char>>,
    s: LockView,
    now: u128,
)
    requires
        call.agent_id.len() > 0,
        text_field(call.arguments, "command"@) == Some("update"@),
        text_field(call.arguments, "directory"@) == Some(input),
        is_clear(s, dir),
        s.waiters.len() == 0,
    ensures
        ({
            let (locks, step) = lock_call(call, true, Ok(dir), owner_error, s, now);
            &&& locks.manual == s.manual.push(new_lock(call.agent_id, dir, now))
            &&& locks.automatic == s.automatic
            &&& locks.waiters == s.waiters
            &&& step matches DirLockStepView::Done(EventView::ToolResult { call_id, result, .. })
                && call_id == call.call_id && field(result, "locked"@) == Some(Cbor::Bool(true))
        }),
{
    law_free_directory_is_granted(s, call.call_id, call.agent_id, dir, now);
    crate::shell::dispatch_laws::law_lock_call_is_answered(
        call,
        input,
        dir,
        s,
        now,
        true,
        "update"@,
    );
}

/// A call of the lock tool unlocks the directory that it names where its agent, or
/// the agent that it names, has locked it. Where that has not, the call fails and no
/// lock changes.
pub proof fn law_lock_tool_unlocks(
    call: StartedView,
    dir: Seq<Seq<char>>,
    input: Seq<char>,
    s: LockView,
    now: u128,
)
    requires
        call.agent_id.len() > 0,
        text_field(call.arguments, "command"@) == Some("unlock"@),
        text_field(call.arguments, "directory"@) == Some(input),
        field(call.arguments, "owner_agent_id"@) is None || text_field(
            call.arguments,
            "owner_agent_id"@,
        ) is Some,
    ensures
        ({
            let owner = match text_field(call.arguments, "owner_agent_id"@) {
                Some(owner) => owner,
                None => call.agent_id,
            };
            let (locks, step) = lock_call(call, true, Ok(dir), None, s, now);
            let p = held_at(s.manual, owner, dir);
            &&& p < s.manual.len() ==> {
                &&& s.manual[p].owner == owner
                &&& s.manual[p].dir == dir
                &&& locks == (LockView { manual: s.manual.remove(p), ..s })
                &&& step matches DirLockStepView::Done(
                    EventView::ToolResult { call_id, result, .. },
                ) && call_id == call.call_id && field(result, "locked"@) == Some(Cbor::Bool(false))
            }
            &&& p >= s.manual.len() ==> {
                &&& locks == s
                &&& forall|i: int|
                    0 <= i < s.manual.len() ==> !((#[trigger] s.manual[i]).owner == owner
                        && s.manual[i].dir == dir)
                &&& step matches DirLockStepView::Done(EventView::ToolError { call_id, .. })
                    && call_id == call.call_id
            }
        }),
{
    reveal_strlit("update");
    reveal_strlit("unlock");
    assert("update"@[1] == 'p' && "unlock"@[1] == 'n');
    let owner = match text_field(call.arguments, "owner_agent_id"@) {
        Some(owner) => owner,
        None => call.agent_id,
    };
    lemma_held_at(s.manual, owner, dir);
    crate::shell::dispatch_laws::law_lock_call_is_answered(
        call,
        input,
        dir,
        s,
        now,
        false,
        "unlock"@,
    );
}

/// Where the lock of an agent on a directory stands.
proof fn lemma_held_at(manual: Seq<ManualView>, owner: Seq<char>, dir: Seq<Seq<char>>)
    ensures
        0 <= held_at(manual, owner, dir) <= manual.len(),
        held_at(manual, owner, dir) < manual.len() ==> manual[held_at(manual, owner, dir)].owner
            == owner && manual[held_at(manual, owner, dir)].dir == dir,
        forall|i: int|
            0 <= i < held_at(manual, owner, dir) ==> !((#[trigger] manual[i]).owner == owner
                && manual[i].dir == dir),
    decreases manual.len(),
{
    if manual.len() > 0 && !(manual[0].owner == owner && manual[0].dir == dir) {
        let rest = manual.drop_first();
        lemma_held_at(rest, owner, dir);
        assert forall|i: int| 0 <= i < held_at(manual, owner, dir) implies !((
        #[trigger] manual[i]).owner == owner && manual[i].dir == dir) by {
            if i > 0 {
                assert(manual[i] == rest[i - 1]);
            }
        }
    }
}

/// A call of the lock tool that is refused changes no lock, and is told why.
pub proof fn law_refused_lock_call_changes_nothing(
    call: StartedView,
    message: Seq<char>,
    owner_error: Option<Seq<char>>,
    s: LockView,
    now: u128,
    found: Result<Seq<Seq<char>>, Seq<char>>,
)
    ensures
        ({
            let (locks, step) = lock_call(call, false, found, owner_error, s, now);
            locks == s && (step matches DirLockStepView::Done(
                EventView::ToolError { call_id, .. },
            ) && call_id == call.call_id)
        }),
        text_field(call.arguments, "command"@) is None || text_field(
            call.arguments,
            "directory"@,
        ) is None || call.agent_id.len() == 0 ==> ({
            let (locks, step) = lock_call(call, true, found, owner_error, s, now);
            locks == s && (step matches DirLockStepView::Done(
                EventView::ToolError { call_id, .. },
            ) && call_id == call.call_id)
        }),
        text_field(call.arguments, "command"@) is Some && text_field(
            call.arguments,
            "directory"@,
        ) is Some && call.agent_id.len() > 0 ==> ({
            let (locks, step) = lock_call(call, true, Err(message), owner_error, s, now);
            locks == s && (step matches DirLockStepView::Done(
                EventView::ToolError { call_id, message: told, .. },
            ) && call_id == call.call_id && told == message)
        }),
{
}

/// The action that unlocks by force releases every manual lock that overlaps the
/// directory and no other; it fails where there is none.
pub proof fn law_forced_unlock_is_told(action: ActionView, dir: Seq<Seq<char>>, s: LockView)
    requires
        action.argv.len() > 0,
    ensures
        ({
            let (locks, told) = action_call(action, Ok(dir), s);
            &&& action.action_id == "shell.dir.force_unlock"@ ==> {
                &&& forall|i: int|
                    0 <= i < s.manual.len() ==> locks.manual.contains(#[trigger] s.manual[i])
                        == apart(s.manual[i].dir, dir)
                &&& locks.waiters == s.waiters
                &&& locks.automatic == s.automatic
                &&& (told is ActionResult) == exists|i: int|
                    0 <= i < s.manual.len() && !apart((#[trigger] s.manual[i]).dir, dir)
            }
            &&& action.action_id != "shell.dir.force_unlock"@ ==> locks == s && told is ActionError
            &&& match told {
                EventView::ActionResult { invocation_id, action_id, .. } => invocation_id
                    == action.invocation_id && action_id == action.action_id,
                EventView::ActionError { invocation_id, action_id, .. } => invocation_id
                    == action.invocation_id && action_id == action.action_id,
                _ => false,
            }
        }),
{
    let hit = |l: ManualView| crate::path::overlap(l.dir, dir);
    lemma_keep(s.manual, |l: ManualView| !crate::path::overlap(l.dir, dir));
    lemma_keep(s.manual, hit);
    let overlapping = s.overlapping(dir);
    assert forall|i: int| 0 <= i < s.manual.len() implies s.force_unlock(dir).manual.contains(
        #[trigger] s.manual[i],
    ) == apart(s.manual[i].dir, dir) by {
        law_other_locks_are_spared(s, dir, seq![], i);
    }
    if overlapping.len() > 0 {
        assert(s.manual.contains(overlapping[0]));
        let i = choose|i: int| 0 <= i < s.manual.len() && s.manual[i] == overlapping[0];
        assert(!apart(s.manual[i].dir, dir));
    } else {
        assert forall|i: int| 0 <= i < s.manual.len() implies apart(
            (#[trigger] s.manual[i]).dir,
            dir,
        ) by {
            if hit(s.manual[i]) {
                assert(overlapping.contains(s.manual[i]));
            }
        }
    }
}

/// What locks a directory for a tool: the path that is edited, or the directory that
/// a command runs in, which is the agent's own where none is named.
pub proof fn law_tool_locks_where_it_works(arguments: Cbor, path: Seq<char>)
    ensures
        text_field(arguments, "path"@) == Some(path) ==> (lock_target(
            "edit"@,
            arguments,
        ) matches Ok(LockTargetView::FileParent { path: locked }) && locked == path),
        text_field(arguments, "path"@) is None ==> lock_target("edit"@, arguments) is Err,
        text_field(arguments, "cwd"@) == Some(path) ==> {
            &&& lock_target("shell"@, arguments) matches Ok(
                LockTargetView::CommandDir { path: locked },
            ) && locked == path
            &&& lock_target("gpt_shell"@, arguments) matches Ok(
                LockTargetView::CommandDir { path: locked },
            ) && locked == path
        },
        field(arguments, "cwd"@) is None ==> (lock_target("shell"@, arguments) matches Ok(
            LockTargetView::CommandDir { path: locked },
        ) && locked == "."@),
        lock_target("apply_patch"@, arguments) matches Ok(target) && target is Patch,
        lock_target("read"@, arguments) is Err,
{
    reveal_strlit("edit");
    reveal_strlit("shell");
    reveal_strlit("gpt_shell");
    reveal_strlit("apply_patch");
    reveal_strlit("read");
    assert("edit"@.len() == 4 && "shell"@.len() == 5 && "gpt_shell"@.len() == 9
        && "apply_patch"@.len() == 11 && "read"@.len() == 4);
    assert("edit"@[0] == 'e' && "read"@[0] == 'r');
}

/// What only reads comes before what changes files; to unlock comes before both.
pub proof fn law_cheap_work_has_its_lane(call: StartedView)
    ensures
        call.tool_name == "dir_lock"@ ==> priority_of(call) == if text_field(
            call.arguments,
            "command"@,
        ) == Some("update"@) {
            WorkPriority::Bulk
        } else {
            WorkPriority::Control
        },
        call.tool_name == "read"@ || call.tool_name == "grep"@ || call.tool_name == "find"@
            || call.tool_name == "ls"@ ==> priority_of(call) == WorkPriority::Cheap,
        call.tool_name == "edit"@ || call.tool_name == "shell"@ || call.tool_name == "gpt_shell"@
            || call.tool_name == "apply_patch"@ || call.tool_name == "write"@ ==> priority_of(call)
            == WorkPriority::Bulk,
{
    reveal_strlit("dir_lock");
    reveal_strlit("read");
    reveal_strlit("grep");
    reveal_strlit("find");
    reveal_strlit("ls");
    reveal_strlit("edit");
    reveal_strlit("shell");
    reveal_strlit("gpt_shell");
    reveal_strlit("apply_patch");
    reveal_strlit("write");
    assert("dir_lock"@.len() == 8 && "read"@.len() == 4 && "grep"@.len() == 4 && "find"@.len() == 4
        && "ls"@.len() == 2);
    assert("edit"@.len() == 4 && "shell"@.len() == 5 && "gpt_shell"@.len() == 9
        && "apply_patch"@.len() == 11 && "write"@.len() == 5);
    assert("edit"@[0] == 'e' && "read"@[0] == 'r' && "grep"@[0] == 'g' && "find"@[0] == 'f');
}

/// The directory that is locked is the one that was found: that of a command, or the
/// parent of a file. Where there is none, the call is told the path and why.
pub proof fn law_locked_directory_is_the_one_found(
    path: Seq<char>,
    at: Seq<Seq<char>>,
    error: Seq<char>,
    absolute: Seq<char>,
    parent: Seq<char>,
    other: LookupView,
)
    ensures
        existing_dir(path, LookupView::Dir { at }) == Ok::<Seq<Seq<char>>, Seq<char>>(at),
        existing_dir(path, LookupView::File { at }) is Err,
        existing_dir(path, LookupView::Missing { error }) matches Err(told) && error.is_suffix_of(
            told,
        ),
        shell_cwd(path, LookupView::Dir { at }) matches Ok(dir) && dir == at,
        shell_cwd(path, LookupView::File { at }) is Err,
        shell_cwd(path, LookupView::Missing { error }) is Err,
        at.len() > 0 ==> (file_parent(path, LookupView::File { at }) matches Ok(dir) && dir
            == at.drop_last()),
        file_parent(path, LookupView::Dir { at }) is Err,
        file_parent(path, LookupView::Missing { error }) is Err,
        path_parent(path, Ok((absolute, Some(parent))), LookupView::Dir { at }) matches Ok(dir)
            && dir == at,
        path_parent(path, Err(error), other) is Err,
        path_parent(path, Ok((absolute, None)), other) is Err,
        at.len() > 0 ==> (update_lock_dir(
            path,
            Standing::Link,
            LookupView::File { at },
            Err(error),
            other,
        ) matches Ok(dir) && dir == at.drop_last()),
        update_lock_dir(
            path,
            Standing::Nothing,
            other,
            Ok((absolute, Some(parent))),
            LookupView::Dir { at },
        ) matches Ok(dir) && dir == at,
        update_lock_dir(
            path,
            Standing::Other,
            other,
            Ok((absolute, Some(parent))),
            LookupView::Dir { at },
        ) matches Ok(dir) && dir == at,
{
    let told = existing_dir(path, LookupView::Missing { error })->Err_0;
    assert(told.subrange(told.len() - error.len(), told.len() as int) =~= error);
}

} // verus!
