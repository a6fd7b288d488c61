//! Laws of the details that calls are told with: labels, times, errors and places.

use vstd::prelude::*;

use crate::path::path_text;
use crate::shell::capture::LineEndingKind;
use crate::shell::command::{
    access_label, command_args, mode_label, poll_millis, recorded_millis, shortened, slow_seconds,
    ShellAccessMode, ShellCommandMode,
};
use crate::shell::dir_lock::AbandonedView;
use crate::shell::dir_lock_tool::{
    abandoned_details, duplicate_details, waiting_event, whole_seconds,
};
use crate::shell::dispatch::{locked_mode, reported_wait};
use crate::shell::edit::{edit_count, edit_line};
use crate::shell::event::{EventView, StartedView};
use crate::shell::grep::{ripgrep_message, RipgrepErrorView};
use crate::shell::lock_dirs::{deepest_dir, LookupView};
use crate::shell::read::usual_ending;
use crate::shell::skills::{is_project_dir, project_candidates, user_candidates};
use crate::text_laws::{is_line, law_lines_come_back};
use crate::value::{int_field, lemma_first_entry, text_field, Cbor};

verus! {

/// A command is labelled as one that can write, or as one that can only read; what is
/// run under a lock can write.
pub proof fn law_access_is_labelled(name: Seq<char>)
    ensures
        mode_label(ShellCommandMode::Visible(ShellAccessMode::ReadOnly)) == "ro"@,
        mode_label(ShellCommandMode::Visible(ShellAccessMode::ReadWrite)) == "rw"@,
        mode_label(ShellCommandMode::HiddenReadWrite).len() == 0,
        access_label(ShellAccessMode::ReadOnly) == "ro"@,
        access_label(ShellAccessMode::ReadWrite) == "rw"@,
        name == "shell"@ || name == "gpt_shell"@ ==> locked_mode(name) == Some(
            ShellCommandMode::Visible(ShellAccessMode::ReadWrite),
        ),
{
}

/// A short line is shown whole, and of a long one both ends, twenty characters each.
pub proof fn law_long_lines_show_both_ends(line: Seq<char>)
    ensures
        line.len() <= 40 ==> shortened(line) == line,
        line.len() > 40 ==> {
            &&& shortened(line).len() == 41
            &&& shortened(line).take(20) == line.take(20)
            &&& shortened(line).skip(21) == line.skip(line.len() - 20)
        },
{
    if line.len() > 40 {
        assert(shortened(line).take(20) =~= line.take(20));
        assert(shortened(line).skip(21) =~= line.skip(line.len() - 20));
    }
}

/// How long a command took is told where it took more than five seconds, in seconds
/// that are rounded up. So is how long a lock was waited for.
pub proof fn law_long_times_are_told(nanos: u128)
    ensures
        nanos <= 5_000_000_000 ==> slow_seconds(nanos) is None && reported_wait(nanos) is None,
        5_000_000_000 < nanos <= 18_000_000_000_000_000_000_000_000_000 ==> {
            &&& slow_seconds(nanos) matches Some(secs) && (secs - 1) * 1_000_000_000 < nanos <= secs
                * 1_000_000_000
            &&& reported_wait(nanos) == slow_seconds(nanos)
        },
{
}

/// A recorded step takes its whole milliseconds, and one at least; a wait for output
/// does not last beyond its deadline.
pub proof fn law_milliseconds_are_whole(nanos: u128, deadline: u128, now: u128)
    requires
        nanos < 1_000_000_000_000_000_000_000_000,
    ensures
        nanos >= 1_000_000 ==> recorded_millis(nanos) * 1_000_000 <= nanos < (recorded_millis(nanos)
            + 1) * 1_000_000,
        nanos < 1_000_000 ==> recorded_millis(nanos) == 1,
        deadline <= now ==> poll_millis(deadline, now) == 0,
        deadline > now ==> 0 <= poll_millis(deadline, now) * 1_000_000 <= deadline - now,
        now < deadline < now + 1_000_000_000_000 ==> deadline - now < (poll_millis(deadline, now)
            + 1) * 1_000_000,
{
}

/// What went wrong with a search is told in words, with the detail that is known.
pub proof fn law_search_errors_are_told(detail: Seq<char>)
    requires
        detail.len() > 0,
    ensures
        ripgrep_message(RipgrepErrorView::Usage { detail }) == "regex parse error: "@ + detail,
        ripgrep_message(RipgrepErrorView::Runtime { detail }) == "ripgrep error: "@ + detail,
        ripgrep_message(RipgrepErrorView::NotFound) == "no such file or directory"@,
        ripgrep_message(RipgrepErrorView::Permission) == "permission denied"@,
{
}

/// The usual line ending is the one that most lines have; where no one is ahead of
/// the others there is none.
pub proof fn law_usual_ending_is_the_most_frequent(lf: nat, crlf: nat, cr: nat)
    ensures
        usual_ending(lf, crlf, cr) == Some(LineEndingKind::Lf) <==> lf > crlf && lf > cr,
        usual_ending(lf, crlf, cr) == Some(LineEndingKind::Crlf) <==> crlf > lf && crlf > cr,
        usual_ending(lf, crlf, cr) == Some(LineEndingKind::Cr) <==> cr > lf && cr > crlf,
        usual_ending(lf, crlf, cr) is Some ==> lf != crlf || crlf != cr,
{
}

/// A number of an edit is taken as it is named; one that cannot be meant is refused,
/// and one that is left out is the default.
pub proof fn law_edit_numbers_are_taken_as_named(edit: Cbor, key: Seq<char>, default: usize)
    ensures
        int_field(edit, key) is None ==> edit_count(edit, key, default) == Ok::<usize, Seq<char>>(
            default,
        ) && edit_line(edit, key, default) == Ok::<usize, Seq<char>>(default),
        int_field(edit, key) matches Some(n) ==> {
            &&& 0 <= n <= usize::MAX ==> edit_count(edit, key, default) == Ok::<usize, Seq<char>>(
                n as usize,
            )
            &&& 1 <= n <= usize::MAX ==> edit_line(edit, key, default) == Ok::<usize, Seq<char>>(
                n as usize,
            )
            &&& n < 0 || n > usize::MAX ==> edit_count(edit, key, default) is Err
            &&& n < 1 || n > usize::MAX ==> edit_line(edit, key, default) is Err
        },
{
}

/// Skills are looked for in every directory of the project, from the first on, and in
/// those of the user; the user's are not offered unasked.
pub proof fn law_skills_are_looked_for(dirs: Seq<Seq<Seq<char>>>, home: Seq<Seq<char>>, i: int)
    requires
        0 <= i < dirs.len(),
    ensures
        project_candidates(dirs).len() == 2 * dirs.len(),
        project_candidates(dirs)[2 * i].path == dirs[i] + seq![".agents"@, "skills"@],
        project_candidates(dirs)[2 * i + 1].path == dirs[i] + seq![".agents.local"@, "skills"@],
        project_candidates(dirs)[2 * i].add_to_prompt_by_default,
        project_candidates(dirs)[2 * i + 1].add_to_prompt_by_default,
        user_candidates(None).len() == 0,
        user_candidates(Some(home)).len() == 4,
        user_candidates(Some(home))[0].path == home + seq![".config"@, "agents"@, "skills"@],
        user_candidates(Some(home))[1].path == home + seq![".config"@, "agents.local"@, "skills"@],
        user_candidates(Some(home))[2].path == home + seq![".agents"@, "skills"@],
        user_candidates(Some(home))[3].path == home + seq![".agents.local"@, "skills"@],
        forall|k: int|
            0 <= k < 4 ==> !(#[trigger] user_candidates(Some(home))[k]).add_to_prompt_by_default,
    decreases dirs.len(),
{
    let before = dirs.drop_last();
    if before.len() > 0 {
        let k = if i < before.len() {
            i
        } else {
            0
        };
        law_skills_are_looked_for(before, home, k);
        assert(before[k] == dirs[k]);
    } else {
        assert(project_candidates(before).len() == 0);
    }
    assert(project_candidates(dirs).len() == project_candidates(before).len() + 2);
    let last = dirs.last();
    assert(last.push(".agents"@).push("skills"@) =~= last + seq![".agents"@, "skills"@]);
    assert(last.push(".agents.local"@).push("skills"@) =~= last + seq![
        ".agents.local"@,
        "skills"@,
    ]);
    assert(home.push(".config"@).push("agents"@).push("skills"@) =~= home + seq![
        ".config"@,
        "agents"@,
        "skills"@,
    ]);
    assert(home.push(".config"@).push("agents.local"@).push("skills"@) =~= home + seq![
        ".config"@,
        "agents.local"@,
        "skills"@,
    ]);
    assert(home.push(".agents"@).push("skills"@) =~= home + seq![".agents"@, "skills"@]);
    assert(home.push(".agents.local"@).push("skills"@) =~= home + seq![
        ".agents.local"@,
        "skills"@,
    ]);
}

/// A directory above that of the agent belongs to the project unless it is the root;
/// below the user's home, only what lies in the home and is not the home itself.
pub proof fn law_home_is_no_project(
    dir: Seq<Seq<char>>,
    cwd: Seq<Seq<char>>,
    home: Seq<Seq<char>>,
)
    ensures
        !is_project_dir(seq![], cwd, Some(home)),
        home.is_prefix_of(cwd) ==> !is_project_dir(home, cwd, Some(home)),
        dir.len() > 0 ==> is_project_dir(dir, cwd, None),
        dir.len() > 0 && !home.is_prefix_of(cwd) ==> is_project_dir(dir, cwd, Some(home)),
        home.is_prefix_of(cwd) && home.is_prefix_of(dir) && dir != home ==> is_project_dir(
            dir,
            cwd,
            Some(home),
        ),
        home.is_prefix_of(cwd) && !home.is_prefix_of(dir) ==> !is_project_dir(dir, cwd, Some(home)),
{
    if home.is_prefix_of(cwd) && home.is_prefix_of(dir) && dir != home {
        if dir.len() == 0 {
            assert(home =~= dir);
        }
    }
}

/// The directory that is locked for a path is the first that is there, from the path
/// upwards.
pub proof fn law_deepest_directory_is_taken(
    path: Seq<char>,
    found: Seq<LookupView>,
    at: Seq<Seq<char>>,
    i: int,
)
    requires
        0 <= i < found.len(),
        found[i] == (LookupView::Dir { at }),
        forall|k: int| 0 <= k < i ==> !((#[trigger] found[k]) is Dir),
    ensures
        deepest_dir(path, found) == Ok::<Seq<Seq<char>>, Seq<char>>(at),
    decreases i,
{
    if i > 0 {
        let rest = found.drop_first();
        assert(!(found[0] is Dir));
        assert forall|k: int| 0 <= k < i - 1 implies !((#[trigger] rest[k]) is Dir) by {
            assert(rest[k] == found[k + 1]);
        }
        law_deepest_directory_is_taken(path, rest, at, i - 1);
    }
}

/// An agent that is in the way of itself is told the directory that it holds and the
/// one that it asked for; one that waits for a forgotten lock is told whose it is, and
/// for how long it was not used.
pub proof fn law_lock_in_the_way_is_told(
    owner: Seq<char>,
    held: Seq<Seq<char>>,
    asked: Seq<Seq<char>>,
    lock: AbandonedView,
)
    requires
        lock.idle_for < 1_000_000_000_000_000_000,
        lock.held_for < 1_000_000_000_000_000_000,
    ensures
        ({
            let told = duplicate_details(owner, held, asked);
            &&& text_field(told, "blocking_directory"@) == Some(path_text(held))
            &&& text_field(told, "requested_directory"@) == Some(path_text(asked))
            &&& text_field(told, "lock_owner_id"@) == Some(owner)
        }),
        ({
            let told = abandoned_details(lock);
            &&& text_field(told, "blocking_directory"@) == Some(path_text(lock.dir))
            &&& text_field(told, "lock_owner_id"@) == Some(lock.owner)
            &&& int_field(told, "idle_seconds"@) == Some((lock.idle_for / 1_000_000_000) as i64)
            &&& int_field(told, "held_seconds"@) == Some((lock.held_for / 1_000_000_000) as i64)
        }),
{
    reveal_strlit("blocking_directory");
    reveal_strlit("requested_directory");
    reveal_strlit("lock_owner_id");
    reveal_strlit("idle_seconds");
    reveal_strlit("held_seconds");
    assert("blocking_directory"@.len() == 18 && "requested_directory"@.len() == 19
        && "lock_owner_id"@.len() == 13);
    assert("idle_seconds"@.len() == 12 && "held_seconds"@.len() == 12);
    assert("idle_seconds"@[0] == 'i' && "held_seconds"@[0] == 'h');
    let duplicate = duplicate_details(owner, held, asked)->Dict_0;
    lemma_first_entry(duplicate, "blocking_directory"@, 0);
    lemma_first_entry(duplicate, "requested_directory"@, 1);
    lemma_first_entry(duplicate, "lock_owner_id"@, 2);
    let abandoned = abandoned_details(lock)->Dict_0;
    lemma_first_entry(abandoned, "blocking_directory"@, 0);
    lemma_first_entry(abandoned, "lock_owner_id"@, 1);
    lemma_first_entry(abandoned, "idle_seconds"@, 2);
    lemma_first_entry(abandoned, "held_seconds"@, 3);
    assert(whole_seconds(lock.idle_for) == lock.idle_for / 1_000_000_000);
}

/// A call that waits for a lock reports that it does.
pub proof fn law_waiting_call_is_reported(
    call: StartedView,
    dir: Seq<Seq<char>>,
    mode: Option<ShellCommandMode>,
)
    ensures
        waiting_event(call, seq![dir], mode) matches EventView::ToolProgress {
            call_id,
            tool_name,
            message,
            ..
        } && call_id == call.call_id && tool_name == call.tool_name && message is Some,
{
}

/// A command is shown by its first line.
pub proof fn law_command_is_shown_by_its_first_line(line: Seq<char>)
    requires
        is_line(line),
        0 < line.len() <= 40,
    ensures
        command_args(line) == line,
{
    law_lines_come_back(seq![line]);
}

} // verus!
