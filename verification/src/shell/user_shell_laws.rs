//! Laws of the commands that the user runs.

use vstd::prelude::*;

use crate::shell::capture::OutputStream;
use crate::shell::command::{ExitStatus, StatusPoll, WaitStep};
use crate::shell::truncate::{truncated_content, MAX_OUTPUT_BYTES, MAX_OUTPUT_LINES};
use crate::shell::user_shell::{
    captured_chunks, finishes, fresh_user_wait, merged_output, reports, ShellCommandFinished,
    ShellCommandProgress, StreamView, UiShellCommand, UserWaitView,
};
use crate::text::{decimal_of, join_of, lines_of, opt_view, utf8_len};
use crate::utf8::lossy_of;

verus! {

/// Chunks as text, each decoded by itself.
pub open spec fn texts_of(chunks: Seq<Seq<u8>>) -> Seq<Seq<char>> {
    chunks.map_values(|chunk: Seq<u8>| lossy_of(chunk))
}

/// What a command writes is captured whole while there is room for it, chunk behind
/// chunk.
pub proof fn law_output_is_captured(capture: StreamView, chunks: Seq<Seq<u8>>)
    requires
        utf8_len(capture.captured + texts_of(chunks).flatten()) < MAX_OUTPUT_BYTES,
    ensures
        captured_chunks(capture, chunks).captured == capture.captured + texts_of(chunks).flatten(),
        captured_chunks(capture, chunks).clipped == capture.clipped,
    decreases chunks.len(),
{
    if chunks.len() == 0 {
        assert(texts_of(chunks).flatten() =~= seq![]);
        assert(capture.captured + texts_of(chunks).flatten() =~= capture.captured);
    } else {
        let front = chunks.drop_last();
        let last = lossy_of(chunks.last());
        assert(texts_of(chunks) =~= texts_of(front).push(last));
        texts_of(front).lemma_flatten_push(last);
        let before = capture.captured + texts_of(front).flatten();
        assert(capture.captured + texts_of(chunks).flatten() =~= before + last);
        crate::text::lemma_utf8_len_concat(before, last);
        law_output_is_captured(capture, front);
        crate::text::lemma_clip(last, crate::shell::user_shell::room(before));
    }
}

/// What is reported holds what the command wrote to standard output and, behind a
/// line that says so, what it wrote to standard error; a note stands below.
pub proof fn law_both_streams_are_reported(stdout: Seq<char>, stderr: Seq<char>, note: Seq<char>)
    ensures
        stderr.len() == 0 ==> merged_output(stdout, stderr, false, None) == stdout,
        stdout.len() == 0 && stderr.len() > 0 ==> merged_output(stdout, stderr, false, None)
            == "[stderr]\n"@ + stderr,
        stdout.len() > 0 && stderr.len() > 0 ==> merged_output(stdout, stderr, false, None) == stdout
            + "\n[stderr]\n"@ + stderr,
        note.is_suffix_of(merged_output(stdout, stderr, false, Some(note))),
        stdout.is_prefix_of(merged_output(stdout, stderr, false, Some(note))),
        merged_output(stdout, stderr, false, None).is_prefix_of(
            merged_output(stdout, stderr, false, Some(note)),
        ),
{
    reveal_strlit("\n");
    reveal_strlit("[stderr]\n");
    reveal_strlit("\n[stderr]\n");
    assert("\n[stderr]\n"@ =~= "\n"@ + "[stderr]\n"@);
    assert(stdout + "\n"@ + "[stderr]\n"@ + stderr =~= stdout + "\n[stderr]\n"@ + stderr);
    let bare = merged_output(stdout, stderr, false, None);
    let noted = merged_output(stdout, stderr, false, Some(note));
    assert(noted.subrange(noted.len() - note.len(), noted.len() as int) =~= note);
    assert(noted.subrange(0, bare.len() as int) =~= bare);
    assert(noted.subrange(0, stdout.len() as int) =~= stdout);
}

/// The end of a command tells which one it was, what it wrote and how it ended.
pub proof fn law_end_tells_the_command(
    r: ShellCommandFinished,
    cmd: UiShellCommand,
    output: Seq<char>,
    exit_code: Option<i32>,
    cancelled: bool,
)
    requires
        finishes(r, cmd, output, exit_code, cancelled),
    ensures
        r.command_id@ == cmd.command_id@,
        r.command@ == cmd.command@,
        opt_view(r.target_agent_id) == opt_view(cmd.target_agent_id),
        r.include_in_context == cmd.include_in_context,
        r.output@ == output,
        r.exit_code == exit_code,
        r.cancelled == cancelled,
{
}

/// Output within the limits is reported line by line as it was written.
pub proof fn law_short_output_is_reported_whole(merged: Seq<char>)
    requires
        lines_of(merged).len() <= MAX_OUTPUT_LINES,
        utf8_len(merged) <= MAX_OUTPUT_BYTES,
    ensures
        truncated_content(lines_of(merged), lines_of(merged).len()) == join_of(
            lines_of(merged),
            "\n"@,
        ),
{
    crate::text::lemma_lines_bytes(merged);
    crate::shell::truncate::law_small_output_is_kept(
        lines_of(merged),
        utf8_len(join_of(lines_of(merged), "\n"@)),
    );
}

/// Every chunk is reported as it comes, with its stream and its command.
pub proof fn law_progress_is_reported(
    progress: Seq<ShellCommandProgress>,
    cmd: UiShellCommand,
    stream: OutputStream,
    chunks: Seq<Seq<u8>>,
    i: int,
)
    requires
        reports(progress, cmd, stream, chunks),
        0 <= i < chunks.len(),
    ensures
        progress.len() == chunks.len(),
        progress[i].chunk@ == lossy_of(chunks[i]),
        progress[i].stream == stream,
        progress[i].command_id@ == cmd.command_id@,
        opt_view(progress[i].target_agent_id) == opt_view(cmd.target_agent_id),
{
}

/// What comes out of an open pipe is captured as part of its stream.
pub proof fn law_open_pipes_are_captured(
    wait: UserWaitView,
    stdout: Seq<Seq<u8>>,
    stdout_closed: bool,
    stderr: Seq<Seq<u8>>,
    stderr_closed: bool,
)
    requires
        utf8_len(wait.stdout.captured + texts_of(stdout).flatten()) < MAX_OUTPUT_BYTES,
        utf8_len(wait.stderr.captured + texts_of(stderr).flatten()) < MAX_OUTPUT_BYTES,
    ensures
        ({
            let after = wait.read(stdout, stdout_closed, stderr, stderr_closed);
            &&& wait.stdout_open ==> after.stdout.captured == wait.stdout.captured + texts_of(
                stdout,
            ).flatten()
            &&& wait.stderr_open ==> after.stderr.captured == wait.stderr.captured + texts_of(
                stderr,
            ).flatten()
            &&& !wait.stdout_open ==> after.stdout == wait.stdout
            &&& !wait.stderr_open ==> after.stderr == wait.stderr
            &&& after.stdout_open == (wait.stdout_open && !stdout_closed)
            &&& after.stderr_open == (wait.stderr_open && !stderr_closed)
            &&& after.status == wait.status
            &&& after.deadline == wait.deadline
        }),
{
    law_output_is_captured(wait.stdout, stdout);
    law_output_is_captured(wait.stderr, stderr);
}

/// A command of the user is waited for until it ends or its time is up, and then
/// only for the rest of its output. It is reported with the status it ended with.
pub proof fn law_user_command_is_waited_for(
    wait: UserWaitView,
    poll: StatusPoll,
    exit: ExitStatus,
    now: u128,
)
    requires
        wait.drain_deadline is None,
        wait.status is None,
        !wait.wait_failed,
        !wait.timed_out,
    ensures
        ({
            let (after, next) = wait.decide(StatusPoll::Exited(exit), now);
            after.status == Some(exit) && next is Drain && !after.timed_out && !after.wait_failed
        }),
        ({
            let (after, next) = wait.decide(StatusPoll::Empty, now);
            &&& wait.deadline <= now ==> next is Kill && after.timed_out
            &&& now < wait.deadline ==> !after.timed_out && after.drain_deadline is None && (next
                is Poll || (next matches WaitStep::Sleep { nanos } && 0 < nanos <= wait.deadline
                - now))
        }),
        wait.decide(poll, now).0.stdout == wait.stdout,
        wait.decide(poll, now).0.stderr == wait.stderr,
        !(wait.decide(poll, now).1 is Done),
{
}

/// The rest of the output is waited for until both pipes are closed or the time for
/// it is up.
pub proof fn law_rest_of_user_output_is_waited_for(
    wait: UserWaitView,
    poll: StatusPoll,
    now: u128,
    end: u128,
)
    requires
        wait.drain_deadline == Some(end),
    ensures
        (wait.decide(poll, now).1 is Done) == ((!wait.stdout_open && !wait.stderr_open) || end
            <= now),
{
}

/// A command has as many seconds as it is given.
pub proof fn law_time_limit_is_kept(now: u128, timeout_secs: u64, has_waker: bool)
    requires
        now + timeout_secs * 1_000_000_000 <= u128::MAX,
    ensures
        fresh_user_wait(now, timeout_secs, has_waker).deadline == now + timeout_secs
            * 1_000_000_000,
        fresh_user_wait(now, timeout_secs, has_waker).stdout_open,
        fresh_user_wait(now, timeout_secs, has_waker).stderr_open,
        fresh_user_wait(now, timeout_secs, has_waker).stdout.captured.len() == 0,
        fresh_user_wait(now, timeout_secs, has_waker).stderr.captured.len() == 0,
{
}

/// A command that was killed is noted with the time that it had.
pub proof fn law_timeout_is_noted(wait: UserWaitView, timeout_secs: u64)
    ensures
        wait.timed_out ==> (wait.note(timeout_secs) matches Some(note) && note
            == "command killed after "@ + decimal_of(timeout_secs as nat) + "s timeout"@),
        !wait.timed_out && !wait.wait_failed ==> wait.note(timeout_secs) is None,
        !wait.timed_out && wait.wait_failed ==> wait.note(timeout_secs) is Some,
{
}

} // verus!
