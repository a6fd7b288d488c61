//! Commands that the user runs from the interface: what is kept of their
//! output.

use vstd::prelude::*;

use crate::shell::capture::OutputStream;
use crate::shell::command::{chunk_views, code_of, collected, later, poll_millis, poll_timeout_ms,
    ExitStatus, PipeRead, StatusPoll, WaitStep, DRAIN_AFTER_DONE_NANOS, IDLE_SLEEP_NANOS,
    NANOS_PER_SEC};
use crate::shell::truncate::{rendering, selected, truncate_tail, truncated_content,
    lemma_rendering, lemma_rendering_fits, MAX_OUTPUT_BYTES, MAX_OUTPUT_LINES};
use crate::text::{byte_len, clip, join_of, lemma_clip, lemma_lines_bytes, lemma_lines_last,
    lemma_utf8_len_concat, lemma_utf8_len_empty, decimal, decimal_of, lines_of, opt_view, utf8_len,
    utf8_prefix};
use crate::utf8::{lossy_of, lossy_text};

verus! {

/// The marker that says that output was left out.
pub const USER_OUTPUT_TRUNCATED_MARKER: &'static str = "[output truncated]";

/// What is kept of one stream of a user command.
#[derive(Debug)]
pub struct UserStreamCapture {
    pub captured: String,
    pub clipped: bool,
}

/// The bytes of the text that still fit behind what was captured.
pub open spec fn room(captured: Seq<char>) -> nat {
    if utf8_len(captured) < MAX_OUTPUT_BYTES {
        (MAX_OUTPUT_BYTES - utf8_len(captured)) as nat
    } else {
        0
    }
}

impl UserStreamCapture {
    /// A capture with nothing in it.
    pub fn new() -> (capture: Self)
        ensures
            capture.captured@ == Seq::<char>::empty(),
            !capture.clipped,
    {
        UserStreamCapture { captured: String::new(), clipped: false }
    }

    /// Adds as much of a chunk as fits in the byte limit, and remembers
    /// whether some of it did not. A full capture counts as clipped by any
    /// further chunk.
    pub fn push_chunk(&mut self, chunk: &str)
        ensures
            final(self).captured@ == old(self).captured@ + clip(chunk@, room(old(self).captured@)),
            final(self).clipped == (old(self).clipped || room(old(self).captured@) == 0
                || utf8_len(chunk@) > room(old(self).captured@)),
    {
        proof {
            lemma_clip(chunk@, room(self.captured@));
            lemma_utf8_len_empty(clip(chunk@, room(self.captured@)));
        }
        let used = byte_len(self.captured.as_str());
        if used < MAX_OUTPUT_BYTES {
            let remaining: usize = MAX_OUTPUT_BYTES - used;
            let kept = utf8_prefix(chunk, remaining);
            self.captured.append(kept.as_str());
            self.clipped = self.clipped || remaining < byte_len(chunk);
        } else {
            self.clipped = true;
            assert(self.captured@ + clip(chunk@, 0) =~= self.captured@);
        }
    }
}

/// The capture never passes the byte limit.
pub proof fn law_capture_is_bounded(captured: Seq<char>, chunk: Seq<char>)
    requires
        utf8_len(captured) <= MAX_OUTPUT_BYTES,
    ensures
        utf8_len(captured + clip(chunk, room(captured))) <= MAX_OUTPUT_BYTES,
{
    lemma_clip(chunk, room(captured));
    lemma_utf8_len_concat(captured, clip(chunk, room(captured)));
}

/// Nothing is lost unseen: what is not clipped is captured whole.
pub proof fn law_unclipped_is_whole(captured: Seq<char>, chunk: Seq<char>)
    requires
        utf8_len(chunk) <= room(captured),
    ensures
        captured + clip(chunk, room(captured)) == captured + chunk,
{
    lemma_clip(chunk, room(captured));
    assert(chunk.take(chunk.len() as int) =~= chunk);
}

/// The text with the marker as its last line, cut back so that both fit in the
/// byte limit.
pub open spec fn with_marker(output: Seq<char>) -> Seq<char> {
    let marker = USER_OUTPUT_TRUNCATED_MARKER@;
    let tail: nat = utf8_len(marker) + if output.len() == 0 {
        0nat
    } else {
        1nat
    };
    let kept = clip(output, (MAX_OUTPUT_BYTES - tail) as nat);
    if kept.len() == 0 {
        marker
    } else {
        kept + "\n"@ + marker
    }
}

/// Puts the marker behind the output as a line of its own, and cuts the output
/// where the two together would pass the byte limit.
pub fn append_guaranteed_output_truncated_marker(output: &mut String)
    ensures
        final(output)@ == with_marker(old(output)@),
{
    let ghost text = output@;
    proof {
        reveal_strlit("[output truncated]");
        reveal_strlit("\n");
        vstd::utf8::is_ascii_chars_encode_utf8("[output truncated]"@);
        lemma_utf8_len_empty(text);
    }
    let separator_len: usize = if output.as_str().is_empty() {
        0
    } else {
        1
    };
    let tail_len: usize = separator_len + byte_len(USER_OUTPUT_TRUNCATED_MARKER);
    let budget: usize = MAX_OUTPUT_BYTES - tail_len;
    let mut kept = utf8_prefix(output.as_str(), budget);
    if !kept.as_str().is_empty() {
        kept.append("\n");
    } else {
        assert(kept@ + USER_OUTPUT_TRUNCATED_MARKER@ =~= USER_OUTPUT_TRUNCATED_MARKER@);
    }
    kept.append(USER_OUTPUT_TRUNCATED_MARKER);
    *output = kept;
}

/// The output with the marker fits in the byte limit, and its last line is the
/// marker.
pub proof fn law_marker_fits(output: Seq<char>)
    ensures
        utf8_len(with_marker(output)) <= MAX_OUTPUT_BYTES,
        lines_of(with_marker(output)).len() > 0,
        lines_of(with_marker(output)).last() == USER_OUTPUT_TRUNCATED_MARKER@,
{
    let marker = USER_OUTPUT_TRUNCATED_MARKER@;
    reveal_strlit("[output truncated]");
    reveal_strlit("\n");
    vstd::utf8::is_ascii_chars_encode_utf8(marker);
    vstd::utf8::is_ascii_chars_encode_utf8("\n"@);
    let tail: nat = utf8_len(marker) + if output.len() == 0 {
        0nat
    } else {
        1nat
    };
    let budget = (MAX_OUTPUT_BYTES - tail) as nat;
    lemma_clip(output, budget);
    let kept = clip(output, budget);
    if kept.len() == 0 {
        assert(Seq::<char>::empty() + marker =~= marker);
        lemma_lines_last(Seq::<char>::empty(), marker);
    } else {
        lemma_utf8_len_concat(kept + "\n"@, marker);
        lemma_utf8_len_concat(kept, "\n"@);
        lemma_lines_last(kept + "\n"@, marker);
    }
}

/// The marker survives truncation: the truncated output still ends with it and
/// fits in the byte limit. With more than two thousand lines the `...` line
/// takes four bytes more, and the lines kept before the marker have to leave
/// room for it.
pub proof fn law_marker_survives_truncation(output: Seq<char>)
    requires
        ({
            let lines = lines_of(with_marker(output));
            lines.len() <= MAX_OUTPUT_LINES || rendering(
                selected(lines, lines.len()).drop_last(),
            ).bytes + 1 + utf8_len(USER_OUTPUT_TRUNCATED_MARKER@) <= MAX_OUTPUT_BYTES
        }),
    ensures
        ({
            let lines = lines_of(with_marker(output));
            let content = truncated_content(lines, lines.len());
            &&& USER_OUTPUT_TRUNCATED_MARKER@.is_suffix_of(content)
            &&& utf8_len(content) <= MAX_OUTPUT_BYTES
        }),
{
    let lines = lines_of(with_marker(output));
    let wanted = selected(lines, lines.len());
    let marker = USER_OUTPUT_TRUNCATED_MARKER@;
    law_marker_fits(output);
    if lines.len() <= MAX_OUTPUT_LINES {
        lemma_lines_bytes(with_marker(output));
        lemma_rendering_fits(lines);
    } else {
        assert(wanted.last() == Some(marker));
        reveal_strlit("[output truncated]");
        vstd::utf8::is_ascii_chars_encode_utf8(marker);
    }
    let shown = rendering(wanted).lines;
    lemma_rendering(wanted);
    lemma_rendering(wanted.drop_last());
    assert(shown.last() == marker);
    let content = join_of(shown, "\n"@);
    assert(content.skip(content.len() - marker.len()) =~= marker);
}

/// The output of a finished user command before it is truncated: standard
/// output, standard error under a heading, the marker where either was
/// clipped, and the note on how the command ended.
pub open spec fn merged_output(
    stdout: Seq<char>,
    stderr: Seq<char>,
    clipped: bool,
    note: Option<Seq<char>>,
) -> Seq<char> {
    let both = if stderr.len() == 0 {
        stdout
    } else if stdout.len() == 0 {
        "[stderr]\n"@ + stderr
    } else {
        stdout + "\n"@ + "[stderr]\n"@ + stderr
    };
    let marked = if clipped {
        with_marker(both)
    } else {
        both
    };
    match note {
        None => marked,
        Some(note) => if marked.len() == 0 {
            note
        } else {
            marked + "\n"@ + note
        },
    }
}

/// Merges the two streams of a user command into the output that is reported.
pub fn merged_user_shell_output(
    stdout: UserStreamCapture,
    stderr: UserStreamCapture,
    status_note: Option<String>,
) -> (output: String)
    ensures
        ({
            let merged = merged_output(
                stdout.captured@,
                stderr.captured@,
                stdout.clipped || stderr.clipped,
                opt_view(status_note),
            );
            output@ == truncated_content(lines_of(merged), lines_of(merged).len())
        }),
{
    let clipped = stdout.clipped || stderr.clipped;
    let mut merged = stdout.captured;
    if !stderr.captured.as_str().is_empty() {
        if !merged.as_str().is_empty() {
            merged.append("\n");
        } else {
            assert(merged@ + "[stderr]\n"@ =~= "[stderr]\n"@);
        }
        merged.append("[stderr]\n");
        merged.append(stderr.captured.as_str());
    }
    if clipped {
        append_guaranteed_output_truncated_marker(&mut merged);
    }
    if let Some(note) = status_note {
        if !merged.as_str().is_empty() {
            merged.append("\n");
        } else {
            assert(merged@ + note@ =~= note@);
        }
        merged.append(note.as_str());
    }
    truncate_tail(merged.as_str()).content
}

/// A command that the user asked for.
#[derive(Debug)]
pub struct UiShellCommand {
    pub command_id: String,
    pub command: String,
    pub include_in_context: bool,
    pub target_agent_id: Option<String>,
}

/// Output of a user command as it arrives.
#[derive(Debug)]
pub struct ShellCommandProgress {
    pub command_id: String,
    pub stream: OutputStream,
    pub chunk: String,
    pub target_agent_id: Option<String>,
}

/// The end of a user command.
#[derive(Debug)]
pub struct ShellCommandFinished {
    pub command_id: String,
    pub command: String,
    pub include_in_context: bool,
    pub target_agent_id: Option<String>,
    pub output: String,
    pub exit_code: Option<i32>,
    pub cancelled: bool,
}

/// Whether an end belongs to a command and reports what it should.
pub open spec fn finishes(
    r: ShellCommandFinished,
    cmd: UiShellCommand,
    output: Seq<char>,
    exit_code: Option<i32>,
    cancelled: bool,
) -> bool {
    &&& r.command_id@ == cmd.command_id@
    &&& r.command@ == cmd.command@
    &&& r.include_in_context == cmd.include_in_context
    &&& opt_view(r.target_agent_id) == opt_view(cmd.target_agent_id)
    &&& r.output@ == output
    &&& r.exit_code == exit_code
    &&& r.cancelled == cancelled
}

/// The end of a user command that could not be started.
pub fn user_shell_start_failed(cmd: UiShellCommand, error: &str) -> (r: ShellCommandFinished)
    ensures
        finishes(r, cmd, "failed to start shell command: "@ + error@, None, false),
{
    let mut output = "failed to start shell command: ".to_owned();
    output.append(error);
    ShellCommandFinished {
        command_id: cmd.command_id,
        command: cmd.command,
        include_in_context: cmd.include_in_context,
        target_agent_id: cmd.target_agent_id,
        output,
        exit_code: None,
        cancelled: false,
    }
}

/// What is captured of one stream, as mathematics.
pub struct StreamView {
    pub captured: Seq<char>,
    pub clipped: bool,
}

impl View for UserStreamCapture {
    type V = StreamView;

    open spec fn view(&self) -> StreamView {
        StreamView { captured: self.captured@, clipped: self.clipped }
    }
}

/// A capture after one more chunk.
pub open spec fn captured_chunk(capture: StreamView, chunk: Seq<char>) -> StreamView {
    StreamView {
        captured: capture.captured + clip(chunk, room(capture.captured)),
        clipped: capture.clipped || room(capture.captured) == 0 || utf8_len(chunk) > room(
            capture.captured,
        ),
    }
}

/// A capture after more chunks, each of them decoded by itself.
pub open spec fn captured_chunks(capture: StreamView, chunks: Seq<Seq<u8>>) -> StreamView
    decreases chunks.len(),
{
    if chunks.len() == 0 {
        capture
    } else {
        captured_chunk(captured_chunks(capture, chunks.drop_last()), lossy_of(chunks.last()))
    }
}

/// Whether progress reports are those of a stream's chunks, for a command.
pub open spec fn reports(
    progress: Seq<ShellCommandProgress>,
    cmd: UiShellCommand,
    stream: OutputStream,
    chunks: Seq<Seq<u8>>,
) -> bool {
    &&& progress.len() == chunks.len()
    &&& forall|i: int|
        0 <= i < chunks.len() ==> {
            let p = #[trigger] progress[i];
            &&& p.command_id@ == cmd.command_id@
            &&& p.stream == stream
            &&& p.chunk@ == lossy_of(chunks[i])
            &&& opt_view(p.target_agent_id) == opt_view(cmd.target_agent_id)
        }
}

/// The wait for a user command. Moments are nanoseconds from some origin.
#[derive(Debug)]
pub struct UserShellWait {
    pub deadline: u128,
    pub drain_deadline: Option<u128>,
    pub status: Option<ExitStatus>,
    pub wait_failed: bool,
    pub timed_out: bool,
    pub stdout_open: bool,
    pub stderr_open: bool,
    pub has_waker: bool,
    pub stdout: UserStreamCapture,
    pub stderr: UserStreamCapture,
}

/// The wait for a user command, as mathematics.
#[verifier::ext_equal]
pub struct UserWaitView {
    pub deadline: u128,
    pub drain_deadline: Option<u128>,
    pub status: Option<ExitStatus>,
    pub wait_failed: bool,
    pub timed_out: bool,
    pub stdout_open: bool,
    pub stderr_open: bool,
    pub has_waker: bool,
    pub stdout: StreamView,
    pub stderr: StreamView,
}

impl View for UserShellWait {
    type V = UserWaitView;

    open spec fn view(&self) -> UserWaitView {
        UserWaitView {
            deadline: self.deadline,
            drain_deadline: self.drain_deadline,
            status: self.status,
            wait_failed: self.wait_failed,
            timed_out: self.timed_out,
            stdout_open: self.stdout_open,
            stderr_open: self.stderr_open,
            has_waker: self.has_waker,
            stdout: self.stdout@,
            stderr: self.stderr@,
        }
    }
}

/// The wait for a user command that has just been started.
pub open spec fn fresh_user_wait(now: u128, timeout_secs: u64, has_waker: bool) -> UserWaitView {
    UserWaitView {
        deadline: later(now, timeout_secs * NANOS_PER_SEC),
        drain_deadline: None,
        status: None,
        wait_failed: false,
        timed_out: false,
        stdout_open: true,
        stderr_open: true,
        has_waker,
        stdout: StreamView { captured: seq![], clipped: false },
        stderr: StreamView { captured: seq![], clipped: false },
    }
}

impl UserWaitView {
    /// The wait after both pipes were read.
    pub open spec fn read(
        self,
        stdout: Seq<Seq<u8>>,
        stdout_closed: bool,
        stderr: Seq<Seq<u8>>,
        stderr_closed: bool,
    ) -> UserWaitView {
        UserWaitView {
            stdout_open: self.stdout_open && !stdout_closed,
            stderr_open: self.stderr_open && !stderr_closed,
            stdout: if self.stdout_open {
                captured_chunks(self.stdout, stdout)
            } else {
                self.stdout
            },
            stderr: if self.stderr_open {
                captured_chunks(self.stderr, stderr)
            } else {
                self.stderr
            },
            ..self
        }
    }

    /// One round after both pipes were read: the end of the command comes
    /// before its deadline, and both leave a short time in which output is
    /// still read.
    pub open spec fn decide(self, poll: StatusPoll, now: u128) -> (UserWaitView, WaitStep) {
        let known = self.status is Some || self.wait_failed;
        let at = if known {
            self
        } else {
            UserWaitView {
                status: collected(None, poll),
                wait_failed: poll is WaitFailed || poll is Disconnected,
                ..self
            }
        };
        let draining = UserWaitView {
            drain_deadline: Some(later(now, DRAIN_AFTER_DONE_NANOS as int)),
            ..at
        };
        match self.drain_deadline {
            None => if known || !(poll is Empty) {
                (draining, WaitStep::Drain)
            } else if self.deadline <= now {
                (UserWaitView { timed_out: true, ..draining }, WaitStep::Kill)
            } else if self.stdout_open || self.stderr_open || self.has_waker {
                (at, WaitStep::Poll { timeout_ms: poll_millis(self.deadline, now) })
            } else {
                (
                    at,
                    WaitStep::Sleep {
                        nanos: if self.deadline - now < IDLE_SLEEP_NANOS {
                            (self.deadline - now) as u128
                        } else {
                            IDLE_SLEEP_NANOS
                        },
                    },
                )
            },
            Some(end) => if (!self.stdout_open && !self.stderr_open) || end <= now {
                (at, WaitStep::Done)
            } else {
                (at, WaitStep::Poll { timeout_ms: poll_millis(end, now) })
            },
        }
    }

    /// The note on how the command ended, where it did not end by itself.
    pub open spec fn note(self, timeout_secs: u64) -> Option<Seq<char>> {
        if self.timed_out {
            Some("command killed after "@ + decimal_of(timeout_secs as nat) + "s timeout"@)
        } else if self.wait_failed {
            Some("wait failed"@)
        } else {
            None
        }
    }
}

/// Captures what was read of one stream, and reports it.
fn read_available_user_shell(
    capture: &mut UserStreamCapture,
    stream: OutputStream,
    cmd: &UiShellCommand,
    chunks: &Vec<Vec<u8>>,
) -> (progress: Vec<ShellCommandProgress>)
    ensures
        final(capture)@ == captured_chunks(old(capture)@, chunk_views(chunks@)),
        reports(progress@, *cmd, stream, chunk_views(chunks@)),
{
    let ghost all = chunk_views(chunks@);
    let mut progress: Vec<ShellCommandProgress> = Vec::new();
    let mut i: usize = 0;
    assert(all.take(0) =~= seq![]);
    while i < chunks.len()
        invariant
            i <= chunks@.len(),
            all == chunk_views(chunks@),
            capture@ == captured_chunks(old(capture)@, all.take(i as int)),
            reports(progress@, *cmd, stream, all.take(i as int)),
        decreases chunks.len() - i,
    {
        assert(all.take(i + 1).drop_last() =~= all.take(i as int));
        assert(all.take(i + 1).last() == chunks@[i as int]@);
        let chunk = lossy_text(chunks[i].as_slice());
        capture.push_chunk(chunk.as_str());
        let ghost before = progress@;
        progress.push(
            ShellCommandProgress {
                command_id: cmd.command_id.clone(),
                stream,
                chunk,
                target_agent_id: cmd.target_agent_id.clone(),
            },
        );
        i += 1;
        assert forall|j: int| 0 <= j < i implies {
            let p = #[trigger] progress@[j];
            &&& p.command_id@ == cmd.command_id@
            &&& p.stream == stream
            &&& p.chunk@ == lossy_of(all.take(i as int)[j])
            &&& opt_view(p.target_agent_id) == opt_view(cmd.target_agent_id)
        } by {
            if j < i - 1 {
                assert(progress@[j] == before[j]);
                assert(all.take(i - 1)[j] == all.take(i as int)[j]);
            }
        }
    }
    assert(all.take(i as int) =~= all);
    progress
}

impl UserShellWait {
    /// The wait for a command that was started now.
    pub fn start(now: u128, timeout_secs: u64, has_waker: bool) -> (wait: Self)
        ensures
            wait@ == fresh_user_wait(now, timeout_secs, has_waker),
    {
        assert(timeout_secs * NANOS_PER_SEC <= u64::MAX * 1_000_000_000) by (nonlinear_arith)
            requires
                timeout_secs <= u64::MAX,
                NANOS_PER_SEC == 1_000_000_000,
        ;
        let span: u128 = timeout_secs as u128 * NANOS_PER_SEC;
        assert(Seq::<char>::empty() =~= seq![]);
        UserShellWait {
            deadline: now.saturating_add(span),
            drain_deadline: None,
            status: None,
            wait_failed: false,
            timed_out: false,
            stdout_open: true,
            stderr_open: true,
            has_waker,
            stdout: UserStreamCapture::new(),
            stderr: UserStreamCapture::new(),
        }
    }

    /// One round of the wait: takes what was read of both pipes and a look at
    /// the exit status; returns the progress reports, those of standard output
    /// first, and what to do next.
    pub fn step(
        &mut self,
        cmd: &UiShellCommand,
        stdout: &PipeRead,
        stderr: &PipeRead,
        poll: StatusPoll,
        now: u128,
    ) -> (r: (Vec<ShellCommandProgress>, Vec<ShellCommandProgress>, WaitStep))
        ensures
            (final(self)@, r.2) == old(self)@.read(
                chunk_views(stdout.chunks@),
                stdout.closed,
                chunk_views(stderr.chunks@),
                stderr.closed,
            ).decide(poll, now),
            old(self).stdout_open ==> reports(
                r.0@,
                *cmd,
                OutputStream::Stdout,
                chunk_views(stdout.chunks@),
            ),
            !old(self).stdout_open ==> r.0@.len() == 0,
            old(self).stderr_open ==> reports(
                r.1@,
                *cmd,
                OutputStream::Stderr,
                chunk_views(stderr.chunks@),
            ),
            !old(self).stderr_open ==> r.1@.len() == 0,
    {
        let out = if self.stdout_open {
            read_available_user_shell(&mut self.stdout, OutputStream::Stdout, cmd, &stdout.chunks)
        } else {
            Vec::new()
        };
        let err = if self.stderr_open {
            read_available_user_shell(&mut self.stderr, OutputStream::Stderr, cmd, &stderr.chunks)
        } else {
            Vec::new()
        };
        self.stdout_open = self.stdout_open && !stdout.closed;
        self.stderr_open = self.stderr_open && !stderr.closed;
        assert(self@ =~= old(self)@.read(
            chunk_views(stdout.chunks@),
            stdout.closed,
            chunk_views(stderr.chunks@),
            stderr.closed,
        ));
        let over = self.collect_user_shell_status(poll);
        let next = match self.drain_deadline {
            None => {
                if over {
                    self.drain_deadline = Some(now.saturating_add(DRAIN_AFTER_DONE_NANOS));
                    WaitStep::Drain
                } else if self.deadline <= now {
                    self.timed_out = true;
                    self.drain_deadline = Some(now.saturating_add(DRAIN_AFTER_DONE_NANOS));
                    WaitStep::Kill
                } else if self.stdout_open || self.stderr_open || self.has_waker {
                    WaitStep::Poll { timeout_ms: poll_timeout_ms(self.deadline, now) }
                } else {
                    let left: u128 = self.deadline - now;
                    WaitStep::Sleep {
                        nanos: if left < IDLE_SLEEP_NANOS {
                            left
                        } else {
                            IDLE_SLEEP_NANOS
                        },
                    }
                }
            },
            Some(end) => {
                if (!self.stdout_open && !self.stderr_open) || end <= now {
                    WaitStep::Done
                } else {
                    WaitStep::Poll { timeout_ms: poll_timeout_ms(end, now) }
                }
            },
        };
        (out, err, next)
    }

    /// Takes one look at the exit status; says whether nothing more will be
    /// learnt of the process by waiting for it.
    fn collect_user_shell_status(&mut self, poll: StatusPoll) -> (over: bool)
        ensures
            over == (old(self).status is Some || old(self).wait_failed || !(poll is Empty)),
            final(self)@ == if old(self).status is Some || old(self).wait_failed {
                old(self)@
            } else {
                UserWaitView {
                    status: collected(None, poll),
                    wait_failed: poll is WaitFailed || poll is Disconnected,
                    ..old(self)@
                }
            },
    {
        if self.status.is_some() || self.wait_failed {
            return true;
        }
        match poll {
            StatusPoll::Exited(exit) => {
                self.status = Some(exit);
                true
            },
            StatusPoll::WaitFailed => {
                self.wait_failed = true;
                true
            },
            StatusPoll::Disconnected => {
                self.wait_failed = true;
                true
            },
            StatusPoll::Empty => false,
        }
    }

    /// The report on a command whose wait is over.
    pub fn finish(self, cmd: UiShellCommand, timeout_secs: u64) -> (r: ShellCommandFinished)
        ensures
            ({
                let merged = merged_output(
                    self@.stdout.captured,
                    self@.stderr.captured,
                    self@.stdout.clipped || self@.stderr.clipped,
                    self@.note(timeout_secs),
                );
                finishes(
                    r,
                    cmd,
                    truncated_content(lines_of(merged), lines_of(merged).len()),
                    code_of(self@.status),
                    self@.timed_out,
                )
            }),
    {
        let note = if self.timed_out {
            let mut note = "command killed after ".to_owned();
            note.append(decimal(timeout_secs).as_str());
            note.append("s timeout");
            Some(note)
        } else if self.wait_failed {
            Some("wait failed".to_owned())
        } else {
            None
        };
        let exit_code: Option<i32> = match self.status {
            Some(status) => status.code,
            None => None,
        };
        ShellCommandFinished {
            command_id: cmd.command_id,
            command: cmd.command,
            include_in_context: cmd.include_in_context,
            target_agent_id: cmd.target_agent_id,
            output: merged_user_shell_output(self.stdout, self.stderr, note),
            exit_code,
            cancelled: self.timed_out,
        }
    }
}

/// A user command is reported as stopped only where its time was up, and then
/// no later look can change it.
pub proof fn law_user_wait_ends_once(wait: UserWaitView, poll: StatusPoll, now: u128)
    ensures
        ({
            let (after, next) = wait.decide(poll, now);
            &&& after.timed_out && !wait.timed_out ==> wait.deadline <= now && next is Kill
            &&& wait.drain_deadline is Some ==> {
                &&& after.timed_out == wait.timed_out
                &&& after.drain_deadline == wait.drain_deadline
                &&& next is Done || next is Poll
            }
            &&& wait.status is Some || wait.wait_failed ==> after.status == wait.status
                && after.wait_failed == wait.wait_failed
        }),
{
}

} // verus!
