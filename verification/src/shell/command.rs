//! The `shell` tool: what a command call asks for, how its child process is
//! waited for, and what is reported of it.

use vstd::prelude::*;

use crate::shell::capture::{CaptureView, CapturedOutput, OutputStream};
use crate::shell::display::{
    chip_text, ok_display, plain_display, plain_state, stats_of, text_stats, FailureView,
    OutputView, PayloadView, StateView, ToolFailure, ToolOutput, ToolUsePayload, ToolUseState,
    ToolUseStatus, failure, opt_payload,
};
use crate::shell::truncate::{is_truncated, truncated_content};
use crate::text::{chars_of, lines, lines_of, opt_view, signed_decimal, signed_decimal_of, text_of,
    views};
use crate::value::{argument_error, argument_text, cbor_map_text, entry, entry_if, entry_views,
    field, group_cbor_views, int_field, is_absent, optional_argument_int_strict,
    optional_argument_text_strict, push_entry, text_field, Cbor, CborValue};

verus! {

/// Seconds that a command may run where the call says nothing.
pub const DEFAULT_TIMEOUT_SECS: u64 = 120;

/// Seconds after which the duration of a command is reported.
pub const SLOW_COMMAND_EXEC_TIME_THRESHOLD_SECS: u64 = 5;

/// How much faster than recorded a finished command is replayed.
pub const VCR_REPLAY_SPEEDUP: u64 = 100;

/// Nanoseconds in a second.
pub const NANOS_PER_SEC: u128 = 1_000_000_000;

/// Nanoseconds in a millisecond.
pub const NANOS_PER_MILLI: u128 = 1_000_000;

/// How long output is still read after a command is done, in nanoseconds.
pub const DRAIN_AFTER_DONE_NANOS: u128 = 50_000_000;

/// Longest sleep where there is nothing to poll, in nanoseconds.
pub const IDLE_SLEEP_NANOS: u128 = 25_000_000;

/// File system access that is inferred for a shell command.
#[derive(Clone, Copy, Debug, PartialEq, Eq, Structural)]
pub enum ShellAccessMode {
    ReadOnly,
    ReadWrite,
}

/// Shell mode, and whether the interface shows it.
#[derive(Clone, Copy, Debug, PartialEq, Eq, Structural)]
pub enum ShellCommandMode {
    /// Read-write with no mode chip: directory locking is off.
    HiddenReadWrite,
    /// An inferred mode that is shown: directory locking is on.
    Visible(ShellAccessMode),
}

/// The chip of an access mode.
pub open spec fn access_label(access: ShellAccessMode) -> Seq<char> {
    match access {
        ShellAccessMode::ReadOnly => "ro"@,
        ShellAccessMode::ReadWrite => "rw"@,
    }
}

/// The chip of a command mode; empty where none is shown.
pub open spec fn mode_label(mode: ShellCommandMode) -> Seq<char> {
    match mode {
        ShellCommandMode::HiddenReadWrite => seq![],
        ShellCommandMode::Visible(access) => access_label(access),
    }
}

impl ShellAccessMode {
    /// The chip of the mode.
    pub fn display_label(self) -> (label: &'static str)
        ensures
            label@ == access_label(self),
    {
        match self {
            ShellAccessMode::ReadOnly => "ro",
            ShellAccessMode::ReadWrite => "rw",
        }
    }
}

impl ShellCommandMode {
    /// A mode that is shown.
    pub fn visible(access: ShellAccessMode) -> (mode: Self)
        ensures
            mode == ShellCommandMode::Visible(access),
    {
        ShellCommandMode::Visible(access)
    }

    /// The access that the mode gives.
    pub fn access(self) -> (access: ShellAccessMode)
        ensures
            access == match self {
                ShellCommandMode::HiddenReadWrite => ShellAccessMode::ReadWrite,
                ShellCommandMode::Visible(access) => access,
            },
    {
        match self {
            ShellCommandMode::HiddenReadWrite => ShellAccessMode::ReadWrite,
            ShellCommandMode::Visible(access) => access,
        }
    }

    /// The chip of the mode; empty where none is shown.
    pub fn display_label(self) -> (label: String)
        ensures
            label@ == mode_label(self),
    {
        match self {
            ShellCommandMode::HiddenReadWrite => {
                let label = String::new();
                assert(label@ =~= seq![]);
                label
            },
            ShellCommandMode::Visible(access) => access.display_label().to_owned(),
        }
    }
}

/// Characters kept at each end of a long command line.
pub const EDGE_CHARS: usize = 20;

/// A command line that fits beside the tool's name: both ends of a long one.
pub open spec fn shortened(line: Seq<char>) -> Seq<char> {
    if line.len() <= 2 * EDGE_CHARS {
        line
    } else {
        line.take(EDGE_CHARS as int).push('┄') + line.skip(line.len() - EDGE_CHARS)
    }
}

/// Cuts a long command line to its two ends.
pub fn shorten_command_line(line: &str) -> (short: String)
    ensures
        short@ == shortened(line@),
{
    let chars = chars_of(line);
    let n: usize = chars.len();
    if n <= EDGE_CHARS * 2 {
        return line.to_owned();
    }
    let mut short = text_of(&chars, 0, EDGE_CHARS);
    assert(short@ =~= line@.take(EDGE_CHARS as int));
    short.push('┄');
    let tail = text_of(&chars, n - EDGE_CHARS, n);
    assert(tail@ =~= line@.skip(n - EDGE_CHARS));
    short.append(tail.as_str());
    short
}

/// The label of a command: its first line, shortened.
pub open spec fn command_args(command: Seq<char>) -> Seq<char> {
    let list = lines_of(command);
    shortened(
        if list.len() == 0 {
            seq![]
        } else {
            list[0]
        },
    )
}

/// The label of a command.
pub fn command_display_args(command: &str) -> (args: String)
    ensures
        args@ == command_args(command@),
{
    let list = lines(command);
    assert(views(list@).len() == list@.len());
    if list.is_empty() {
        let empty = String::new();
        assert(empty@ =~= seq![]);
        shorten_command_line(empty.as_str())
    } else {
        assert(lines_of(command@)[0] == list@[0]@);
        shorten_command_line(list[0].as_str())
    }
}

/// What is shown below a command: all of it, where it has more than one line.
pub open spec fn command_payload(command: Seq<char>) -> Option<PayloadView> {
    if lines_of(command).len() < 2 {
        None
    } else {
        Some(PayloadView::Text { text: command })
    }
}

/// What is shown below a command.
pub fn command_display_payload(command: &str) -> (payload: Option<ToolUsePayload>)
    ensures
        opt_payload(payload) == command_payload(command@),
{
    let list = lines(command);
    assert(lines_of(command@).len() == list@.len());
    if list.len() < 2 {
        return None;
    }
    Some(ToolUsePayload::Text { text: command.to_owned() })
}

/// The description of a command that has just been started.
pub fn initial_display(
    arguments: &CborValue,
    command_mode: ShellCommandMode,
    progress_text: &str,
) -> (state: ToolUseState)
    ensures
        ({
            let command = match text_field(arguments@, "command"@) {
                Some(command) => command,
                None => seq![],
            };
            state@ == (StateView {
                mode: mode_label(command_mode),
                payload: command_payload(command),
                ..plain_state(command_args(command), ToolUseStatus::InProgress, progress_text@)
            })
        }),
{
    let command = match cbor_map_text(arguments, "command") {
        Some(command) => command,
        None => {
            let empty = String::new();
            assert(empty@ =~= seq![]);
            empty
        },
    };
    let args = command_display_args(command.as_str());
    let mut state = plain_display(args.as_str(), ToolUseStatus::InProgress, progress_text);
    state.mode = command_mode.display_label();
    state.payload = command_display_payload(command.as_str());
    state
}

/// The seconds that a command may run, or why the call does not say.
pub open spec fn timeout_of(arguments: Cbor) -> Result<u64, Seq<char>> {
    if is_absent(field(arguments, "timeout"@)) {
        Ok(DEFAULT_TIMEOUT_SECS)
    } else {
        match int_field(arguments, "timeout"@) {
            None => Err(argument_error("timeout"@, "an integer"@)),
            Some(n) => if n < 0 {
                Err("argument `timeout` must be non-negative"@)
            } else {
                Ok(n as u64)
            },
        }
    }
}

/// The view of a result with a message.
pub open spec fn result_view<T>(result: Result<T, String>) -> Result<T, Seq<char>> {
    match result {
        Ok(value) => Ok(value),
        Err(message) => Err(message@),
    }
}

/// The seconds that a command may run.
pub fn parse_timeout_secs(arguments: &CborValue) -> (timeout: Result<u64, String>)
    ensures
        result_view(timeout) == timeout_of(arguments@),
{
    match optional_argument_int_strict(arguments, "timeout") {
        Err(message) => Err(message),
        Ok(None) => Ok(DEFAULT_TIMEOUT_SECS),
        Ok(Some(n)) => {
            if n < 0 {
                Err("argument `timeout` must be non-negative".to_owned())
            } else {
                Ok(n as u64)
            }
        },
    }
}

/// What is reported of a command in its result.
#[derive(Debug)]
pub struct CommandDetails {
    pub status: Option<i32>,
    pub signal: Option<i32>,
    pub timed_out: bool,
    pub duration_seconds: Option<u64>,
    pub termination_reason: TerminationReason,
    pub total_lines: Option<usize>,
    pub total_bytes: Option<usize>,
    pub output: String,
    pub truncated: bool,
    pub valid_utf8: bool,
}

/// Why a command came to its end.
#[derive(Clone, Copy, Debug, PartialEq, Eq, Structural)]
pub enum TerminationReason {
    Cancelled,
    Timeout,
    Signal,
    Exit,
    Unknown,
    StartError,
}

/// The word for a reason.
pub open spec fn reason_text(reason: TerminationReason) -> Seq<char> {
    match reason {
        TerminationReason::Cancelled => "cancelled"@,
        TerminationReason::Timeout => "timeout"@,
        TerminationReason::Signal => "signal"@,
        TerminationReason::Exit => "exit"@,
        TerminationReason::Unknown => "unknown"@,
        TerminationReason::StartError => "start_error"@,
    }
}

impl TerminationReason {
    /// The word for the reason.
    pub fn text(self) -> (text: &'static str)
        ensures
            text@ == reason_text(self),
    {
        match self {
            TerminationReason::Cancelled => "cancelled",
            TerminationReason::Timeout => "timeout",
            TerminationReason::Signal => "signal",
            TerminationReason::Exit => "exit",
            TerminationReason::Unknown => "unknown",
            TerminationReason::StartError => "start_error",
        }
    }
}

/// A number in an entry, where there is one.
pub open spec fn int_entry(key: &str, number: Option<int>) -> Seq<(Cbor, Cbor)> {
    match number {
        Some(n) => seq![entry(key, Cbor::Integer(n))],
        None => seq![],
    }
}

/// A count as it is written into a result: in 64 bits with a sign.
pub open spec fn as_i64(n: int) -> int {
    if n <= i64::MAX {
        n
    } else {
        n - 0x1_0000_0000_0000_0000
    }
}

/// The entries of a command's result. Only what is out of the ordinary has
/// one, beside the output and the exit status.
pub open spec fn details_entries(
    output: Seq<char>,
    status: Option<i32>,
    signal: Option<i32>,
    timed_out: bool,
    duration_seconds: Option<u64>,
    reason: TerminationReason,
    truncated: bool,
    total_lines: Option<usize>,
    total_bytes: Option<usize>,
    valid_utf8: bool,
) -> Seq<(Cbor, Cbor)> {
    seq![entry("output", Cbor::Text(output))] + entry_if(
        !valid_utf8,
        "valid_utf8",
        Cbor::Bool(false),
    ) + entry_if(timed_out, "timed_out", Cbor::Bool(true)) + entry_if(
        timed_out || signal is Some || status != Some(0i32) || reason != TerminationReason::Exit,
        "termination_reason",
        Cbor::Text(reason_text(reason)),
    ) + entry_if(truncated, "truncated", Cbor::Bool(true)) + int_entry(
        "total_lines",
        match total_lines {
            Some(n) if truncated => Some(as_i64(n as int)),
            _ => None,
        },
    ) + int_entry(
        "total_bytes",
        match total_bytes {
            Some(n) if truncated => Some(as_i64(n as int)),
            _ => None,
        },
    ) + int_entry(
        "status",
        match status {
            Some(n) => Some(n as int),
            None => None,
        },
    ) + int_entry(
        "signal",
        match signal {
            Some(n) => Some(n as int),
            None => None,
        },
    ) + int_entry(
        "duration_seconds",
        match duration_seconds {
            Some(n) => Some(as_i64(n as int)),
            None => None,
        },
    )
}

/// Adds an entry where a condition holds.
fn push_if(
    entries: &mut Vec<(CborValue, CborValue)>,
    condition: bool,
    key: &str,
    value: CborValue,
)
    ensures
        entry_views(final(entries)@) == entry_views(old(entries)@) + entry_if(
            condition,
            key,
            value@,
        ),
{
    if condition {
        push_entry(entries, key, value);
        assert(entry_views(entries@) =~= entry_views(old(entries)@) + seq![entry(key, value@)]);
    } else {
        assert(entry_views(entries@) =~= entry_views(old(entries)@) + seq![]);
    }
}

/// Adds an entry for a number, where there is one.
fn push_int(entries: &mut Vec<(CborValue, CborValue)>, key: &str, number: Option<i128>)
    ensures
        entry_views(final(entries)@) == entry_views(old(entries)@) + int_entry(
            key,
            match number {
                Some(n) => Some(n as int),
                None => None,
            },
        ),
{
    match number {
        Some(n) => {
            push_entry(entries, key, CborValue::Integer(n));
            assert(entry_views(entries@) =~= entry_views(old(entries)@) + seq![
                entry(key, Cbor::Integer(n as int)),
            ]);
        },
        None => {
            assert(entry_views(entries@) =~= entry_views(old(entries)@) + seq![]);
        },
    }
}

/// A count in 64 bits with a sign.
fn to_i64(n: u64) -> (value: i128)
    ensures
        value == as_i64(n as int),
{
    let wide: i128 = n as i128;
    if wide <= 9223372036854775807i128 {
        wide
    } else {
        wide - 18446744073709551616i128
    }
}

/// The result of a command for the agent.
pub fn command_details_value(details: CommandDetails) -> (value: CborValue)
    ensures
        value@ == Cbor::Dict(
            details_entries(
                details.output@,
                details.status,
                details.signal,
                details.timed_out,
                details.duration_seconds,
                details.termination_reason,
                details.truncated,
                details.total_lines,
                details.total_bytes,
                details.valid_utf8,
            ),
        ),
{
    broadcast use group_cbor_views;

    let mut entries: Vec<(CborValue, CborValue)> = Vec::new();
    assert(entry_views(entries@) =~= seq![]);
    push_entry(&mut entries, "output", CborValue::Text(details.output));
    assert(entry_views(entries@) =~= seq![entry("output", Cbor::Text(details.output@))]);
    push_if(&mut entries, !details.valid_utf8, "valid_utf8", CborValue::Bool(false));
    push_if(&mut entries, details.timed_out, "timed_out", CborValue::Bool(true));
    let clean_exit = match details.status {
        Some(status) => status == 0,
        None => false,
    };
    push_if(
        &mut entries,
        details.timed_out || details.signal.is_some() || !clean_exit || details.termination_reason
            != TerminationReason::Exit,
        "termination_reason",
        crate::value::text_value(details.termination_reason.text()),
    );
    push_if(&mut entries, details.truncated, "truncated", CborValue::Bool(true));
    let lines_entry: Option<i128> = match details.total_lines {
        Some(n) => if details.truncated {
            Some(to_i64(n as u64))
        } else {
            None
        },
        None => None,
    };
    push_int(&mut entries, "total_lines", lines_entry);
    let bytes_entry: Option<i128> = match details.total_bytes {
        Some(n) => if details.truncated {
            Some(to_i64(n as u64))
        } else {
            None
        },
        None => None,
    };
    push_int(&mut entries, "total_bytes", bytes_entry);
    let status_entry: Option<i128> = match details.status {
        Some(n) => Some(n as i128),
        None => None,
    };
    push_int(&mut entries, "status", status_entry);
    let signal_entry: Option<i128> = match details.signal {
        Some(n) => Some(n as i128),
        None => None,
    };
    push_int(&mut entries, "signal", signal_entry);
    let duration_entry: Option<i128> = match details.duration_seconds {
        Some(n) => Some(to_i64(n)),
        None => None,
    };
    push_int(&mut entries, "duration_seconds", duration_entry);
    CborValue::Dict(entries)
}

/// How a child process ended.
#[derive(Clone, Copy, Debug, PartialEq, Eq, Structural)]
pub struct ExitStatus {
    /// The exit code; none where a signal ended the process.
    pub code: Option<i32>,
    /// The signal that ended the process.
    pub signal: Option<i32>,
}

/// Everything that is known of a command when it is over.
#[derive(Debug)]
pub struct WaitResult {
    pub status_code: Option<i32>,
    pub signal: Option<i32>,
    pub success: bool,
    pub output: CapturedOutput,
    pub had_invalid_utf8: bool,
    pub timed_out: bool,
    pub cancelled: bool,
    pub termination_reason: TerminationReason,
}

/// The exit code of a status that may be missing.
pub open spec fn code_of(status: Option<ExitStatus>) -> Option<i32> {
    match status {
        Some(status) => status.code,
        None => None,
    }
}

/// The signal of a status that may be missing.
pub open spec fn signal_of(status: Option<ExitStatus>) -> Option<i32> {
    match status {
        Some(status) => status.signal,
        None => None,
    }
}

/// Why a command ended: a request to stop it comes before its time limit, and
/// both before what the process itself did.
pub open spec fn reason_of(
    status: Option<ExitStatus>,
    timed_out: bool,
    cancelled: bool,
) -> TerminationReason {
    if cancelled {
        TerminationReason::Cancelled
    } else if timed_out {
        TerminationReason::Timeout
    } else if signal_of(status) is Some {
        TerminationReason::Signal
    } else if status is Some {
        TerminationReason::Exit
    } else {
        TerminationReason::Unknown
    }
}

/// What is known of a command, put together from its parts.
pub open spec fn wait_parts(
    r: WaitResult,
    status: Option<ExitStatus>,
    timed_out: bool,
    cancelled: bool,
    output: CaptureView,
) -> bool {
    &&& r.status_code == code_of(status)
    &&& r.signal == signal_of(status)
    &&& r.success == (!timed_out && !cancelled && code_of(status) == Some(0i32))
    &&& r.output@ == output
    &&& r.had_invalid_utf8 == (output.stdout.had_invalid || output.stderr.had_invalid)
    &&& r.timed_out == timed_out
    &&& r.cancelled == cancelled
    &&& r.termination_reason == reason_of(status, timed_out, cancelled)
}

/// Puts together what is known of a command when it is over.
pub fn wait_result_from_parts(
    status: Option<ExitStatus>,
    timed_out: bool,
    cancelled: bool,
    output: CapturedOutput,
) -> (r: WaitResult)
    ensures
        wait_parts(r, status, timed_out, cancelled, output@),
{
    let (status_code, signal): (Option<i32>, Option<i32>) = match status {
        Some(status) => (status.code, status.signal),
        None => (None, None),
    };
    let exited_clean = match status_code {
        Some(code) => code == 0,
        None => false,
    };
    let termination_reason = if cancelled {
        TerminationReason::Cancelled
    } else if timed_out {
        TerminationReason::Timeout
    } else if signal.is_some() {
        TerminationReason::Signal
    } else if status.is_some() {
        TerminationReason::Exit
    } else {
        TerminationReason::Unknown
    };
    WaitResult {
        status_code,
        signal,
        success: !timed_out && !cancelled && exited_clean,
        had_invalid_utf8: output.had_invalid_utf8(),
        output,
        timed_out,
        cancelled,
        termination_reason,
    }
}

/// What one look at a child's exit status gave.
#[derive(Clone, Copy, Debug, PartialEq, Eq)]
pub enum StatusPoll {
    /// The process has ended.
    Exited(ExitStatus),
    /// Waiting for the process failed.
    WaitFailed,
    /// The process still runs.
    Empty,
    /// Whoever waits for the process is gone.
    Disconnected,
}

/// What was read from a pipe until it had nothing more, and whether its end
/// was reached.
#[derive(Debug)]
pub struct PipeRead {
    pub chunks: Vec<Vec<u8>>,
    pub closed: bool,
}

/// The chunks of a pipe, as mathematics.
pub open spec fn chunk_views(chunks: Seq<Vec<u8>>) -> Seq<Seq<u8>> {
    chunks.map_values(|c: Vec<u8>| c@)
}

/// What to do next while a command is waited for.
#[derive(Clone, Copy, Debug, PartialEq, Eq)]
pub enum WaitStep {
    /// Wait until a pipe or the waker has something, at most this long.
    Poll { timeout_ms: i32 },
    /// There is nothing to poll: sleep.
    Sleep { nanos: u128 },
    /// The process is over: look again for the rest of its output.
    Drain,
    /// Kill the process group, then look again for the rest of its output.
    Kill,
    /// The wait is over.
    Done,
}

/// Milliseconds to poll for until a deadline.
pub open spec fn poll_millis(deadline: u128, now: u128) -> i32 {
    if deadline <= now {
        0
    } else if (deadline - now) / NANOS_PER_MILLI as int > i32::MAX {
        i32::MAX
    } else {
        ((deadline - now) / NANOS_PER_MILLI as int) as i32
    }
}

/// Milliseconds to poll for until a deadline.
pub fn poll_timeout_ms(deadline: u128, now: u128) -> (millis: i32)
    ensures
        millis == poll_millis(deadline, now),
{
    if deadline <= now {
        return 0;
    }
    let remaining: u128 = (deadline - now) / NANOS_PER_MILLI;
    if remaining > 2147483647u128 {
        i32::MAX
    } else {
        remaining as i32
    }
}

/// A moment some time later, in machine arithmetic.
pub open spec fn later(now: u128, nanos: int) -> u128 {
    if now + nanos <= u128::MAX {
        (now + nanos) as u128
    } else {
        u128::MAX
    }
}

/// The wait for a command: its deadline, what is known of its end, and what
/// has been read of its output. Moments are nanoseconds from some origin.
#[derive(Debug)]
pub struct ShellWait {
    pub deadline: u128,
    /// Until when output is still read; set once the command is over.
    pub drain_deadline: Option<u128>,
    pub status: Option<ExitStatus>,
    pub timed_out: bool,
    pub cancelled: bool,
    pub stdout_open: bool,
    pub stderr_open: bool,
    /// Whether the end of the process wakes a poll.
    pub has_waker: bool,
    pub output: CapturedOutput,
}

/// The wait for a command, as mathematics.
#[verifier::ext_equal]
pub struct WaitView {
    pub deadline: u128,
    pub drain_deadline: Option<u128>,
    pub status: Option<ExitStatus>,
    pub timed_out: bool,
    pub cancelled: bool,
    pub stdout_open: bool,
    pub stderr_open: bool,
    pub has_waker: bool,
    pub output: CaptureView,
}

impl View for ShellWait {
    type V = WaitView;

    open spec fn view(&self) -> WaitView {
        WaitView {
            deadline: self.deadline,
            drain_deadline: self.drain_deadline,
            status: self.status,
            timed_out: self.timed_out,
            cancelled: self.cancelled,
            stdout_open: self.stdout_open,
            stderr_open: self.stderr_open,
            has_waker: self.has_waker,
            output: self.output@,
        }
    }
}

/// Chunks of one stream, captured in order.
pub open spec fn capture_chunks(
    output: CaptureView,
    stream: OutputStream,
    chunks: Seq<Seq<u8>>,
) -> CaptureView
    decreases chunks.len(),
{
    if chunks.len() == 0 {
        output
    } else {
        capture_chunks(output, stream, chunks.drop_last()).push_bytes(stream, chunks.last())
    }
}

/// What a look at the exit status adds to what is known. A status that is known
/// is never looked for again.
pub open spec fn collected(status: Option<ExitStatus>, poll: StatusPoll) -> Option<ExitStatus> {
    if status is Some {
        status
    } else {
        match poll {
            StatusPoll::Exited(exit) => Some(exit),
            _ => None,
        }
    }
}

/// Whether nothing more will be learnt of a process by waiting for it.
pub open spec fn is_over(status: Option<ExitStatus>, poll: StatusPoll) -> bool {
    status is Some || !(poll is Empty)
}

impl WaitView {
    /// The wait after both pipes were read.
    pub open spec fn read(
        self,
        stdout: Seq<Seq<u8>>,
        stdout_closed: bool,
        stderr: Seq<Seq<u8>>,
        stderr_closed: bool,
    ) -> WaitView {
        let first = if self.stdout_open {
            capture_chunks(self.output, OutputStream::Stdout, stdout)
        } else {
            self.output
        };
        WaitView {
            stdout_open: self.stdout_open && !stdout_closed,
            stderr_open: self.stderr_open && !stderr_closed,
            output: if self.stderr_open {
                capture_chunks(first, OutputStream::Stderr, stderr)
            } else {
                first
            },
            ..self
        }
    }

    /// One round after both pipes were read. While the command runs, its end
    /// comes before a request to stop it, and that before its deadline; each of
    /// them ends the wait but for a short time in which output is still read.
    pub open spec fn decide(self, poll: StatusPoll, cancel: bool, now: u128) -> (
        WaitView,
        WaitStep,
    ) {
        let at = WaitView { status: collected(self.status, poll), ..self };
        let draining = WaitView { drain_deadline: Some(later(now, DRAIN_AFTER_DONE_NANOS as int)), ..at };
        match self.drain_deadline {
            None => if is_over(self.status, poll) {
                (draining, WaitStep::Drain)
            } else if cancel {
                (WaitView { cancelled: true, ..draining }, WaitStep::Kill)
            } else if self.deadline <= now {
                (WaitView { timed_out: true, ..draining }, WaitStep::Kill)
            } else if self.stdout_open || self.stderr_open || self.has_waker {
                (at, WaitStep::Poll { timeout_ms: poll_millis(self.deadline, now) })
            } else {
                (
                    at,
                    WaitStep::Sleep {
                        nanos: if self.deadline - now < IDLE_SLEEP_NANOS {
                            (self.deadline - now) as u128
                        } else {
                            IDLE_SLEEP_NANOS
                        },
                    },
                )
            },
            Some(end) => if (!self.stdout_open && !self.stderr_open) || end <= now {
                (at, WaitStep::Done)
            } else {
                (at, WaitStep::Poll { timeout_ms: poll_millis(end, now) })
            },
        }
    }
}

/// Captures what was read of one stream.
fn capture_all(output: &mut CapturedOutput, stream: OutputStream, chunks: &Vec<Vec<u8>>)
    requires
        old(output)@.wf(),
    ensures
        final(output)@ == capture_chunks(old(output)@, stream, chunk_views(chunks@)),
        final(output)@.wf(),
{
    let ghost all = chunk_views(chunks@);
    let mut i: usize = 0;
    assert(all.take(0) =~= seq![]);
    while i < chunks.len()
        invariant
            i <= chunks@.len(),
            all == chunk_views(chunks@),
            output@ == capture_chunks(old(output)@, stream, all.take(i as int)),
            output@.wf(),
        decreases chunks.len() - i,
    {
        assert(all.take(i + 1).drop_last() =~= all.take(i as int));
        assert(all.take(i + 1).last() == chunks@[i as int]@);
        output.push_bytes(stream, chunks[i].as_slice());
        i += 1;
    }
    assert(all.take(i as int) =~= all);
}

impl ShellWait {
    /// The wait for a command that was started now.
    pub fn start(now: u128, timeout_secs: u64, has_waker: bool) -> (wait: Self)
        ensures
            wait@ == (WaitView {
                deadline: later(now, timeout_secs * NANOS_PER_SEC),
                drain_deadline: None,
                status: None,
                timed_out: false,
                cancelled: false,
                stdout_open: true,
                stderr_open: true,
                has_waker,
                output: CaptureView::fresh(),
            }),
            wait@.output.wf(),
    {
        assert(timeout_secs * NANOS_PER_SEC <= u64::MAX * 1_000_000_000) by (nonlinear_arith)
            requires
                timeout_secs <= u64::MAX,
                NANOS_PER_SEC == 1_000_000_000,
        ;
        let span: u128 = timeout_secs as u128 * NANOS_PER_SEC;
        ShellWait {
            deadline: now.saturating_add(span),
            drain_deadline: None,
            status: None,
            timed_out: false,
            cancelled: false,
            stdout_open: true,
            stderr_open: true,
            has_waker,
            output: CapturedOutput::new(),
        }
    }

    /// One round of the wait: takes what was read of both pipes, a look at the
    /// exit status, and whether the command is to be stopped; says what to do
    /// next.
    pub fn step(
        &mut self,
        stdout: &PipeRead,
        stderr: &PipeRead,
        poll: StatusPoll,
        cancel_requested: bool,
        now: u128,
    ) -> (next: WaitStep)
        requires
            old(self)@.output.wf(),
        ensures
            final(self)@.output.wf(),
            (final(self)@, next) == old(self)@.read(
                chunk_views(stdout.chunks@),
                stdout.closed,
                chunk_views(stderr.chunks@),
                stderr.closed,
            ).decide(poll, cancel_requested, now),
    {
        if self.stdout_open {
            capture_all(&mut self.output, OutputStream::Stdout, &stdout.chunks);
        }
        if self.stderr_open {
            capture_all(&mut self.output, OutputStream::Stderr, &stderr.chunks);
        }
        self.stdout_open = self.stdout_open && !stdout.closed;
        self.stderr_open = self.stderr_open && !stderr.closed;
        let ghost at = self@;
        assert(at =~= old(self)@.read(
            chunk_views(stdout.chunks@),
            stdout.closed,
            chunk_views(stderr.chunks@),
            stderr.closed,
        ));
        let over = self.status.is_some() || match poll {
            StatusPoll::Empty => false,
            _ => true,
        };
        if self.status.is_none() {
            if let StatusPoll::Exited(exit) = poll {
                self.status = Some(exit);
            }
        }
        match self.drain_deadline {
            None => {
                if over {
                    self.drain_deadline = Some(now.saturating_add(DRAIN_AFTER_DONE_NANOS));
                    WaitStep::Drain
                } else if cancel_requested {
                    self.cancelled = true;
                    self.drain_deadline = Some(now.saturating_add(DRAIN_AFTER_DONE_NANOS));
                    WaitStep::Kill
                } else if self.deadline <= now {
                    self.timed_out = true;
                    self.drain_deadline = Some(now.saturating_add(DRAIN_AFTER_DONE_NANOS));
                    WaitStep::Kill
                } else if self.stdout_open || self.stderr_open || self.has_waker {
                    WaitStep::Poll { timeout_ms: poll_timeout_ms(self.deadline, now) }
                } else {
                    let left: u128 = self.deadline - now;
                    WaitStep::Sleep {
                        nanos: if left < IDLE_SLEEP_NANOS {
                            left
                        } else {
                            IDLE_SLEEP_NANOS
                        },
                    }
                }
            },
            Some(end) => {
                if (!self.stdout_open && !self.stderr_open) || end <= now {
                    WaitStep::Done
                } else {
                    WaitStep::Poll { timeout_ms: poll_timeout_ms(end, now) }
                }
            },
        }
    }

    /// What is known of the command at the end of the wait.
    pub fn finish(self) -> (r: WaitResult)
        requires
            self@.output.wf(),
        ensures
            wait_parts(
                r,
                self@.status,
                self@.timed_out,
                self@.cancelled,
                self@.output.end_stream(OutputStream::Stdout).end_stream(OutputStream::Stderr),
            ),
    {
        let mut output = self.output;
        output.finish();
        wait_result_from_parts(self.status, self.timed_out, self.cancelled, output)
    }
}

/// One round of a wait, as it was seen from outside.
#[derive(Debug)]
pub struct WaitRound {
    pub stdout: PipeRead,
    pub stderr: PipeRead,
    pub poll: StatusPoll,
    pub cancel_requested: bool,
    pub now: u128,
}

/// One round of a wait.
pub open spec fn round_step(wait: WaitView, round: WaitRound) -> (WaitView, WaitStep) {
    wait.read(
        chunk_views(round.stdout.chunks@),
        round.stdout.closed,
        chunk_views(round.stderr.chunks@),
        round.stderr.closed,
    ).decide(round.poll, round.cancel_requested, round.now)
}

/// A wait after some rounds, of which those after its end do not count.
pub open spec fn after_rounds(wait: WaitView, rounds: Seq<WaitRound>) -> (WaitView, bool)
    decreases rounds.len(),
{
    if rounds.len() == 0 {
        (wait, false)
    } else {
        let (before, done) = after_rounds(wait, rounds.drop_last());
        if done {
            (before, true)
        } else {
            let (at, next) = round_step(before, rounds.last());
            (at, next is Done)
        }
    }
}

/// The result of a wait that went through the given rounds, up to the one that
/// ended it.
pub fn wait_with_timeout(
    now: u128,
    timeout_secs: u64,
    has_waker: bool,
    rounds: &Vec<WaitRound>,
) -> (r: WaitResult)
    ensures
        ({
            let start = WaitView {
                deadline: later(now, timeout_secs * NANOS_PER_SEC),
                drain_deadline: None,
                status: None,
                timed_out: false,
                cancelled: false,
                stdout_open: true,
                stderr_open: true,
                has_waker,
                output: CaptureView::fresh(),
            };
            let end = after_rounds(start, rounds@).0;
            wait_parts(
                r,
                end.status,
                end.timed_out,
                end.cancelled,
                end.output.end_stream(OutputStream::Stdout).end_stream(OutputStream::Stderr),
            )
        }),
{
    let mut wait = ShellWait::start(now, timeout_secs, has_waker);
    let ghost start = wait@;
    let mut i: usize = 0;
    let mut done = false;
    assert(rounds@.take(0) =~= seq![]);
    while i < rounds.len()
        invariant
            i <= rounds@.len(),
            wait@.output.wf(),
            after_rounds(start, rounds@.take(i as int)) == (wait@, done),
        decreases rounds.len() - i,
    {
        assert(rounds@.take(i + 1).drop_last() =~= rounds@.take(i as int));
        if !done {
            let round = &rounds[i];
            let next = wait.step(
                &round.stdout,
                &round.stderr,
                round.poll,
                round.cancel_requested,
                round.now,
            );
            done = match next {
                WaitStep::Done => true,
                _ => false,
            };
        }
        i += 1;
    }
    assert(rounds@.take(i as int) =~= rounds@);
    wait.finish()
}

/// A command is never both cancelled and timed out, it is killed only while it
/// runs, and once it is over no round can change that or the flags.
pub proof fn law_wait_ends_once(wait: WaitView, poll: StatusPoll, cancel: bool, now: u128)
    requires
        !(wait.cancelled && wait.timed_out),
        wait.drain_deadline is None ==> !wait.cancelled && !wait.timed_out,
    ensures
        ({
            let (after, next) = wait.decide(poll, cancel, now);
            &&& !(after.cancelled && after.timed_out)
            &&& after.drain_deadline is None ==> !after.cancelled && !after.timed_out
            &&& wait.drain_deadline is Some ==> {
                &&& after.cancelled == wait.cancelled
                &&& after.timed_out == wait.timed_out
                &&& after.drain_deadline == wait.drain_deadline
                &&& next is Done || next is Poll
            }
            &&& next is Done ==> wait.drain_deadline is Some
            &&& wait.status is Some ==> after.status == wait.status
        }),
{
}

/// The wait for output after a command is over comes to an end: a look at or
/// after its deadline is the last.
pub proof fn law_drain_is_bounded(wait: WaitView, poll: StatusPoll, cancel: bool, now: u128)
    requires
        wait.drain_deadline matches Some(end) && end <= now,
    ensures
        wait.decide(poll, cancel, now).1 is Done,
{
}

/// What a shell call asks for.
#[derive(Debug)]
pub struct CommandPlan {
    pub command: String,
    pub cwd: Option<String>,
    pub timeout_secs: u64,
    /// Whether the working directory is to be kept from being written.
    pub read_only: bool,
    /// The mode chip.
    pub mode: String,
}

/// What a shell call asks for, as mathematics.
pub struct PlanView {
    pub command: Seq<char>,
    pub cwd: Option<Seq<char>>,
    pub timeout_secs: u64,
    pub read_only: bool,
    pub mode: Seq<char>,
}

impl View for CommandPlan {
    type V = PlanView;

    open spec fn view(&self) -> PlanView {
        PlanView {
            command: self.command@,
            cwd: opt_view(self.cwd),
            timeout_secs: self.timeout_secs,
            read_only: self.read_only,
            mode: self.mode@,
        }
    }
}

/// A failure of a command, with the command's label, mode and payload.
pub open spec fn command_failure(
    message: Seq<char>,
    command: Seq<char>,
    mode: Seq<char>,
    details: Option<Cbor>,
) -> FailureView {
    FailureView {
        message,
        details,
        display: StateView {
            mode,
            payload: command_payload(command),
            ..plain_state(command_args(command), ToolUseStatus::Error, chip_text(message))
        },
    }
}

/// What a shell call asks for, or why it is refused.
pub open spec fn planned(arguments: Cbor, mode: ShellCommandMode) -> Result<
    PlanView,
    FailureView,
> {
    match text_field(arguments, "command"@) {
        None => Err(failure(argument_error("command"@, "a string"@))),
        Some(command) => if !is_absent(field(arguments, "cwd"@)) && text_field(
            arguments,
            "cwd"@,
        ) is None {
            Err(failure(argument_error("cwd"@, "a string"@)))
        } else {
            match timeout_of(arguments) {
                Err(message) => Err(command_failure(message, command, mode_label(mode), None)),
                Ok(timeout_secs) => Ok(
                    PlanView {
                        command,
                        cwd: text_field(arguments, "cwd"@),
                        timeout_secs,
                        read_only: mode == ShellCommandMode::Visible(ShellAccessMode::ReadOnly),
                        mode: mode_label(mode),
                    },
                ),
            }
        },
    }
}

/// A failure with a command's label, mode and payload.
fn fail_command(message: String, command: &str, mode: String) -> (f: ToolFailure)
    ensures
        f@ == command_failure(message@, command@, mode@, None),
{
    ToolFailure::new(message).with_args(command_display_args(command)).with_mode(
        mode,
    ).with_payload(command_display_payload(command))
}

/// What a shell call asks for, or why it is refused.
pub fn plan_command(arguments: &CborValue, command_mode: ShellCommandMode) -> (plan: Result<
    CommandPlan,
    ToolFailure,
>)
    ensures
        match plan {
            Ok(plan) => planned(arguments@, command_mode) == Ok::<PlanView, FailureView>(plan@),
            Err(f) => planned(arguments@, command_mode) == Err::<PlanView, FailureView>(f@),
        },
{
    let command = match argument_text(arguments, "command") {
        Ok(command) => command,
        Err(message) => {
            return Err(ToolFailure::new(message));
        },
    };
    let cwd = match optional_argument_text_strict(arguments, "cwd") {
        Ok(cwd) => cwd,
        Err(message) => {
            return Err(ToolFailure::new(message));
        },
    };
    let mode = command_mode.display_label();
    match parse_timeout_secs(arguments) {
        Err(message) => Err(fail_command(message, command.as_str(), mode)),
        Ok(timeout_secs) => {
            let read_only = match command_mode.access() {
                ShellAccessMode::ReadOnly => true,
                ShellAccessMode::ReadWrite => false,
            };
            Ok(CommandPlan { command, cwd, timeout_secs, read_only, mode })
        },
    }
}

/// The details of a command that could not be started.
pub open spec fn start_error_details() -> Cbor {
    Cbor::Dict(
        details_entries(
            seq![],
            None,
            None,
            false,
            None,
            TerminationReason::StartError,
            false,
            None,
            None,
            true,
        ),
    )
}

/// The failure of a command that could not be started.
pub fn start_failure(plan: &CommandPlan, error: &str) -> (f: ToolFailure)
    ensures
        f@ == command_failure(
            "failed to start shell command: "@ + error@,
            plan@.command,
            plan@.mode,
            Some(start_error_details()),
        ),
{
    let mut message = "failed to start shell command: ".to_owned();
    message.append(error);
    let output = String::new();
    assert(output@ =~= seq![]);
    fail_command(message, plan.command.as_str(), plan.mode.clone()).with_details(
        command_details_value(
            CommandDetails {
                status: None,
                signal: None,
                timed_out: false,
                duration_seconds: None,
                termination_reason: TerminationReason::StartError,
                total_lines: None,
                total_bytes: None,
                output,
                truncated: false,
                valid_utf8: true,
            },
        ),
    )
}

/// The seconds that a command took, rounded up, where it took long.
pub open spec fn slow_seconds(elapsed_nanos: u128) -> Option<u64> {
    if elapsed_nanos <= SLOW_COMMAND_EXEC_TIME_THRESHOLD_SECS * NANOS_PER_SEC {
        None
    } else {
        let secs = (elapsed_nanos - 1) / NANOS_PER_SEC as int + 1;
        Some(
            if secs <= u64::MAX {
                secs as u64
            } else {
                u64::MAX
            },
        )
    }
}

/// The seconds that a command took, rounded up, where it took long.
pub fn slow_duration(elapsed_nanos: u128) -> (secs: Option<u64>)
    ensures
        secs == slow_seconds(elapsed_nanos),
{
    if elapsed_nanos <= 5_000_000_000u128 {
        return None;
    }
    let secs: u128 = (elapsed_nanos - 1) / NANOS_PER_SEC + 1;
    if secs <= 18446744073709551615u128 {
        Some(secs as u64)
    } else {
        Some(u64::MAX)
    }
}

/// How a command call came out.
#[derive(Debug)]
pub enum CommandOutcome {
    Finished(ToolOutput),
    Cancelled,
}

/// How a command call came out, as mathematics.
pub enum CommandOutcomeView {
    Finished(OutputView),
    Cancelled,
}

impl View for CommandOutcome {
    type V = CommandOutcomeView;

    open spec fn view(&self) -> CommandOutcomeView {
        match self {
            CommandOutcome::Finished(output) => CommandOutcomeView::Finished(output@),
            CommandOutcome::Cancelled => CommandOutcomeView::Cancelled,
        }
    }
}

/// The status text of a command that did not succeed.
pub open spec fn unsuccessful_text(
    status_code: Option<i32>,
    signal: Option<i32>,
    timed_out: bool,
) -> Seq<char> {
    if timed_out {
        "timeout"@
    } else {
        match (signal, status_code) {
            (Some(signal), _) => "signal "@ + signed_decimal_of(signal as int),
            (None, Some(code)) => signed_decimal_of(code as int),
            (None, None) => "unknown"@,
        }
    }
}

/// What is reported of a command that was not cancelled.
pub open spec fn finished_output(
    plan: PlanView,
    wait: WaitResult,
    elapsed_nanos: u128,
) -> OutputView {
    let capture = wait.output@;
    let content = truncated_content(capture.shown(), capture.total_lines as nat);
    let cut = is_truncated(
        capture.shown(),
        capture.total_lines as nat,
        capture.reported_bytes(),
    );
    OutputView {
        result: Cbor::Dict(
            details_entries(
                content,
                wait.status_code,
                wait.signal,
                wait.timed_out,
                slow_seconds(elapsed_nanos),
                wait.termination_reason,
                cut,
                if cut {
                    Some(capture.total_lines)
                } else {
                    None
                },
                if cut {
                    Some(capture.reported_bytes() as usize)
                } else {
                    None
                },
                !wait.had_invalid_utf8,
            ),
        ),
        display: StateView {
            mode: plan.mode,
            payload: command_payload(plan.command),
            stats: stats_of(content),
            ..plain_state(
                command_args(plan.command),
                if wait.success {
                    ToolUseStatus::Success
                } else {
                    ToolUseStatus::Error
                },
                if wait.success {
                    "ok"@
                } else {
                    unsuccessful_text(wait.status_code, wait.signal, wait.timed_out)
                },
            )
        },
    }
}

/// What is reported of a command that was waited for. A command that started
/// always gives a result, whatever became of it; only a request to stop it
/// gives none.
pub fn finish_command(plan: &CommandPlan, wait: &WaitResult, elapsed_nanos: u128) -> (outcome:
    CommandOutcome)
    ensures
        outcome@ == if wait.cancelled {
            CommandOutcomeView::Cancelled
        } else {
            CommandOutcomeView::Finished(finished_output(plan@, *wait, elapsed_nanos))
        },
{
    if wait.cancelled {
        return CommandOutcome::Cancelled;
    }
    let args = command_display_args(plan.command.as_str());
    let shown = wait.output.truncate();
    let mut display = if wait.success {
        ok_display(args.as_str())
    } else {
        let status_text = if wait.timed_out {
            "timeout".to_owned()
        } else {
            match (wait.signal, wait.status_code) {
                (Some(signal), _) => {
                    let mut text = "signal ".to_owned();
                    text.append(signed_decimal(signal as i64).as_str());
                    text
                },
                (None, Some(code)) => signed_decimal(code as i64),
                (None, None) => "unknown".to_owned(),
            }
        };
        plain_display(args.as_str(), ToolUseStatus::Error, status_text.as_str())
    };
    display.mode = plan.mode.clone();
    display.payload = command_display_payload(plan.command.as_str());
    display.stats = text_stats(shown.content.as_str());
    let result = command_details_value(
        CommandDetails {
            status: wait.status_code,
            signal: wait.signal,
            timed_out: wait.timed_out,
            duration_seconds: slow_duration(elapsed_nanos),
            termination_reason: wait.termination_reason,
            total_lines: if shown.was_truncated {
                Some(shown.total_lines)
            } else {
                None
            },
            total_bytes: if shown.was_truncated {
                Some(shown.total_bytes)
            } else {
                None
            },
            output: shown.content,
            truncated: shown.was_truncated,
            valid_utf8: !wait.had_invalid_utf8,
        },
    );
    CommandOutcome::Finished(ToolOutput { result, display })
}

/// What became of starting a command and waiting for it.
#[derive(Debug)]
pub enum CommandRun {
    /// The process could not be started, and why.
    NotStarted { error: String },
    /// The process was waited for, so long.
    Waited { wait: WaitResult, elapsed_nanos: u128 },
}

/// The outcome of a shell call: what it asks for, started and waited for.
pub fn run_command_live(
    arguments: &CborValue,
    command_mode: ShellCommandMode,
    run: &CommandRun,
) -> (outcome: Result<CommandOutcome, ToolFailure>)
    ensures
        match planned(arguments@, command_mode) {
            Err(f) => outcome matches Err(g) && g@ == f,
            Ok(plan) => match run {
                CommandRun::NotStarted { error } => outcome matches Err(g) && g@
                    == command_failure(
                    "failed to start shell command: "@ + error@,
                    plan.command,
                    plan.mode,
                    Some(start_error_details()),
                ),
                CommandRun::Waited { wait, elapsed_nanos } => outcome matches Ok(o) && o@
                    == if wait.cancelled {
                    CommandOutcomeView::Cancelled
                } else {
                    CommandOutcomeView::Finished(finished_output(plan, *wait, *elapsed_nanos))
                },
            },
        },
{
    match plan_command(arguments, command_mode) {
        Err(f) => Err(f),
        Ok(plan) => match run {
            CommandRun::NotStarted { error } => Err(start_failure(&plan, error.as_str())),
            CommandRun::Waited { wait, elapsed_nanos } => Ok(
                finish_command(&plan, wait, *elapsed_nanos),
            ),
        },
    }
}

/// A command that was not cancelled and ended without a status, a signal or a
/// timeout is never reported as a success, and a success is never reported
/// with another status than zero.
pub proof fn law_success_means_status_zero(
    r: WaitResult,
    status: Option<ExitStatus>,
    timed_out: bool,
    cancelled: bool,
    output: CaptureView,
)
    requires
        wait_parts(r, status, timed_out, cancelled, output),
    ensures
        r.success ==> r.status_code == Some(0i32) && !r.timed_out && !r.cancelled,
        r.success && r.signal is None ==> r.termination_reason == TerminationReason::Exit,
        status is None ==> !r.success,
{
}

/// Milliseconds as they are recorded: at least one.
pub open spec fn recorded_millis(elapsed_nanos: u128) -> u64 {
    let millis = elapsed_nanos / NANOS_PER_MILLI;
    if millis == 0 {
        1
    } else if millis > u64::MAX {
        u64::MAX
    } else {
        millis as u64
    }
}

/// Milliseconds as they are recorded: at least one.
pub fn elapsed_millis(elapsed_nanos: u128) -> (millis: u64)
    ensures
        millis == recorded_millis(elapsed_nanos),
{
    let millis: u128 = elapsed_nanos / NANOS_PER_MILLI;
    if millis == 0 {
        1
    } else if millis > 18446744073709551615u128 {
        u64::MAX
    } else {
        millis as u64
    }
}

/// Milliseconds to sleep for when a finished command is replayed: what was
/// recorded, sped up and rounded up.
pub fn replay_sleep_millis(elapsed_ms: u64) -> (millis: u64)
    ensures
        millis == (elapsed_ms + VCR_REPLAY_SPEEDUP - 1) / VCR_REPLAY_SPEEDUP as int,
{
    let whole: u64 = elapsed_ms / VCR_REPLAY_SPEEDUP;
    if elapsed_ms % VCR_REPLAY_SPEEDUP == 0 {
        whole
    } else {
        whole + 1
    }
}

/// A recorded outcome of a command.
#[derive(Debug)]
pub enum WorldShellOutcome {
    Finished { result: CborValue, display: ToolUseState, elapsed_ms: u64 },
    Cancelled,
}

/// Whether a record holds an outcome and how long it took.
pub open spec fn records(
    recorded: WorldShellOutcome,
    outcome: CommandOutcomeView,
    elapsed_nanos: u128,
) -> bool {
    match outcome {
        CommandOutcomeView::Finished(output) => recorded matches WorldShellOutcome::Finished {
            result,
            display,
            elapsed_ms,
        } && result@ == output.result && display@ == output.display && elapsed_ms
            == recorded_millis(elapsed_nanos),
        CommandOutcomeView::Cancelled => recorded is Cancelled,
    }
}

/// What is recorded of an outcome.
pub fn record_shell_outcome(outcome: &CommandOutcome, elapsed_nanos: u128) -> (recorded:
    WorldShellOutcome)
    ensures
        records(recorded, outcome@, elapsed_nanos),
{
    match outcome {
        CommandOutcome::Finished(output) => WorldShellOutcome::Finished {
            result: output.result.copy(),
            display: output.display.copy(),
            elapsed_ms: elapsed_millis(elapsed_nanos),
        },
        CommandOutcome::Cancelled => WorldShellOutcome::Cancelled,
    }
}

/// What was seen of requests to stop a call while it was replayed.
#[derive(Clone, Copy, Debug, PartialEq, Eq)]
pub enum CancelSeen {
    /// The call cannot be stopped.
    NotCancellable,
    /// A request came in time.
    Requested,
    /// No request came in time.
    TimedOut,
    /// Whoever could have asked is gone.
    Disconnected,
}

/// The message for a replay that did not go as recorded.
pub open spec fn replay_message(key: Seq<char>, what: Seq<char>) -> Seq<char> {
    "vcr replay for "@ + key + what
}

/// The message for a replay that did not go as recorded.
fn replay_error(key: &str, what: &str) -> (f: ToolFailure)
    ensures
        f@ == failure(replay_message(key@, what@)),
{
    let mut message = "vcr replay for ".to_owned();
    message.append(key);
    message.append(what);
    ToolFailure::new(message)
}

/// What the replay of a recorded outcome gives. A finished call must not be
/// stopped meanwhile, and a cancelled one must be, within its time limit.
pub open spec fn replayed(
    key: Seq<char>,
    recorded: WorldShellOutcome,
    arguments: Cbor,
    seen: CancelSeen,
) -> Result<CommandOutcomeView, FailureView> {
    match recorded {
        WorldShellOutcome::Finished { result, display, .. } => if seen == CancelSeen::Requested {
            Err(
                failure(
                    replay_message(
                        key,
                        " expected finished shell call but cancellation was requested"@,
                    ),
                ),
            )
        } else {
            Ok(
                CommandOutcomeView::Finished(
                    OutputView { result: result@, display: display@ },
                ),
            )
        },
        WorldShellOutcome::Cancelled => match timeout_of(arguments) {
            Err(message) => Err(failure(message)),
            Ok(_) => match seen {
                CancelSeen::Requested => Ok(CommandOutcomeView::Cancelled),
                CancelSeen::NotCancellable => Err(
                    failure(
                        replay_message(
                            key,
                            " expected shell cancellation but call is not cancellable"@,
                        ),
                    ),
                ),
                CancelSeen::TimedOut => Err(
                    failure(
                        replay_message(key, " expected shell cancellation before timeout"@),
                    ),
                ),
                CancelSeen::Disconnected => Err(
                    failure(
                        replay_message(
                            key,
                            " expected shell cancellation but cancellation channel closed"@,
                        ),
                    ),
                ),
            },
        },
    }
}

/// What the replay of a recorded outcome gives.
pub fn replay_shell_outcome(
    key: &str,
    recorded: WorldShellOutcome,
    arguments: &CborValue,
    seen: CancelSeen,
) -> (outcome: Result<CommandOutcome, ToolFailure>)
    ensures
        match outcome {
            Ok(o) => replayed(key@, recorded, arguments@, seen) == Ok::<
                CommandOutcomeView,
                FailureView,
            >(o@),
            Err(f) => replayed(key@, recorded, arguments@, seen) == Err::<
                CommandOutcomeView,
                FailureView,
            >(f@),
        },
{
    match recorded {
        WorldShellOutcome::Finished { result, display, .. } => {
            if let CancelSeen::Requested = seen {
                return Err(
                    replay_error(
                        key,
                        " expected finished shell call but cancellation was requested",
                    ),
                );
            }
            Ok(CommandOutcome::Finished(ToolOutput { result, display }))
        },
        WorldShellOutcome::Cancelled => match parse_timeout_secs(arguments) {
            Err(message) => Err(ToolFailure::new(message)),
            Ok(_) => match seen {
                CancelSeen::Requested => Ok(CommandOutcome::Cancelled),
                CancelSeen::NotCancellable => Err(
                    replay_error(key, " expected shell cancellation but call is not cancellable"),
                ),
                CancelSeen::TimedOut => Err(
                    replay_error(key, " expected shell cancellation before timeout"),
                ),
                CancelSeen::Disconnected => Err(
                    replay_error(
                        key,
                        " expected shell cancellation but cancellation channel closed",
                    ),
                ),
            },
        },
    }
}

/// Replay gives back what was recorded: a finished call that nobody stops
/// finishes with the same output, and a cancelled call that somebody stops in
/// time is cancelled again.
pub proof fn law_replay_gives_back_the_record(
    key: Seq<char>,
    recorded: WorldShellOutcome,
    outcome: CommandOutcomeView,
    elapsed_nanos: u128,
    arguments: Cbor,
    seen: CancelSeen,
)
    requires
        records(recorded, outcome, elapsed_nanos),
        outcome is Finished ==> seen != CancelSeen::Requested,
        outcome is Cancelled ==> seen == CancelSeen::Requested && timeout_of(arguments) is Ok,
    ensures
        replayed(key, recorded, arguments, seen) == Ok::<CommandOutcomeView, FailureView>(outcome),
{
}

} // verus!
