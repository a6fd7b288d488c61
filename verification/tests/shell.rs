//! Commands, their output, and the queues that they wait in.

use tau_extensions::shell::capture::{
    CapturedOutput, LineEndingKind, OutputContent, OutputStream, StreamDecoder,
    MAX_CAPTURED_LINE_BYTES,
};
use tau_extensions::shell::command::{
    elapsed_millis, parse_timeout_secs, plan_command, record_shell_outcome, replay_shell_outcome,
    replay_sleep_millis, run_command_live, shorten_command_line, wait_with_timeout, CancelSeen,
    CommandOutcome, CommandRun, ExitStatus, PipeRead, ShellAccessMode, ShellCommandMode,
    StatusPoll, WaitRound, WorldShellOutcome,
};
use tau_extensions::shell::config::ShellConfig;
use tau_extensions::shell::display::ok_display;
use tau_extensions::shell::scheduler::{
    SchedulerConfig, WorkMeta, WorkPriority, WorkScheduler, WorkerKind,
};
use tau_extensions::shell::truncate::{
    truncate_head, truncate_line, truncate_line_oriented, truncate_tail, MAX_OUTPUT_BYTES,
};
use tau_extensions::shell::user_shell::{
    append_guaranteed_output_truncated_marker, merged_user_shell_output, UserStreamCapture,
    USER_OUTPUT_TRUNCATED_MARKER,
};
use tau_extensions::value::CborValue;

const MILLI: u128 = 1_000_000;

fn text(s: &str) -> CborValue {
    CborValue::Text(s.to_owned())
}

fn dict(entries: Vec<(&str, CborValue)>) -> CborValue {
    CborValue::Dict(entries.into_iter().map(|(k, v)| (text(k), v)).collect())
}

fn shell_args(command: &str, timeout: i64) -> CborValue {
    dict(vec![
        ("command", text(command)),
        ("timeout", CborValue::Integer(timeout as i128)),
    ])
}

fn field<'a>(value: &'a CborValue, key: &str) -> Option<&'a CborValue> {
    let CborValue::Dict(entries) = value else {
        panic!("expected result map");
    };
    entries.iter().find(|(k, _)| *k == text(key)).map(|(_, v)| v)
}

fn output_text(result: &CborValue) -> &str {
    match field(result, "output") {
        Some(CborValue::Text(output)) => output,
        other => panic!("output field, got {other:?}"),
    }
}

#[test]
fn clipped_user_shell_output_marker_survives_tail_truncation() {
    let mut output = "x".repeat(MAX_OUTPUT_BYTES);

    append_guaranteed_output_truncated_marker(&mut output);
    let truncated = truncate_tail(&output);

    assert!(truncated.content.ends_with(USER_OUTPUT_TRUNCATED_MARKER));
    assert!(truncated.content.len() <= MAX_OUTPUT_BYTES);
}

#[test]
fn captured_output_bounds_no_newline_lines() {
    let mut output = CapturedOutput::new();
    output.push_bytes(
        OutputStream::Stdout,
        &vec![b'x'; MAX_CAPTURED_LINE_BYTES + 128],
    );
    output.finish();

    let truncated = output.truncate();
    assert_eq!(truncated.content, "out(no_nl,truncated) ");
    assert!(truncated.was_truncated);
    assert!(MAX_OUTPUT_BYTES < truncated.total_bytes);
}

#[test]
fn chunks_do_not_matter_to_what_is_captured() {
    let bytes = "a\r\nb\u{e9}c\n".as_bytes();
    let mut whole = CapturedOutput::new();
    whole.push_bytes(OutputStream::Stderr, bytes);
    whole.finish();
    let mut pieces = CapturedOutput::new();
    for b in bytes {
        pieces.push_bytes(OutputStream::Stderr, &[*b]);
    }
    pieces.finish();
    assert_eq!(whole.truncate().content, "err(crlf) a\nerr b\u{e9}c");
    assert_eq!(whole.truncate().content, pieces.truncate().content);
    assert!(!whole.had_invalid_utf8());
}

#[test]
fn invalid_bytes_are_replaced_and_marked() {
    let mut output = CapturedOutput::new();
    output.push_bytes(OutputStream::Stdout, &[b'a', 0xff, b'\n']);
    output.finish();
    assert!(output.had_invalid_utf8());
    assert!(output.truncate().content.contains("a\u{fffd}"));
}

/// Runs a command whose output and end are given.
fn recorded_run(stdout: &[u8], code: Option<i32>, cancel: bool) -> CommandRun {
    let rounds = vec![
        WaitRound {
            stdout: PipeRead { chunks: vec![stdout.to_vec()], closed: !cancel },
            stderr: PipeRead { chunks: vec![], closed: !cancel },
            poll: if cancel {
                StatusPoll::Empty
            } else {
                StatusPoll::Exited(ExitStatus { code, signal: None })
            },
            cancel_requested: cancel,
            now: 10 * MILLI,
        },
        WaitRound {
            stdout: PipeRead { chunks: vec![], closed: true },
            stderr: PipeRead { chunks: vec![], closed: true },
            poll: StatusPoll::Exited(ExitStatus { code: None, signal: Some(9) }),
            cancel_requested: cancel,
            now: 20 * MILLI,
        },
    ];
    CommandRun::Waited {
        wait: wait_with_timeout(0, 1, true, &rounds),
        elapsed_nanos: 20 * MILLI,
    }
}

fn run(args: &CborValue, run: &CommandRun) -> CommandOutcome {
    run_command_live(args, ShellCommandMode::HiddenReadWrite, run).expect("outcome")
}

#[test]
fn shell_vcr_replays_finished_result_without_running_command() {
    let args = shell_args("cat value.txt", 1);
    let live = run(&args, &recorded_run(b"recorded-output", Some(0), false));
    assert!(matches!(live, CommandOutcome::Finished(_)));
    let recorded = record_shell_outcome(&live, 20 * MILLI);
    let outcome = replay_shell_outcome("call_shell", recorded, &args, CancelSeen::NotCancellable)
        .expect("replay shell");
    let CommandOutcome::Finished(output) = outcome else {
        panic!("expected finished outcome");
    };
    assert_eq!(output_text(&output.result), "out(no_nl) recorded-output");
}

#[test]
fn shell_vcr_finished_replay_sleeps_at_scaled_recorded_duration() {
    let args = shell_args("printf live-output", 1);
    let recorded = WorldShellOutcome::Finished {
        result: dict(vec![("output", text("out(no_nl) recorded-output"))]),
        display: ok_display("recorded"),
        elapsed_ms: 5_000,
    };
    assert!(replay_sleep_millis(5_000) >= 40);
    assert_eq!(replay_sleep_millis(5_000), 50);
    let outcome = replay_shell_outcome(
        "call_slow_finished_shell",
        recorded,
        &args,
        CancelSeen::NotCancellable,
    )
    .expect("replay shell");
    let CommandOutcome::Finished(output) = outcome else {
        panic!("expected finished outcome");
    };
    assert_eq!(output_text(&output.result), "out(no_nl) recorded-output");
}

#[test]
fn shell_vcr_records_cancelled_outcome() {
    let args = shell_args("sleep 10", 5);
    let outcome = run(&args, &recorded_run(b"", None, true));
    assert!(matches!(outcome, CommandOutcome::Cancelled));
    let recorded = record_shell_outcome(&outcome, 20 * MILLI);
    assert!(matches!(recorded, WorldShellOutcome::Cancelled));
}

#[test]
fn shell_vcr_cancelled_replay_requires_cancel_request() {
    let args = shell_args("sleep 10", 1);
    let outcome = replay_shell_outcome(
        "call_cancelled_shell",
        WorldShellOutcome::Cancelled,
        &args,
        CancelSeen::Requested,
    )
    .expect("replay shell");
    assert!(matches!(outcome, CommandOutcome::Cancelled));
}

#[test]
fn shell_vcr_cancelled_replay_errors_without_cancel_request() {
    let args = shell_args("sleep 10", 1);
    for seen in [
        CancelSeen::TimedOut,
        CancelSeen::Disconnected,
        CancelSeen::NotCancellable,
    ] {
        let error = replay_shell_outcome(
            "call_cancelled_shell",
            WorldShellOutcome::Cancelled,
            &args,
            seen,
        )
        .expect_err("missing cancel should fail");
        assert!(error.message.contains("expected shell cancellation"));
    }
}

#[test]
fn a_failing_command_tells_its_status() {
    let args = shell_args("false", 1);
    let CommandOutcome::Finished(output) = run(&args, &recorded_run(b"no\n", Some(3), false))
    else {
        panic!("expected finished outcome");
    };
    assert_eq!(field(&output.result, "status"), Some(&CborValue::Integer(3)));
    assert_eq!(output_text(&output.result), "out no");
}

#[test]
fn arguments_of_commands_are_checked() {
    assert_eq!(parse_timeout_secs(&dict(vec![])), Ok(120));
    assert_eq!(parse_timeout_secs(&shell_args("x", 7)), Ok(7));
    assert!(parse_timeout_secs(&shell_args("x", -1)).is_err());
    assert!(plan_command(&dict(vec![]), ShellCommandMode::HiddenReadWrite).is_err());
    let plan = plan_command(
        &shell_args("ls", 3),
        ShellCommandMode::Visible(ShellAccessMode::ReadOnly),
    )
    .expect("plan");
    assert!(plan.read_only);
    assert_eq!(plan.timeout_secs, 3);
    assert_eq!(elapsed_millis(1_999_999), 1);
    assert_eq!(shorten_command_line("ls"), "ls");
}

#[test]
fn user_output_is_merged_and_marked() {
    let mut stdout = UserStreamCapture::new();
    stdout.push_chunk("one\n");
    let mut stderr = UserStreamCapture::new();
    stderr.push_chunk("two\n");
    let merged = merged_user_shell_output(stdout, stderr, Some("exit 1".to_owned()));
    assert!(merged.contains("one") && merged.contains("two") && merged.contains("exit 1"));

    let mut long = UserStreamCapture::new();
    long.push_chunk(&"y".repeat(MAX_OUTPUT_BYTES + 5));
    assert!(long.clipped);
    let merged = merged_user_shell_output(long, UserStreamCapture::new(), None);
    assert!(truncate_tail(&merged).content.contains(USER_OUTPUT_TRUNCATED_MARKER));
}

#[test]
fn short_outputs_are_kept_whole() {
    assert_eq!(truncate_head("a\nb").content, "a\nb");
    assert!(!truncate_tail("a\nb").was_truncated);
    assert_eq!(truncate_line_oriented("a\nb\n").content, "a\nb");
    assert_eq!(truncate_line("abc", 10), "abc");
    let many = "line\n".repeat(3000);
    let cut = truncate_line_oriented(&many);
    assert!(cut.was_truncated);
    assert_eq!(cut.total_lines, 3000);
}

fn test_meta(call_id: &str) -> WorkMeta {
    WorkMeta {
        call_id: Some(call_id.to_owned()),
        tool_name: Some("shell".to_owned()),
        agent_id: Some("agent-a".to_owned()),
        queued_bytes: 1,
    }
}

#[test]
fn enqueue_respects_total_limit() {
    let mut scheduler: WorkScheduler<()> =
        WorkScheduler::new(SchedulerConfig { total_limit: 1, ..SchedulerConfig::default() });
    scheduler
        .enqueue(WorkPriority::Bulk, test_meta("call-a"), ())
        .expect("first queued");
    let err = scheduler
        .enqueue(WorkPriority::Bulk, test_meta("call-b"), ())
        .expect_err("second should hit total limit");

    assert!(err.message.contains("queue limit is 1"));
}

#[test]
fn cancel_queued_call_removes_work() {
    let mut scheduler: WorkScheduler<()> = WorkScheduler::new(SchedulerConfig::default());
    scheduler
        .enqueue(WorkPriority::Bulk, test_meta("call-a"), ())
        .expect("queued");

    let (removed, cancelled) = scheduler.cancel_queued_call(&"call-a".to_owned());
    assert!(removed);
    let cancelled = cancelled.expect("cancel event");
    assert_eq!(cancelled.call_id, "call-a");
    assert!(scheduler.pop_for(WorkerKind::General).is_none());
}

#[test]
fn cancel_agent_removes_owned_queued_work() {
    let mut scheduler: WorkScheduler<()> = WorkScheduler::new(SchedulerConfig::default());
    scheduler
        .enqueue(WorkPriority::Bulk, test_meta("call-a"), ())
        .expect("queued");

    assert_eq!(scheduler.cancel_agent(&"agent-a".to_owned()), 1);
    assert!(!scheduler.cancel_queued_call(&"call-a".to_owned()).0);
}

#[test]
fn enqueue_respects_queued_byte_limit() {
    let mut scheduler: WorkScheduler<()> = WorkScheduler::new(SchedulerConfig {
        queued_bytes_limit: 1,
        ..SchedulerConfig::default()
    });
    let err = scheduler
        .enqueue(
            WorkPriority::Bulk,
            WorkMeta { queued_bytes: 2, ..test_meta("call-a") },
            (),
        )
        .expect_err("oversized queued arguments should fail");

    assert!(err.message.contains("queued shell tool arguments exceed"));
}

#[test]
fn the_count_of_queued_bytes_stops_at_the_largest() {
    let mut scheduler: WorkScheduler<()> = WorkScheduler::new(SchedulerConfig {
        queued_bytes_limit: usize::MAX,
        ..SchedulerConfig::default()
    });
    let big = |id: &str| WorkMeta { queued_bytes: usize::MAX, ..test_meta(id) };
    assert!(scheduler.enqueue(WorkPriority::Bulk, big("call-a"), ()).is_ok());
    assert!(scheduler.enqueue(WorkPriority::Bulk, big("call-b"), ()).is_ok());
    assert_eq!(scheduler.queued_bytes, usize::MAX);
    assert!(scheduler.pop_for(WorkerKind::General).is_some());
    assert_eq!(scheduler.queued_bytes, 0);
    assert_eq!(scheduler.cancel_agent(&"agent-a".to_owned()), 1);
}

#[test]
fn text_comes_back_from_its_lines() {
    let long = "x".repeat(MAX_CAPTURED_LINE_BYTES);
    for stream in ["", "a", "a\n", "a\r\nb\rc\n\nd", "\r\r\n\n\r", "\u{e9}\u{1f600}\r\n", &long] {
        let mut decoder = StreamDecoder::new();
        let mut lines = decoder.push_bytes(stream.as_bytes());
        lines.extend(decoder.finish());
        let last = lines.len();
        let mut joined = String::new();
        for (i, line) in lines.into_iter().enumerate() {
            let OutputContent::Text { text, ending } = line else {
                panic!("a line of {stream:?} was lost");
            };
            assert!(ending.is_some() || i + 1 == last && !text.is_empty());
            joined.push_str(&text);
            joined.push_str(match ending {
                Some(LineEndingKind::Lf) => "\n",
                Some(LineEndingKind::Crlf) => "\r\n",
                Some(LineEndingKind::Cr) => "\r",
                None => "",
            });
        }
        assert_eq!(joined, stream);
        assert!(!decoder.had_invalid_utf8);
    }
}

#[test]
fn control_work_runs_while_bulk_worker_is_busy() {
    let mut scheduler: WorkScheduler<&str> = WorkScheduler::new(SchedulerConfig {
        control_workers: 1,
        user_workers: 0,
        cheap_workers: 0,
        general_workers: 1,
        ..SchedulerConfig::default()
    });
    scheduler
        .enqueue(WorkPriority::Bulk, test_meta("call-bulk"), "bulk")
        .expect("bulk queued");
    let bulk = scheduler.pop_for(WorkerKind::General).expect("bulk worker started");
    assert_eq!(bulk.job, "bulk");

    scheduler
        .enqueue(WorkPriority::Control, test_meta("call-control"), "control")
        .expect("control queued");
    let control = scheduler
        .pop_for(WorkerKind::Control)
        .expect("control worker should not be starved by bulk work");
    assert_eq!(control.job, "control");
}

#[test]
fn empty_extra_env_removes_child_variable() {
    let config = ShellConfig {
        extra_env: vec![
            ("HOME".to_owned(), String::new()),
            ("LANG".to_owned(), "C".to_owned()),
        ],
        ..ShellConfig::default()
    };
    let argv = config.command_for("printf \"${HOME+set}\"");
    assert_eq!(argv, vec!["sh", "-c", "printf \"${HOME+set}\""]);
    let env = config.child_env();
    let home = env.iter().find(|e| e.key == "HOME").expect("HOME");
    assert_eq!(home.value, None);
    let lang = env.iter().find(|e| e.key == "LANG").expect("LANG");
    assert_eq!(lang.value.as_deref(), Some("C"));
}

#[test]
fn invalid_bytes_are_recorded_for_their_stream() {
    let mut output = CapturedOutput::new();
    output.mark_invalid_utf8(OutputStream::Stdout, false);
    assert!(!output.stdout.had_invalid_utf8);
    output.mark_invalid_utf8(OutputStream::Stderr, true);
    assert!(!output.stdout.had_invalid_utf8);
    assert!(output.stderr.had_invalid_utf8);
    output.mark_invalid_utf8(OutputStream::Stderr, false);
    assert!(output.stderr.had_invalid_utf8);
}
