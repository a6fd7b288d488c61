//! The tools of the shell extension: files, searches, locks and directories.

use tau_extensions::convert::{cbor_to_json, cbor_to_nearest_json, json_to_cbor};
use tau_extensions::json::{get, JsonValue};
use tau_extensions::json_text::parse_json;
use tau_extensions::number::parse_number;
use tau_extensions::path::{normalize_lock_dirs, paths_overlap, same_path, DirPath};
use tau_extensions::proto::PromptOriginator;
use tau_extensions::shell::cwd_state::CwdState;
use tau_extensions::shell::diff::{compute_diff, unified_diff, DiffLine, DiffSegment};
use tau_extensions::shell::dir_lock::{
    AutoPoll, AutoStart, LockState, LockWaitPolicy, ManualPoll, ManualStart,
};
use tau_extensions::shell::dir_lock_tool::{dispatch_dir_lock_tool, DirLockStep};
use tau_extensions::shell::dispatch::{
    cbor_value_with_lock_wait_duration, estimate_cbor_bytes, is_shell_tool, join_path,
    priority_for_tool, reported_lock_wait_duration_seconds, route_for_tool, Route,
};
use tau_extensions::shell::display::{error_chip_text, ToolFailure, ToolUsePayload};
use tau_extensions::shell::edit::{edit_file, edit_text, plan_write, write_file};
use tau_extensions::shell::event::{Event, ToolStarted};
use tau_extensions::shell::find::{run_find, select_paths, sort_by_keys, WalkEntry};
use tau_extensions::shell::grep::{
    classify_ripgrep_stderr, plan_grep, run_grep, GrepRun, RgRecord, RipgrepError,
};
use tau_extensions::shell::lock_dirs::{
    canonical_deepest_existing_ancestor, canonical_existing_dir, canonical_existing_file_parent,
    canonical_path_parent, canonical_shell_cwd, canonical_update_lock_dir,
    canonical_write_lock_dir, Lookup, Standing, Target,
};
use tau_extensions::shell::read::{
    plan_read, read_file, slice_bytes, slice_lines, MAX_READ_BYTES,
};
use tau_extensions::shell::run::{
    decide_working_directory, run, HarnessMessage, Incoming, ShellExtension, WorkdirDecision,
};
use tau_extensions::shell::scheduler::WorkPriority;
use tau_extensions::shell::skills::{
    project_skill_ancestor_dirs, session_skill_dirs, skill_notice, DiagnosticKind, NoticeLevel,
};
use tau_extensions::shell::specs::tool_specs;
use tau_extensions::shell::startup::{
    startup, AgentsFile, Announcement, Skill, SkillDiagnostic,
};
use tau_extensions::text::{
    ends_with, lines, strip_prefix, trim, trim_end_matches, utf8_prefix,
};
use tau_extensions::utf8::{lossy_text, strict_text};
use tau_extensions::value::CborValue;

fn text(s: &str) -> CborValue {
    CborValue::Text(s.to_owned())
}

fn number(i: i128) -> CborValue {
    CborValue::Integer(i)
}

fn dict(entries: Vec<(&str, CborValue)>) -> CborValue {
    CborValue::Dict(entries.into_iter().map(|(k, v)| (text(k), v)).collect())
}

fn field<'a>(value: &'a CborValue, key: &str) -> Option<&'a CborValue> {
    match value {
        CborValue::Dict(entries) => {
            entries.iter().find(|(k, _)| *k == text(key)).map(|(_, v)| v)
        }
        _ => None,
    }
}

fn dir(path: &str) -> DirPath {
    DirPath { names: path.split('/').filter(|n| !n.is_empty()).map(|n| n.to_owned()).collect() }
}

fn call(tool: &str, arguments: CborValue) -> ToolStarted {
    ToolStarted {
        call_id: "c1".to_owned(),
        tool_name: tool.to_owned(),
        agent_id: "main".to_owned(),
        arguments,
        originator: PromptOriginator::User,
    }
}

fn edit(old: &str, new: &str, more: Vec<(&str, CborValue)>) -> CborValue {
    let mut entries = vec![("oldText", text(old)), ("newText", text(new))];
    entries.extend(more);
    dict(entries)
}

#[test]
fn edits_replace_what_they_name() {
    let edits = vec![edit("one", "1", vec![]), edit("two", "2", vec![])];
    assert_eq!(edit_text("one two one\n", &edits), Ok(("1 2 one\n".to_owned(), 2)));
    let all = vec![edit("one", "1", vec![("max_matches", number(9))])];
    assert_eq!(edit_text("one two one\n", &all), Ok(("1 two 1\n".to_owned(), 2)));
    let second = vec![edit("x", "y", vec![("start_line", number(2)), ("end_line", number(3))])];
    assert_eq!(edit_text("x\nx\nx\n", &second), Ok(("x\ny\nx\n".to_owned(), 1)));
    assert_eq!(edit_text("abc", &vec![edit("z", "y", vec![])]), Ok(("abc".to_owned(), 0)));
}

#[test]
fn edits_that_cannot_be_are_refused() {
    let refused = |edits: Vec<CborValue>| edit_text("abc\n", &edits).unwrap_err();
    assert_eq!(refused(vec![edit("ab", "", vec![]), edit("bc", "", vec![])]), "overlapping edits");
    assert_eq!(refused(vec![edit("", "x", vec![])]), "oldText must not be empty");
    assert_eq!(
        refused(vec![dict(vec![("newText", text("x"))])]),
        "each edit must have a string oldText"
    );
    assert_eq!(
        refused(vec![dict(vec![("oldText", text("x"))])]),
        "each edit must have a string newText"
    );
    assert_eq!(
        refused(vec![edit("a", "b", vec![("max_matches", number(-1))])]),
        "max_matches must not be negative"
    );
    assert_eq!(
        refused(vec![edit("a", "b", vec![("start_line", number(0))])]),
        "start_line must be at least 1"
    );
    assert_eq!(
        refused(vec![edit("a", "b", vec![("start_line", number(3)), ("end_line", number(2))])]),
        "end_line must be greater than or equal to start_line"
    );
}

#[test]
fn an_edited_file_is_told_with_its_diff() {
    let arguments = dict(vec![
        ("path", text("/tmp/f")),
        ("edits", CborValue::Array(vec![edit("b", "B", vec![])])),
    ]);
    let output = edit_file(&arguments, &Ok("a\nb\nc\n".to_owned()), &Ok(())).expect("edited");
    assert_eq!(output.display.status_text, "ok");
    assert_eq!(output.display.args, "/tmp/f");
    let failed = edit_file(&arguments, &Err("no such file".to_owned()), &Ok(())).unwrap_err();
    assert_eq!(failed.message, "no such file");
    let empty = dict(vec![("path", text("/tmp/f")), ("edits", CborValue::Array(vec![]))]);
    assert_eq!(
        edit_file(&empty, &Ok(String::new()), &Ok(())).unwrap_err().message,
        "edits array must not be empty"
    );
}

#[test]
fn a_written_file_is_told() {
    let arguments = dict(vec![("path", text("/tmp/g")), ("content", text("new\n"))]);
    let plan = plan_write(&arguments).expect("plan");
    assert_eq!((plan.path.as_str(), plan.content.as_str()), ("/tmp/g", "new\n"));
    assert!(write_file(&arguments, true, "", &Ok(())).is_ok());
    assert_eq!(
        write_file(&arguments, true, "", &Err("denied".to_owned())).unwrap_err().message,
        "denied"
    );
}

#[test]
fn diffs_pair_changed_lines() {
    let summary = compute_diff("a\nold word\nc\n", "a\nnew word\nc\nd\n");
    assert_eq!((summary.added, summary.removed), (2, 1));
    assert_eq!(summary.hunks.len(), 1);
    let hunk = &summary.hunks[0];
    assert_eq!((hunk.old_start, hunk.old_count, hunk.new_start, hunk.new_count), (1, 3, 1, 4));
    let modified = hunk
        .lines
        .iter()
        .find_map(|l| match l {
            DiffLine::Modify { old, new } => Some((old, new)),
            _ => None,
        })
        .expect("a changed line");
    assert!(modified.0.iter().any(|s| matches!(s, DiffSegment::Remove { text } if text == "old")));
    assert!(modified.1.iter().any(|s| matches!(s, DiffSegment::Add { text } if text == "new")));
    let unified = unified_diff(&summary).expect("a diff");
    assert!(unified.contains("-old word") && unified.contains("+new word"));
    assert_eq!(unified_diff(&compute_diff("same\n", "same\n")), None);
}

#[test]
fn reading_numbers_lines_and_marks_endings() {
    let slice = slice_bytes(&b"a\nb\r\nc".to_vec(), 1, None);
    assert_eq!(slice.content, "1(lf) a\n2(crlf) b\n3(no_nl) c");
    let slice = slice_bytes(&b"a\nb\nc\r".to_vec(), 2, Some(2));
    assert_eq!(slice.content, "2 b\n3(cr) c");
    assert_eq!((slice.line_count, slice.total_lines, slice.valid_utf8), (2, 3, true));
    let slice = slice_bytes(&vec![0xff, b'\n', b'x', b'\n'], 1, None);
    assert_eq!(slice.content, "1(invalid-utf8) \u{fffd}\n2 x");
    assert!(!slice.valid_utf8);
    assert_eq!(slice_lines("p\nq\nr\n", 2, Some(1)).content, "2 q");
}

#[test]
fn reading_checks_its_arguments() {
    let of = |entries: Vec<(&str, CborValue)>| plan_read(&dict(entries));
    assert!(of(vec![]).is_err());
    assert_eq!(
        of(vec![("path", text("f")), ("start_line", number(0))]).unwrap_err().message,
        "start_line must be >= 1"
    );
    assert_eq!(
        of(vec![("path", text("f")), ("line_count", number(0))]).unwrap_err().message,
        "line_count must be >= 1"
    );
    let arguments = dict(vec![("path", text("f")), ("start_line", number(9))]);
    assert_eq!(
        read_file(&arguments, &Ok(2), &Ok(b"a\n".to_vec())).unwrap_err().message,
        "start_line 9 is past end of file (total_lines: 1)"
    );
    let whole = dict(vec![("path", text("f"))]);
    let output = read_file(&whole, &Ok(2), &Ok(b"a\n".to_vec())).expect("read");
    assert_eq!(field(&output.result, "line-numbered content"), Some(&text("1 a")));
    assert_eq!(field(&output.result, "total_lines"), Some(&number(1)));
}

#[test]
fn reading_takes_ranges_of_lines() {
    let file = Ok(b"a\nb\nc\nd\n".to_vec());
    let content = |arguments: CborValue| -> Result<(String, String), String> {
        let output = read_file(&arguments, &Ok(8), &file).map_err(|f| f.message)?;
        match field(&output.result, "line-numbered content") {
            Some(CborValue::Text(content)) => Ok((content.clone(), output.display.args)),
            other => panic!("expected content, got {other:?}"),
        }
    };
    let slice = |start: i128, end: i128| {
        dict(vec![("start_line", number(start)), ("end_line", number(end))])
    };
    let one = |start: i128, end: i128| {
        content(dict(vec![
            ("path", text("f")),
            ("start_line", number(start)),
            ("end_line", number(end)),
        ]))
    };
    let many = |ranges: CborValue| content(dict(vec![("path", text("f")), ("ranges", ranges)]));
    assert_eq!(one(2, 3), Ok(("2 b\n3 c".to_owned(), "f 2..4".to_owned())));
    assert_eq!(one(4, 9).expect("up to the end").0, "4 d");
    assert_eq!(one(3, 2).unwrap_err(), "end_line must be >= start_line");
    assert_eq!(one(1, 0).unwrap_err(), "end_line must be >= 1");
    assert_eq!(one(5, 6).unwrap_err(), "start_line 5 is past end of file (total_lines: 4)");
    assert_eq!(
        many(CborValue::Array(vec![slice(1, 2), slice(2, 2)])),
        Ok(("1 a\n2 b\n\n2 b".to_owned(), "f 1..3,2..3".to_owned()))
    );
    assert_eq!(
        many(CborValue::Array(vec![slice(1, 2), slice(7, 8), slice(9, 9)])).unwrap_err(),
        "start_line 7 is past end of file (total_lines: 4)"
    );
    assert_eq!(many(CborValue::Array(vec![])).unwrap_err(), "ranges array must not be empty");
    assert_eq!(many(text("1-2")).unwrap_err(), "argument `ranges` must be an array");
    assert_eq!(
        many(CborValue::Array((0..101).map(|_| slice(1, 1)).collect())).unwrap_err(),
        "ranges array must not have more than 100 items"
    );
    assert_eq!(
        many(CborValue::Array(vec![dict(vec![("end_line", number(1))])])).unwrap_err(),
        "each range must have an integer start_line"
    );
    assert_eq!(
        many(CborValue::Array(vec![dict(vec![("start_line", number(1))])])).unwrap_err(),
        "each range must have an integer end_line"
    );
    let both = dict(vec![
        ("path", text("f")),
        ("start_line", number(1)),
        ("ranges", CborValue::Array(vec![slice(1, 2)])),
    ]);
    assert_eq!(
        content(both).unwrap_err(),
        "ranges cannot be combined with start_line or end_line"
    );
}

#[test]
fn reading_is_refused_where_it_would_be_too_much() {
    let whole = dict(vec![("path", text("f"))]);
    let large = read_file(&whole, &Ok(MAX_READ_BYTES + 1), &Ok(Vec::new())).unwrap_err();
    assert_eq!(large.message, "file is too large to read: 10485761 bytes (limit: 10485760)");
    assert!(read_file(&whole, &Ok(MAX_READ_BYTES), &Ok(b"a\n".to_vec())).is_ok());
    let line = dict(vec![("start_line", number(1)), ("end_line", number(1))]);
    let content = vec![b'x'; MAX_READ_BYTES / 2 + 1];
    let ranges = |n: usize| {
        dict(vec![
            ("path", text("f")),
            ("ranges", CborValue::Array((0..n).map(|_| line.copy()).collect())),
        ])
    };
    assert!(read_file(&ranges(1), &Ok(content.len()), &Ok(content.clone())).is_ok());
    assert_eq!(
        read_file(&ranges(2), &Ok(content.len()), &Ok(content)).unwrap_err().message,
        "ranges overlap too much: together they hold more than 10485760 bytes"
    );
}

#[test]
fn searches_have_a_largest_limit() {
    let limits = |limit: i128| {
        let arguments = dict(vec![
            ("pattern", text("x")),
            ("limit", number(limit)),
            ("context", number(limit)),
        ]);
        let plan = plan_grep(&arguments).expect("plan");
        let context = plan.argv.iter().find(|a| a.starts_with("--context=")).cloned();
        (plan.limit, context.expect("context"))
    };
    assert_eq!(limits(7), (7, "--context=7".to_owned()));
    assert_eq!(limits(2000), (2000, "--context=20".to_owned()));
    assert_eq!(limits(2001), (2000, "--context=20".to_owned()));
    assert_eq!(limits(-1), (1, "--context=0".to_owned()));
}

#[test]
fn a_long_read_shows_both_ends() {
    let whole = dict(vec![("path", text("f"))]);
    let content = b"x\n".repeat(2001);
    let output = read_file(&whole, &Ok(content.len()), &Ok(content)).expect("read");
    let mut expected: Vec<String> = (1..=1000).map(|n| format!("{n} x")).collect();
    expected.push("...".to_owned());
    expected.extend((1002..=2001).map(|n| format!("{n} x")));
    assert_eq!(
        field(&output.result, "line-numbered content"),
        Some(&text(&expected.join("\n")))
    );
    assert_eq!(field(&output.result, "truncated"), Some(&CborValue::Bool(true)));
    assert_eq!(field(&output.result, "total_lines"), Some(&number(2001)));
    assert_eq!(field(&output.result, "total_bytes"), Some(&number(4002)));
    let short = b"x\n".repeat(2000);
    let output = read_file(&whole, &Ok(short.len()), &Ok(short)).expect("read");
    assert_eq!(field(&output.result, "truncated"), None);
    assert_eq!(field(&output.result, "total_bytes"), None);
}

#[test]
fn paths_are_the_same_part_by_part() {
    for (a, b) in [
        ("/srv/x", "/srv/x/"),
        ("/srv//x", "/srv/x"),
        ("/srv/./x", "/srv/x/."),
        ("//srv", "/srv"),
        ("./a", "././a"),
        ("", ""),
    ] {
        assert!(same_path(a, b), "{a} and {b}");
    }
    for (a, b) in [("/srv/x", "srv/x"), ("./a", "a"), ("", "."), ("/a/../b", "/b"), ("/a", "/A")] {
        assert!(!same_path(a, b), "{a} and {b}");
    }
    let plain = Some("/srv/x".to_owned());
    let slash = Some("/srv/x/".to_owned());
    assert!(matches!(decide_working_directory(&plain, &slash, true), WorkdirDecision::Keep));
    let mut state = CwdState::new();
    let agent = "main".to_owned();
    assert!(state
        .start_pending_cd_result(agent.clone(), "/x".to_owned(), call("cd", CborValue::Null), None)
        .is_ok());
    let done = state
        .take_committed_pending_cd_result(&agent, &"/x/".to_owned())
        .expect("an answer");
    assert!(done.matched_request);
}

#[test]
fn a_changed_file_is_told_as_changed() {
    let arguments = dict(vec![("path", text("/tmp/g")), ("content", text("new\n"))]);
    let hunks = |original: &str| {
        let output = write_file(&arguments, false, original, &Ok(())).expect("written");
        match output.display.payload {
            Some(ToolUsePayload::Diff(summary)) => summary.hunks.len(),
            other => panic!("expected a diff, got {other:?}"),
        }
    };
    assert_eq!(hunks("old\n"), 1);
    assert_eq!(hunks("new"), 1);
    assert_eq!(hunks(""), 1);
    assert_eq!(hunks("new\n"), 0);
}

fn walk(paths: &[&str]) -> Vec<WalkEntry> {
    paths.iter().map(|p| WalkEntry { path: p.to_string(), is_file: !p.ends_with('/') }).collect()
}

#[test]
fn finding_matches_globs_in_order() {
    let arguments = dict(vec![("pattern", text("**/*.rs")), ("path", text("."))]);
    let output = run_find(
        &arguments,
        &Ok(true),
        &Ok(walk(&["./src/Z.rs", "./src/a.rs", "./README.md", "./src/"])),
    )
    .expect("found");
    let shown = format!("{:?}", output.result);
    let a = shown.find("src/a.rs").expect("a.rs");
    let z = shown.find("src/Z.rs").expect("Z.rs");
    // Case does not count for the order.
    assert!(a < z);
    assert!(!shown.contains("README"));
    let bad = dict(vec![("pattern", text("a[")), ("path", text("."))]);
    assert!(run_find(&bad, &Ok(true), &Ok(walk(&[]))).is_err());
    assert!(run_find(&arguments, &Ok(false), &Ok(walk(&[]))).is_err());
    assert_eq!(
        select_paths(
            &vec!["a".to_owned(), "b".to_owned(), "c".to_owned()],
            &vec![true, false, true]
        ),
        vec!["a", "c"]
    );
}

fn record(kind: &str, path: &str, line: u64, content: &str) -> RgRecord {
    RgRecord {
        kind: kind.to_owned(),
        path: Some(path.to_owned()),
        text: Some(content.to_owned()),
        line_number: Some(line),
    }
}

#[test]
fn grepping_shows_matches_and_errors() {
    let arguments = dict(vec![("pattern", text("x\"y")), ("limit", number(1))]);
    let plan = plan_grep(&arguments).expect("plan");
    assert_eq!(plan.limit, 1);
    assert!(plan.args.contains("\\\""), "{}", plan.args);
    let found = GrepRun::Ended {
        records: vec![record("match", "f", 3, "has x\n"), record("match", "f", 4, "more x\n")],
        status: Some(0),
        stderr: vec![],
    };
    let output = run_grep(&arguments, &found).expect("found");
    let shown = format!("{:?}", output.result);
    assert!(shown.contains("has x") && !shown.contains("more x"));
    assert!(run_grep(&arguments, &GrepRun::NotStarted { error: "no rg".to_owned() }).is_err());
    let failed = GrepRun::Ended {
        records: vec![],
        status: Some(2),
        stderr: b"regex parse error: bad".to_vec(),
    };
    assert!(run_grep(&arguments, &failed).is_err());
    assert!(matches!(
        classify_ripgrep_stderr("x: No such file or directory"),
        RipgrepError::NotFound
    ));
    assert!(matches!(
        classify_ripgrep_stderr("x: Permission denied"),
        RipgrepError::Permission
    ));
    assert!(plan_grep(&dict(vec![])).is_err());
}

#[test]
fn lock_directories_are_brought_into_order() {
    let normal = normalize_lock_dirs(vec![dir("/b"), dir("/a/x"), dir("/a"), dir("/b")]);
    let shown: Vec<String> = normal.iter().map(|d| d.display()).collect();
    assert_eq!(shown, vec!["/a", "/b"]);
    assert!(paths_overlap(&dir("/a"), &dir("/a/b")));
    assert!(!paths_overlap(&dir("/a"), &dir("/ab")));
}

const POLICY: LockWaitPolicy =
    LockWaitPolicy { liveness_interval: 1_000, abandoned_after: 100_000 };

#[test]
fn locks_of_different_owners_exclude_each_other() {
    let mut locks = LockState::new();
    let first =
        locks.acquire_manual("c1".to_owned(), "one".to_owned(), dir("/p"), 0);
    assert!(matches!(first, ManualStart::Granted));
    let again =
        locks.acquire_manual("c2".to_owned(), "one".to_owned(), dir("/p/q"), 0);
    assert!(matches!(again, ManualStart::AlreadyHeld { .. }));
    let ManualStart::Waiting { waiter } =
        locks.acquire_manual("c3".to_owned(), "two".to_owned(), dir("/p"), 0)
    else {
        panic!("expected to wait");
    };
    assert!(matches!(locks.poll_manual(waiter, 0, 10, POLICY), ManualPoll::Wait { .. }));
    assert_eq!(locks.unlock_manual(&"one".to_owned(), &dir("/p")), Ok(()));
    assert!(locks.unlock_manual(&"one".to_owned(), &dir("/p")).is_err());
    assert!(matches!(locks.poll_manual(waiter, 0, 20, POLICY), ManualPoll::Granted));
    assert_eq!(locks.release_agent(&"two".to_owned()), 1);
}

#[test]
fn waiting_calls_can_be_cancelled_and_abandoned_locks_are_told() {
    let mut locks = LockState::new();
    locks.acquire_manual("c1".to_owned(), "one".to_owned(), dir("/p"), 0);
    let AutoStart::Waiting { waiter } =
        locks.acquire_auto("c2".to_owned(), "two".to_owned(), vec![dir("/p")], false, 0)
    else {
        panic!("expected to wait");
    };
    assert!(matches!(
        locks.poll_auto(waiter, false, 0, 200_000, POLICY),
        AutoPoll::Abandoned(_)
    ));
    let AutoStart::Waiting { waiter } =
        locks.acquire_auto("c4".to_owned(), "two".to_owned(), vec![dir("/p")], false, 0)
    else {
        panic!("expected to wait");
    };
    assert!(locks.cancel_waiting_call(&"c4".to_owned()));
    assert!(!locks.cancel_waiting_call(&"c4".to_owned()));
    assert!(matches!(locks.poll_auto(waiter, false, 0, 10, POLICY), AutoPoll::Cancelled));
    assert!(matches!(
        locks.acquire_auto("c5".to_owned(), "two".to_owned(), vec![dir("/q")], true, 0),
        AutoStart::NotCovered
    ));
    assert_eq!(locks.force_unlock_overlapping(&dir("/p/sub")).len(), 1);
}

#[test]
fn the_lock_tool_needs_locking() {
    let mut locks = LockState::new();
    let arguments = dict(vec![("command", text("update")), ("directory", text("/p"))]);
    let invoked = call("dir_lock", arguments);
    match dispatch_dir_lock_tool(&invoked, false, &Ok(dir("/p")), &None, &mut locks, 0) {
        DirLockStep::Done(Event::ToolError { .. }) => {}
        other => panic!("expected a refusal, got {other:?}"),
    }
    match dispatch_dir_lock_tool(&invoked, true, &Ok(dir("/p")), &None, &mut locks, 0) {
        DirLockStep::Done(Event::ToolResult { .. }) => {}
        other => panic!("expected a lock, got {other:?}"),
    }
    assert_eq!(locks.manual.len(), 1);
}

#[test]
fn calls_are_routed_and_weighed() {
    assert!(is_shell_tool("read", false) && is_shell_tool("echo", true));
    assert!(!is_shell_tool("echo", false) && !is_shell_tool("write", false));
    assert!(matches!(route_for_tool("edit", true), Route::Locked));
    assert!(matches!(route_for_tool("edit", false), Route::Plain(_)));
    assert!(matches!(route_for_tool("dir_lock", true), Route::DirLock));
    assert_eq!(priority_for_tool(&call("read", CborValue::Null)), WorkPriority::Cheap);
    assert_eq!(priority_for_tool(&call("edit", CborValue::Null)), WorkPriority::Bulk);
    assert_eq!(estimate_cbor_bytes(&text("abcd"), 100), estimate_cbor_bytes(&text("wxyz"), 100));
    assert_eq!(estimate_cbor_bytes(&text("abcdefghij"), 3), 3);
    assert_eq!(join_path("/a", "/b"), "/b");
    assert_eq!(join_path("/a", "b"), "/a/b");
}

#[test]
fn long_waits_for_locks_are_told_once() {
    assert_eq!(reported_lock_wait_duration_seconds(0), None);
    let secs = reported_lock_wait_duration_seconds(7_000_000_000).expect("told");
    assert_eq!(secs, 7);
    let once = cbor_value_with_lock_wait_duration(dict(vec![("a", number(1))]), secs, "output");
    assert_eq!(field(&once, "lock_wait_duration_seconds"), Some(&number(7)));
    let wrapped = cbor_value_with_lock_wait_duration(text("x"), secs, "output");
    assert_eq!(field(&wrapped, "output"), Some(&text("x")));
}

#[test]
fn failures_are_shown_on_short_chips() {
    assert_eq!(error_chip_text("short"), "err: short");
    assert_eq!(error_chip_text("\n  \n"), "err");
    assert_eq!(error_chip_text(&"long ".repeat(40)).chars().count(), 69);
    let failure = ToolFailure::new("m".to_owned()).with_args("a".to_owned());
    assert_eq!(failure.display.args, "a");
    let failure = failure.with_details(number(1));
    assert_eq!(failure.details, Some(number(1)));
}

#[test]
fn the_working_directory_is_set_once_and_before_the_first_event() {
    let a = Some("/a".to_owned());
    let b = Some("/b".to_owned());
    assert!(matches!(decide_working_directory(&a, &a, true), WorkdirDecision::Keep));
    assert!(matches!(decide_working_directory(&a, &b, false),
        WorkdirDecision::Refuse { message }
            if message == "ext-shell working_directory cannot be changed after startup (current: /a, requested: /b)"));
    assert!(matches!(decide_working_directory(&None, &b, true),
        WorkdirDecision::Refuse { message }
            if message == "ext-shell working_directory cannot be set after runtime events have started"));
    assert!(matches!(decide_working_directory(&None, &b, false),
        WorkdirDecision::Change { path } if path == "/b"));
}

#[test]
fn history_runs_no_tool() {
    let mut state = ShellExtension::new(false, "/work".to_owned());
    let started = || Incoming::ToolStarted(call("read", dict(vec![("path", text("f"))])));
    state.step(HarnessMessage::Deliver { replay: true, event: started() });
    assert!(state.scheduler.cheap.is_empty());
    state.step(HarnessMessage::Deliver { replay: false, event: started() });
    assert_eq!(state.scheduler.cheap.len(), 1);
    let outputs = run(&mut state, vec![HarnessMessage::Disconnect]);
    assert!(outputs[0].stop);
    assert!(state.scheduler.cheap.is_empty());
}

#[test]
fn unloaded_agents_are_forgotten() {
    let mut state = ShellExtension::new(false, "/work".to_owned());
    state.step(HarnessMessage::Deliver {
        replay: false,
        event: Incoming::ToolStarted(call("edit", dict(vec![("path", text("f"))]))),
    });
    assert_eq!(state.scheduler.bulk.len(), 1);
    state.step(HarnessMessage::Deliver {
        replay: false,
        event: Incoming::AgentUnloaded { agent_id: "main".to_owned() },
    });
    assert!(state.scheduler.bulk.is_empty());
}

#[test]
fn a_pending_directory_change_is_answered_once() {
    let mut state = CwdState::new();
    let agent = "main".to_owned();
    assert!(state
        .start_pending_cd_result(agent.clone(), "/x".to_owned(), call("cd", CborValue::Null), None)
        .is_ok());
    assert!(state
        .start_pending_cd_result(agent.clone(), "/y".to_owned(), call("cd", CborValue::Null), None)
        .is_err());
    let done = state
        .take_committed_pending_cd_result(&agent, &"/x".to_owned())
        .expect("an answer");
    assert!(done.matched_request);
    assert!(state.take_pending_cd_result(&agent).is_none());
    assert_eq!(state.get_or_default(&agent, &"/d".to_owned()), "/d");
    state.set(agent.clone(), "/x".to_owned());
    assert_eq!(state.get(&agent).as_deref(), Some("/x"));
}

#[test]
fn skills_are_looked_for_up_to_the_home_directory() {
    let ancestors = vec![dir("/home/u/p/q"), dir("/home/u/p"), dir("/home/u"), dir("/home"), dir("/")];
    let dirs =
        project_skill_ancestor_dirs(&ancestors, &dir("/home/u/p/q"), &Some(dir("/home/u")));
    assert!(dirs.iter().any(|d| d.display() == "/home/u/p/q"));
    assert!(!dirs.iter().any(|d| d.display() == "/home"));
    let (project, user) =
        session_skill_dirs(&ancestors, &Some(dir("/home/u/p/q")), &Some(dir("/home/u")));
    assert!(!project.is_empty() && !user.is_empty());
    let notice = skill_notice(DiagnosticKind::Warning, "/s", "odd");
    assert_eq!(notice.level, NoticeLevel::Info);
    assert_eq!(notice.kind, "skill.warning");
    assert_eq!(notice.message, "skill warning: /s\nodd");
    let notice = skill_notice(DiagnosticKind::Skipped, "/s", "odd");
    assert_eq!(notice.level, NoticeLevel::Warning);
    assert!(notice.always_show);
}

#[test]
fn the_lock_tool_is_offered_where_locking_is_on() {
    let on = tool_specs(true, true);
    let off = tool_specs(false, false);
    assert_eq!(on.len(), 11);
    assert_eq!(off.len(), 10);
    assert_eq!(on[0].name, "echo");
    let lock = |specs: &[tau_extensions::shell::specs::ToolEntry]| {
        specs
            .iter()
            .find(|s| s.name == "dir_lock")
            .map(|s| (s.enabled_by_default, s.tags.len()))
    };
    assert_eq!(lock(&on), Some((true, 1)));
    assert_eq!(lock(&off), Some((false, 0)));
    assert_eq!(off[9].model_visible_name.as_deref(), Some("shell_command"));
}

#[test]
fn json_survives_cbor() {
    let value = JsonValue::Object(vec![
        ("b".to_owned(), JsonValue::Integer(-1)),
        ("a".to_owned(), JsonValue::Array(vec![JsonValue::Float("2.5".to_owned())])),
    ]);
    assert_eq!(cbor_to_json(&json_to_cbor(&value)), Ok(value));
    let wide = JsonValue::Integer(u64::MAX as i128);
    assert!(cbor_to_json(&json_to_cbor(&wide)).is_err());
    assert_eq!(cbor_to_nearest_json(&json_to_cbor(&wide)), wide);
}

#[test]
fn what_json_cannot_say_is_refused_or_left_out() {
    let error = |v: CborValue| cbor_to_json(&v).unwrap_err();
    assert_eq!(error(CborValue::Bytes(vec![])), "CBOR bytes are not JSON-compatible");
    assert_eq!(error(CborValue::Float("inf".to_owned())), "CBOR float must be finite");
    assert_eq!(
        error(CborValue::Dict(vec![(number(1), number(2))])),
        "CBOR map key is not a string"
    );
    let twice = CborValue::Dict(vec![
        (text("k"), number(1)),
        (number(7), number(7)),
        (text("k"), number(2)),
    ]);
    assert_eq!(
        cbor_to_nearest_json(&twice),
        JsonValue::Object(vec![("k".to_owned(), JsonValue::Integer(2))])
    );
}

#[test]
fn texts_are_taken_apart() {
    assert_eq!(lines("a\r\nb\n\nc"), vec!["a", "b", "", "c"]);
    assert_eq!(trim(" \u{a0}x\t"), "x");
    assert_eq!(utf8_prefix("a\u{e9}b", 2), "a");
    assert_eq!(strip_prefix("prefix", "pre").as_deref(), Some("fix"));
    assert_eq!(strip_prefix("prefix", "fix"), None);
    assert_eq!(trim_end_matches("x//", '/'), "x");
    assert!(ends_with("abc", "bc") && !ends_with("c", "bc"));
    assert_eq!(lossy_text(&[b'a', 0xe2, 0x82, b'b']), "a\u{fffd}b");
    assert_eq!(strict_text(&[0xff]), None);
    assert_eq!(strict_text("\u{20ac}".as_bytes()).as_deref(), Some("\u{20ac}"));
    assert_eq!(parse_number("+12", 12), Some(12));
    assert_eq!(parse_number("13", 12), None);
    assert_eq!(parse_number("", 12), None);
    assert_eq!(parse_number("1x", 100), None);
}

#[test]
fn paths_are_sorted_by_their_keys() {
    let owned = |list: &[&str]| list.iter().map(|s| s.to_string()).collect::<Vec<String>>();

    let sorted = sort_by_keys(owned(&["B", "a", "C", "A"]), owned(&["b", "a", "c", "a"]));

    assert_eq!(sorted, owned(&["a", "A", "B", "C"]));
    assert!(sort_by_keys(Vec::new(), Vec::new()).is_empty());
}

#[test]
fn every_schema_of_arguments_is_an_object() {
    for entry in tool_specs(true, true) {
        assert!(!entry.description.is_empty());
        let Some(parameters) = entry.parameters else {
            assert!(entry.takes_text || entry.name == "echo");
            continue;
        };
        let schema = parse_json(&parameters).expect("a schema");
        assert_eq!(get(&schema, "type"), Some(&JsonValue::Text("object".to_owned())));
        assert_eq!(get(&schema, "additionalProperties"), Some(&JsonValue::Bool(false)));
    }
}

#[test]
fn the_harness_is_told_of_everything_before_ready() {
    let diagnostics = vec![SkillDiagnostic {
        kind: DiagnosticKind::Collision,
        path: "/s".to_owned(),
        message: "twice".to_owned(),
    }];
    let skills = vec![Skill {
        name: "review".to_owned(),
        description: "Reads changes".to_owned(),
        file_path: "/s/SKILL.md".to_owned(),
        add_to_prompt: true,
        user_invocable: false,
        disable_model_invocation: false,
        argument_hint: None,
    }];
    let files = vec![AgentsFile { file_path: "/AGENTS.md".to_owned(), content: "hi".to_owned() }];

    let told = startup(false, false, &diagnostics, skills, files);

    assert_eq!(told.len(), 18);
    assert!(matches!(&told[0], Announcement::Subscribe(events) if events.len() == 11));
    assert!(matches!(&told[1], Announcement::Register(entry) if entry.name == "read"));
    assert!(matches!(&told[11], Announcement::ContextProvider));
    assert!(matches!(&told[12], Announcement::Fragment(f) if f.priority == 900));
    assert!(matches!(
        &told[13],
        Announcement::Actions(command) if command.action_id == "shell.dir.force_unlock"
    ));
    assert!(matches!(&told[14], Announcement::Notice(n) if n.level == NoticeLevel::Trace));
    assert!(matches!(&told[15], Announcement::SkillAvailable(skill) if skill.name == "review"));
    assert!(matches!(&told[16], Announcement::AgentsFileAvailable(f) if f.content == "hi"));
    assert!(matches!(
        &told[17],
        Announcement::Ready(text) if text == "filesystem and shell tools ready"
    ));
}

fn at(names: &[&str]) -> DirPath {
    DirPath { names: names.iter().map(|s| s.to_string()).collect() }
}

fn missing() -> Lookup {
    Lookup::Missing { error: "gone".to_owned() }
}

fn led_to(path: &str, parent: Option<&str>) -> Result<Target, String> {
    Ok(Target { path: path.to_owned(), parent: parent.map(str::to_owned) })
}

#[test]
fn a_directory_is_there_or_it_is_said_why_not() {
    assert_eq!(canonical_existing_dir("x", &Lookup::Dir { at: at(&["a"]) }), Ok(at(&["a"])));
    assert_eq!(
        canonical_existing_dir("x", &missing()),
        Err("directory x does not exist: gone".to_owned())
    );
    assert_eq!(
        canonical_existing_dir("x", &Lookup::File { at: at(&["a", "x"]) }),
        Err("/a/x is not a directory".to_owned())
    );
    let hidden = Lookup::Hidden { at: at(&["a", "x"]), error: "denied".to_owned() };
    assert_eq!(
        canonical_existing_dir("x", &hidden),
        Err("failed to stat directory /a/x: denied".to_owned())
    );
    let failed = canonical_shell_cwd("x", &missing()).unwrap_err();
    assert_eq!(failed.display.args, "x");
}

#[test]
fn a_write_locks_the_deepest_directory() {
    let found = vec![
        missing(),
        Lookup::Dir { at: at(&["a", "b"]) },
        Lookup::Dir { at: at(&["a"]) },
    ];
    let target = led_to("/a/b/c/f", Some("/a/b/c"));
    let locked = canonical_write_lock_dir("f", &target, &found);
    assert_eq!(locked.expect("a directory"), at(&["a", "b"]));

    let none = canonical_deepest_existing_ancestor("/a/b", &vec![missing(), missing()]);
    assert_eq!(none, Err("no existing ancestor directory for /a/b".to_owned()));

    let failed = canonical_write_lock_dir("f", &Err("loop".to_owned()), &Vec::new()).unwrap_err();
    assert_eq!(failed.message, "failed to resolve f: loop");
    let failed = canonical_write_lock_dir("f", &led_to("/", None), &Vec::new()).unwrap_err();
    assert_eq!(failed.message, "path / has no parent directory");
    assert_eq!(failed.display.args, "f");
}

#[test]
fn a_change_in_place_locks_where_the_file_is() {
    let file = Lookup::File { at: at(&["real", "f"]) };
    let dir = Lookup::Dir { at: at(&["asked"]) };
    let target = led_to("/asked/f", Some("/asked"));

    let link = canonical_update_lock_dir("f", &Standing::Link, &file, &target, &dir);
    assert_eq!(link.expect("a directory"), at(&["real"]));
    for standing in [Standing::Other, Standing::Nothing] {
        let plain = canonical_update_lock_dir("f", &standing, &file, &target, &dir);
        assert_eq!(plain.expect("a directory"), at(&["asked"]));
    }
    let unknown = Standing::Unknown { error: "denied".to_owned() };
    let failed = canonical_update_lock_dir("f", &unknown, &file, &target, &dir).unwrap_err();
    assert_eq!(failed.message, "failed to stat file f: denied");

    let failed = canonical_existing_file_parent("f", &missing()).unwrap_err();
    assert_eq!(failed.message, "file f does not exist: gone");
    let failed = canonical_existing_file_parent("f", &dir).unwrap_err();
    assert_eq!(failed.message, "/asked is a directory, not a file");
    let failed = canonical_path_parent("f", &target, &missing()).unwrap_err();
    assert_eq!(failed.message, "directory /asked does not exist: gone");
}
