//! How a tool call is queued, run and answered.

use vstd::prelude::*;

use crate::path::{copy_dirs, dir_views, normal_form, normalize_lock_dirs, path_text, DirPath};
use crate::shell::command::{CommandOutcome, CommandOutcomeView, ShellAccessMode, ShellCommandMode,
    NANOS_PER_SEC};
use crate::shell::cwd_state::{cwd_key, CwdState, CwdView, PendingView};
use crate::shell::dir_lock::{
    AutoPoll, AutoPollView, AutoStart, AutoStartView, LockState, LockView, LockWaitPolicy,
    ManualView,
};
use crate::shell::dir_lock_tool::{abandoned_details, found_view, waiting_event,
    waiting_progress_event, ABANDONED_LOCK_ERROR, DIR_LOCK_TOOL_NAME};
use crate::shell::display::{failure, failure_with_args, outcome_view, FailureView, OutputView, ToolFailure,
    ToolOutput};
use crate::shell::event::{cancelled_call_event, cancelled_event, event_views, failure_event,
    push_event, result_event, tool_failure, tool_result, Event, EventView, StartedView, ToolStarted};
use crate::shell::scheduler::WorkPriority;
use crate::text::{byte_len, chars_of, decimal, decimal_of, join, join_of, push_text, same_text,
    utf8_len, views};
use crate::value::{
    cbor_map_text, entry, entry_views, field, group_cbor_views, text_field, value_views, Cbor,
    CborValue,
};

verus! {

pub const ECHO_TOOL_NAME: &'static str = "echo";

pub const READ_TOOL_NAME: &'static str = "read";

pub const WRITE_TOOL_NAME: &'static str = "write";

pub const EDIT_TOOL_NAME: &'static str = "edit";

pub const SHELL_TOOL_NAME: &'static str = "shell";

pub const GPT_SHELL_TOOL_NAME: &'static str = "gpt_shell";

pub const APPLY_PATCH_TOOL_NAME: &'static str = "apply_patch";

pub const GREP_TOOL_NAME: &'static str = "grep";

pub const FIND_TOOL_NAME: &'static str = "find";

pub const LS_TOOL_NAME: &'static str = "ls";

pub const CD_TOOL_NAME: &'static str = "cd";

/// Seconds of waiting for a lock that are reported only when they are passed.
pub const SLOW_LOCK_WAIT_THRESHOLD_SECS: u64 = 5;

/// The entry that reports the time a call waited for a lock.
pub const LOCK_WAIT_DURATION_SECONDS_HEADER: &'static str = "lock_wait_duration_seconds";

/// The tools that run a command.
pub open spec fn runs_commands(name: Seq<char>) -> bool {
    name == SHELL_TOOL_NAME@ || name == GPT_SHELL_TOOL_NAME@
}

/// The tools that update files, and so lock directories.
pub open spec fn updates_files(name: Seq<char>) -> bool {
    name == EDIT_TOOL_NAME@ || name == APPLY_PATCH_TOOL_NAME@ || runs_commands(name)
}

/// The tools that read files below a path.
pub open spec fn reads_files(name: Seq<char>) -> bool {
    name == READ_TOOL_NAME@ || name == GREP_TOOL_NAME@ || name == FIND_TOOL_NAME@ || name
        == LS_TOOL_NAME@
}

/// The tools of this extension. The echo tool is one of them where it is
/// offered.
pub open spec fn is_own_tool(name: Seq<char>, echo: bool) -> bool {
    reads_files(name) || updates_files(name) || name == CD_TOOL_NAME@ || name
        == DIR_LOCK_TOOL_NAME@ || (echo && name == ECHO_TOOL_NAME@)
}

/// Whether a tool runs a command.
pub fn is_shell_command_tool(name: &str) -> (b: bool)
    ensures
        b == runs_commands(name@),
{
    same_text(name, SHELL_TOOL_NAME) || same_text(name, GPT_SHELL_TOOL_NAME)
}

/// Whether a tool updates files.
pub fn is_dir_lock_update_tool(name: &str) -> (b: bool)
    ensures
        b == updates_files(name@),
{
    same_text(name, EDIT_TOOL_NAME) || same_text(name, APPLY_PATCH_TOOL_NAME)
        || is_shell_command_tool(name)
}

/// Whether a tool reads files below a path.
pub fn is_reading_tool(name: &str) -> (b: bool)
    ensures
        b == reads_files(name@),
{
    same_text(name, READ_TOOL_NAME) || same_text(name, GREP_TOOL_NAME) || same_text(
        name,
        FIND_TOOL_NAME,
    ) || same_text(name, LS_TOOL_NAME)
}

/// Whether a tool is the echo tool, where that is offered.
pub fn is_echo_tool(name: &str, echo: bool) -> (b: bool)
    ensures
        b == (echo && name@ == ECHO_TOOL_NAME@),
{
    echo && same_text(name, ECHO_TOOL_NAME)
}

/// Whether a tool is one of this extension.
pub fn is_shell_tool(name: &str, echo: bool) -> (b: bool)
    ensures
        b == is_own_tool(name@, echo),
{
    is_reading_tool(name) || is_dir_lock_update_tool(name) || same_text(name, CD_TOOL_NAME)
        || same_text(name, DIR_LOCK_TOOL_NAME) || is_echo_tool(name, echo)
}

/// Whether a call of the lock tool asks for a lock.
pub fn is_dir_lock_update_invocation(arguments: &CborValue) -> (b: bool)
    ensures
        b == (text_field(arguments@, "command"@) == Some("update"@)),
{
    match cbor_map_text(arguments, "command") {
        Some(command) => same_text(command.as_str(), "update"),
        None => false,
    }
}

/// The lane of a call: lock calls that do not wait come first, reading tools
/// are cheap, and everything else is bulk work.
pub open spec fn priority_of(call: StartedView) -> WorkPriority {
    if call.tool_name == DIR_LOCK_TOOL_NAME@ {
        if text_field(call.arguments, "command"@) == Some("update"@) {
            WorkPriority::Bulk
        } else {
            WorkPriority::Control
        }
    } else if reads_files(call.tool_name) {
        WorkPriority::Cheap
    } else {
        WorkPriority::Bulk
    }
}

/// The lane of a call.
pub fn priority_for_tool(call: &ToolStarted) -> (priority: WorkPriority)
    ensures
        priority == priority_of(call@),
{
    if same_text(call.tool_name.as_str(), DIR_LOCK_TOOL_NAME) {
        if is_dir_lock_update_invocation(&call.arguments) {
            return WorkPriority::Bulk;
        }
        return WorkPriority::Control;
    }
    if is_reading_tool(call.tool_name.as_str()) {
        return WorkPriority::Cheap;
    }
    WorkPriority::Bulk
}

/// About how many bytes a value takes.
pub open spec fn cbor_size(value: Cbor) -> nat
    decreases value, 0nat,
{
    match value {
        Cbor::Bytes(bytes) => bytes.len(),
        Cbor::Text(text) => utf8_len(text),
        Cbor::Tag(_, inner) => 8 + cbor_size(*inner),
        Cbor::Array(items) => 1 + items_size(items),
        Cbor::Dict(entries) => 1 + entries_size(entries),
        _ => 8,
    }
}

/// About how many bytes values take together.
pub open spec fn items_size(items: Seq<Cbor>) -> nat
    decreases items, items.len(),
{
    if items.len() == 0 {
        0
    } else {
        items_size(items.drop_last()) + cbor_size(items.last())
    }
}

/// About how many bytes entries take together.
pub open spec fn entries_size(entries: Seq<(Cbor, Cbor)>) -> nat
    decreases entries, entries.len(),
{
    if entries.len() == 0 {
        0
    } else {
        entries_size(entries.drop_last()) + cbor_size(entries.last().0) + cbor_size(
            entries.last().1,
        )
    }
}

/// The lesser of a size and a limit.
pub open spec fn at_most(size: nat, cap: usize) -> usize {
    if size <= cap {
        size as usize
    } else {
        cap
    }
}

/// A sum that stops at a limit.
pub fn saturating_add_capped(lhs: usize, rhs: usize, cap: usize) -> (sum: usize)
    ensures
        sum == at_most((lhs + rhs) as nat, cap),
{
    let sum = lhs.saturating_add(rhs);
    if sum <= cap {
        sum
    } else {
        cap
    }
}

proof fn lemma_items_size_take(items: Seq<Cbor>, n: int)
    requires
        0 <= n <= items.len(),
    ensures
        items_size(items.take(n)) <= items_size(items),
    decreases items.len(),
{
    if n < items.len() {
        lemma_items_size_take(items.drop_last(), n);
        assert(items.drop_last().take(n) =~= items.take(n));
    } else {
        assert(items.take(n) =~= items);
    }
}

proof fn lemma_entries_size_take(entries: Seq<(Cbor, Cbor)>, n: int)
    requires
        0 <= n <= entries.len(),
    ensures
        entries_size(entries.take(n)) <= entries_size(entries),
    decreases entries.len(),
{
    if n < entries.len() {
        lemma_entries_size_take(entries.drop_last(), n);
        assert(entries.drop_last().take(n) =~= entries.take(n));
    } else {
        assert(entries.take(n) =~= entries);
    }
}

/// About how many bytes a value takes, counted no further than a limit.
pub fn estimate_cbor_bytes(value: &CborValue, cap: usize) -> (bytes: usize)
    ensures
        bytes == at_most(cbor_size(value@), cap),
    decreases value,
{
    broadcast use group_cbor_views;

    if cap == 0 {
        return 0;
    }
    match value {
        CborValue::Bytes(bytes) => saturating_add_capped(bytes.len(), 0, cap),
        CborValue::Text(text) => saturating_add_capped(byte_len(text.as_str()), 0, cap),
        CborValue::Tag(_, inner) => saturating_add_capped(8, estimate_cbor_bytes(inner, cap), cap),
        CborValue::Array(items) => {
            let ghost all = value_views(items@);
            let mut total: usize = 1;
            let mut i: usize = 0;
            while i < items.len()
                invariant
                    i <= items@.len(),
                    *value is Array && *items == (*value)->Array_0,
                    all == value_views(items@),
                    cbor_size(value@) == 1 + items_size(all),
                    1 <= total < cap || i == 0 && total == 1 <= cap,
                    total == 1 + items_size(all.take(i as int)),
                decreases items.len() - i,
            {
                assert(all.take(i + 1).drop_last() =~= all.take(i as int));
                assert(all.take(i + 1).last() == items@[i as int]@);
                assert(decreases_to!(*value => *items));
                assert(decreases_to!(*items => items@[i as int]));
                total = saturating_add_capped(
                    total,
                    estimate_cbor_bytes(&items[i], cap - total),
                    cap,
                );
                i += 1;
                if cap <= total {
                    proof {
                        lemma_items_size_take(all, i as int);
                    }
                    return cap;
                }
            }
            assert(all.take(i as int) =~= all);
            total
        },
        CborValue::Dict(entries) => {
            let ghost all = entry_views(entries@);
            let mut total: usize = 1;
            let mut i: usize = 0;
            while i < entries.len()
                invariant
                    i <= entries@.len(),
                    *value is Dict && *entries == (*value)->Dict_0,
                    all == entry_views(entries@),
                    cbor_size(value@) == 1 + entries_size(all),
                    1 <= total < cap || i == 0 && total == 1 <= cap,
                    total == 1 + entries_size(all.take(i as int)),
                decreases entries.len() - i,
            {
                assert(all.take(i + 1).drop_last() =~= all.take(i as int));
                assert(all.take(i + 1).last() == (entries@[i as int].0@, entries@[i as int].1@));
                assert(decreases_to!(*value => *entries));
                assert(decreases_to!(*entries => entries@[i as int]));
                proof {
                    lemma_entries_size_take(all, i + 1);
                }
                total = saturating_add_capped(
                    total,
                    estimate_cbor_bytes(&entries[i].0, cap - total),
                    cap,
                );
                if cap <= total {
                    return cap;
                }
                total = saturating_add_capped(
                    total,
                    estimate_cbor_bytes(&entries[i].1, cap - total),
                    cap,
                );
                if cap <= total {
                    return cap;
                }
                i += 1;
            }
            assert(all.take(i as int) =~= all);
            total
        },
        _ => saturating_add_capped(8, 0, cap),
    }
}

/// About how many bytes a call takes: its names and its arguments.
pub open spec fn call_size(call: StartedView) -> nat {
    utf8_len(call.call_id) + utf8_len(call.tool_name) + utf8_len(call.agent_id) + cbor_size(
        call.arguments,
    )
}

/// About how many bytes a call takes, counted to just past the limit.
pub fn approximate_tool_bytes(call: &ToolStarted, queued_bytes_limit: usize) -> (bytes: usize)
    ensures
        queued_bytes_limit < usize::MAX ==> bytes == at_most(
            call_size(call@),
            (queued_bytes_limit + 1) as usize,
        ),
        queued_bytes_limit == usize::MAX ==> bytes == at_most(call_size(call@), usize::MAX),
{
    let cap = queued_bytes_limit.saturating_add(1);
    let base = byte_len(call.call_id.as_str()).saturating_add(
        byte_len(call.tool_name.as_str()),
    ).saturating_add(byte_len(call.agent_id.as_str()));
    saturating_add_capped(base, estimate_cbor_bytes(&call.arguments, cap), cap)
}

/// The seconds that a call waited for a lock, rounded up, where it waited long.
pub open spec fn reported_wait(elapsed_nanos: u128) -> Option<u64> {
    if elapsed_nanos <= SLOW_LOCK_WAIT_THRESHOLD_SECS * NANOS_PER_SEC {
        None
    } else {
        let secs = (elapsed_nanos - 1) / NANOS_PER_SEC as int + 1;
        Some(
            if secs <= u64::MAX {
                secs as u64
            } else {
                u64::MAX
            },
        )
    }
}

/// The seconds that a call waited for a lock, where it waited long.
pub fn reported_lock_wait_duration_seconds(elapsed_nanos: u128) -> (secs: Option<u64>)
    ensures
        secs == reported_wait(elapsed_nanos),
{
    if elapsed_nanos <= 5_000_000_000u128 {
        return None;
    }
    let secs: u128 = (elapsed_nanos - 1) / NANOS_PER_SEC + 1;
    if secs <= 18446744073709551615u128 {
        Some(secs as u64)
    } else {
        Some(u64::MAX)
    }
}

/// Seconds in 64 bits with a sign.
pub open spec fn signed_seconds(seconds: u64) -> int {
    if seconds > i64::MAX {
        i64::MAX as int
    } else {
        seconds as int
    }
}

/// The entry that reports a wait.
pub open spec fn wait_entry(seconds: u64) -> (Cbor, Cbor) {
    entry(LOCK_WAIT_DURATION_SECONDS_HEADER, Cbor::Integer(signed_seconds(seconds)))
}

/// Entries without the one that reports a wait.
pub open spec fn without_wait(entries: Seq<(Cbor, Cbor)>) -> Seq<(Cbor, Cbor)> {
    crate::seqs::keep(
        entries,
        |e: (Cbor, Cbor)| e.0 != Cbor::Text(LOCK_WAIT_DURATION_SECONDS_HEADER@),
    )
}

/// A value that reports a wait first. What is no map becomes an entry of one.
pub open spec fn value_with_wait(value: Cbor, seconds: u64, key: Seq<char>) -> Cbor {
    match value {
        Cbor::Dict(entries) => Cbor::Dict(seq![wait_entry(seconds)] + without_wait(entries)),
        other => Cbor::Dict(seq![wait_entry(seconds), (Cbor::Text(key), other)]),
    }
}

/// An event that reports how long its call waited for a lock, where it waited
/// long.
pub open spec fn event_with_wait(event: EventView, seconds: Option<u64>) -> EventView {
    match seconds {
        None => event,
        Some(seconds) => match event {
            EventView::ToolResult { call_id, tool_name, result, display, originator } =>
                EventView::ToolResult {
                call_id,
                tool_name,
                result: value_with_wait(result, seconds, "output"@),
                display,
                originator,
            },
            EventView::ToolError { call_id, tool_name, message, details, display, originator } =>
                EventView::ToolError {
                call_id,
                tool_name,
                message,
                details: Some(
                    match details {
                        Some(details) => value_with_wait(details, seconds, "details"@),
                        None => Cbor::Dict(seq![wait_entry(seconds)]),
                    },
                ),
                display,
                originator,
            },
            other => other,
        },
    }
}

fn lock_wait_duration_value(seconds: u64) -> (value: CborValue)
    ensures
        value@ == Cbor::Integer(signed_seconds(seconds)),
{
    if seconds > 9223372036854775807u64 {
        CborValue::Integer(9223372036854775807i128)
    } else {
        CborValue::Integer(seconds as i128)
    }
}

/// A value that reports a wait first.
pub fn cbor_value_with_lock_wait_duration(
    value: CborValue,
    seconds: u64,
    non_map_payload_key: &str,
) -> (r: CborValue)
    ensures
        r@ == value_with_wait(value@, seconds, non_map_payload_key@),
{
    broadcast use group_cbor_views;

    let mut out: Vec<(CborValue, CborValue)> = Vec::new();
    crate::value::push_entry(
        &mut out,
        LOCK_WAIT_DURATION_SECONDS_HEADER,
        lock_wait_duration_value(seconds),
    );
    assert(entry_views(out@) =~= seq![wait_entry(seconds)]);
    match value {
        CborValue::Dict(entries) => {
            let ghost all = entry_views(entries@);
            assert(entry_views(out@) =~= seq![wait_entry(seconds)] + without_wait(all.take(0)));
            for e in iter: entries
                invariant
                    iter.seq() == entries@,
                    all == entry_views(entries@),
                    entry_views(out@) == seq![wait_entry(seconds)] + without_wait(
                        all.take(iter.index()),
                    ),
            {
                assert(all.take(iter.index() + 1).drop_last() =~= all.take(iter.index()));
                assert(all.take(iter.index() + 1).last() == (e.0@, e.1@));
                let is_wait = match &e.0 {
                    CborValue::Text(key) => same_text(
                        key.as_str(),
                        LOCK_WAIT_DURATION_SECONDS_HEADER,
                    ),
                    _ => false,
                };
                if !is_wait {
                    let ghost before = out@;
                    out.push(e);
                    assert(entry_views(out@) =~= entry_views(before).push((e.0@, e.1@)));
                }
                assert(entry_views(out@) =~= seq![wait_entry(seconds)] + without_wait(
                    all.take(iter.index() + 1),
                ));
            }
            assert(all.take(all.len() as int) =~= all);
            CborValue::Dict(out)
        },
        other => {
            crate::value::push_entry(&mut out, non_map_payload_key, other);
            assert(entry_views(out@) =~= seq![
                wait_entry(seconds),
                (Cbor::Text(non_map_payload_key@), other@),
            ]);
            CborValue::Dict(out)
        },
    }
}

/// The event with a report of how long its call waited for a lock.
pub fn with_lock_wait_duration(event: Event, lock_wait_duration_seconds: Option<u64>) -> (r: Event)
    ensures
        r@ == event_with_wait(event@, lock_wait_duration_seconds),
{
    broadcast use group_cbor_views;

    let seconds = match lock_wait_duration_seconds {
        Some(seconds) => seconds,
        None => {
            return event;
        },
    };
    match event {
        Event::ToolResult { call_id, tool_name, result, display, originator } => {
            Event::ToolResult {
                call_id,
                tool_name,
                result: cbor_value_with_lock_wait_duration(result, seconds, "output"),
                display,
                originator,
            }
        },
        Event::ToolError { call_id, tool_name, message, details, display, originator } => {
            let details = match details {
                Some(details) => cbor_value_with_lock_wait_duration(details, seconds, "details"),
                None => {
                    let mut out: Vec<(CborValue, CborValue)> = Vec::new();
                    crate::value::push_entry(
                        &mut out,
                        LOCK_WAIT_DURATION_SECONDS_HEADER,
                        lock_wait_duration_value(seconds),
                    );
                    assert(entry_views(out@) =~= seq![wait_entry(seconds)]);
                    CborValue::Dict(out)
                },
            };
            Event::ToolError {
                call_id,
                tool_name,
                message,
                details: Some(details),
                display,
                originator,
            }
        },
        other => other,
    }
}

/// A reported wait stands first in a result, once, and what else the result
/// holds stays in its order.
pub proof fn law_wait_is_reported_once(entries: Seq<(Cbor, Cbor)>, seconds: u64)
    ensures
        ({
            let after = value_with_wait(Cbor::Dict(entries), seconds, "output"@)->Dict_0;
            &&& after[0] == wait_entry(seconds)
            &&& after.skip(1) == without_wait(entries)
            &&& forall|i: int|
                1 <= i < after.len() ==> (#[trigger] after[i]).0 != Cbor::Text(
                    LOCK_WAIT_DURATION_SECONDS_HEADER@,
                )
        }),
{
    let after = value_with_wait(Cbor::Dict(entries), seconds, "output"@)->Dict_0;
    assert(after.skip(1) =~= without_wait(entries));
    crate::seqs::lemma_keep(
        entries,
        |e: (Cbor, Cbor)| e.0 != Cbor::Text(LOCK_WAIT_DURATION_SECONDS_HEADER@),
    );
    assert forall|i: int| 1 <= i < after.len() implies (#[trigger] after[i]).0 != Cbor::Text(
        LOCK_WAIT_DURATION_SECONDS_HEADER@,
    ) by {
        assert(after[i] == without_wait(entries)[i - 1]);
    }
}

/// A path put behind a directory; an absolute path stands for itself.
pub open spec fn joined_path(base: Seq<char>, path: Seq<char>) -> Seq<char> {
    if path.len() > 0 && path[0] == '/' {
        path
    } else if base.len() == 0 || base.last() == '/' {
        base + path
    } else {
        base + "/"@ + path
    }
}

/// A path put behind a directory.
pub fn join_path(base: &str, path: &str) -> (joined: String)
    ensures
        joined@ == joined_path(base@, path@),
{
    let chars = chars_of(path);
    if chars.len() > 0 && chars[0] == '/' {
        return path.to_owned();
    }
    let front = chars_of(base);
    let n: usize = front.len();
    let mut joined = base.to_owned();
    if n > 0 && front[n - 1] != '/' {
        joined.append("/");
    }
    joined.append(path);
    joined
}

/// The argument of a tool that names a path.
pub open spec fn path_field(tool_name: Seq<char>) -> Option<Seq<char>> {
    if runs_commands(tool_name) {
        Some("cwd"@)
    } else if reads_files(tool_name) || tool_name == EDIT_TOOL_NAME@ {
        Some("path"@)
    } else if tool_name == DIR_LOCK_TOOL_NAME@ {
        Some("directory"@)
    } else {
        None
    }
}

/// The first text value of a field with that name.
pub open spec fn first_text(entries: Seq<(Cbor, Cbor)>, key: Seq<char>) -> Option<Seq<char>>
    decreases entries.len(),
{
    if entries.len() == 0 {
        None
    } else if entries[0].0 == Cbor::Text(key) && entries[0].1 is Text {
        Some(entries[0].1->Text_0)
    } else {
        first_text(entries.drop_first(), key)
    }
}

/// The text that arguments hold under a name.
pub open spec fn explicit_path(arguments: Cbor, key: Seq<char>) -> Option<Seq<char>> {
    match arguments {
        Cbor::Dict(entries) => first_text(entries, key),
        _ => None,
    }
}

/// The absolute path that a call means, where it means one: what its argument
/// says, or the agent's directory.
pub open spec fn wanted_path(call: StartedView, base: Seq<char>) -> Option<Seq<char>> {
    match path_field(call.tool_name) {
        None => None,
        Some(key) => match explicit_path(call.arguments, key) {
            Some(path) => Some(joined_path(base, path)),
            None => if key == "path"@ {
                Some(joined_path(base, "."@))
            } else if key == "cwd"@ {
                Some(joined_path(base, base))
            } else {
                None
            },
        },
    }
}

/// The text that arguments hold under a name.
pub fn cbor_optional_text(arguments: &CborValue, key: &str) -> (text: Option<String>)
    ensures
        crate::text::opt_view(text) == explicit_path(arguments@, key@),
{
    broadcast use group_cbor_views;

    match arguments {
        CborValue::Dict(entries) => {
            let ghost all = entry_views(entries@);
            let mut i: usize = 0;
            assert(all.skip(0) =~= all);
            while i < entries.len()
                invariant
                    i <= entries@.len(),
                    all == entry_views(entries@),
                    first_text(all.skip(i as int), key@) == first_text(all, key@),
                    explicit_path(arguments@, key@) == first_text(all, key@),
                decreases entries.len() - i,
            {
                assert(all.skip(i as int)[0] == (entries@[i as int].0@, entries@[i as int].1@));
                match (&entries[i].0, &entries[i].1) {
                    (CborValue::Text(name), CborValue::Text(value)) => {
                        if same_text(name.as_str(), key) {
                            return Some(value.clone());
                        }
                    },
                    _ => {},
                }
                assert(all.skip(i as int).drop_first() =~= all.skip(i + 1));
                i += 1;
            }
            None
        },
        _ => None,
    }
}

/// The argument of a tool that names a path.
fn path_field_name(tool_name: &str) -> (key: Option<&'static str>)
    ensures
        match key {
            Some(key) => path_field(tool_name@) == Some(key@),
            None => path_field(tool_name@) is None,
        },
{
    if is_shell_command_tool(tool_name) {
        Some("cwd")
    } else if is_reading_tool(tool_name) || same_text(tool_name, EDIT_TOOL_NAME) {
        Some("path")
    } else if same_text(tool_name, DIR_LOCK_TOOL_NAME) {
        Some("directory")
    } else {
        None
    }
}

/// The absolute path that a call means, to be looked up before the call is
/// rewritten.
pub fn path_to_resolve(call: &ToolStarted, base: &str) -> (path: Option<String>)
    ensures
        crate::text::opt_view(path) == wanted_path(call@, base@),
{
    proof {
        reveal_strlit("path");
        reveal_strlit("cwd");
        reveal_strlit("directory");
        assert("path"@ != "cwd"@) by {
            assert("path"@.len() != "cwd"@.len());
        }
        assert("directory"@.len() != "path"@.len());
        assert("directory"@.len() != "cwd"@.len());
    }
    let key = match path_field_name(call.tool_name.as_str()) {
        Some(key) => key,
        None => {
            return None;
        },
    };
    match cbor_optional_text(&call.arguments, key) {
        Some(path) => Some(join_path(base, path.as_str())),
        None => {
            if same_text(key, "path") {
                Some(join_path(base, "."))
            } else if same_text(key, "cwd") {
                Some(join_path(base, base))
            } else {
                None
            }
        },
    }
}

/// Where a text key first stands; the number of entries if nowhere.
pub open spec fn key_at(entries: Seq<(Cbor, Cbor)>, key: Seq<char>) -> int
    decreases entries.len(),
{
    if entries.len() == 0 || entries[0].0 == Cbor::Text(key) {
        0
    } else {
        1 + key_at(entries.drop_first(), key)
    }
}

/// Arguments with a text under a name.
pub open spec fn with_text(arguments: Cbor, key: Seq<char>, value: Seq<char>) -> Cbor {
    match arguments {
        Cbor::Dict(entries) => {
            let p = key_at(entries, key);
            if 0 <= p < entries.len() {
                Cbor::Dict(entries.update(p, (entries[p].0, Cbor::Text(value))))
            } else {
                Cbor::Dict(entries.push((Cbor::Text(key), Cbor::Text(value))))
            }
        },
        other => other,
    }
}

proof fn lemma_key_at(entries: Seq<(Cbor, Cbor)>, key: Seq<char>)
    ensures
        0 <= key_at(entries, key) <= entries.len(),
    decreases entries.len(),
{
    if entries.len() > 0 {
        lemma_key_at(entries.drop_first(), key);
    }
}

/// Puts a text under a name into arguments.
pub fn set_cbor_text_field(arguments: &mut CborValue, key: &str, value: String)
    ensures
        final(arguments)@ == with_text(old(arguments)@, key@, value@),
{
    broadcast use group_cbor_views;

    let mut taken = CborValue::Null;
    core::mem::swap(arguments, &mut taken);
    match taken {
        CborValue::Dict(entries) => {
            let mut entries = entries;
            let ghost all = entry_views(entries@);
            let mut i: usize = 0;
            assert(all.skip(0) =~= all);
            proof {
                lemma_key_at(all, key@);
            }
            while i < entries.len() && !is_text_key(&entries[i].0, key)
                invariant
                    i <= entries@.len(),
                    all == entry_views(entries@),
                    key_at(all, key@) == i + key_at(all.skip(i as int), key@),
                decreases entries.len() - i,
            {
                assert(all.skip(i as int)[0] == (entries@[i as int].0@, entries@[i as int].1@));
                assert(all.skip(i as int).drop_first() =~= all.skip(i + 1));
                i += 1;
            }
            if i < entries.len() {
                assert(all.skip(i as int)[0] == (entries@[i as int].0@, entries@[i as int].1@));
                let name = entries[i].0.copy();
                let ghost p = i as int;
                entries[i] = (name, CborValue::Text(value));
                assert(entry_views(entries@) =~= all.update(p, (all[p].0, Cbor::Text(value@))));
            } else {
                crate::value::push_entry(&mut entries, key, CborValue::Text(value));
            }
            *arguments = CborValue::Dict(entries);
        },
        other => {
            *arguments = other;
        },
    }
}

fn is_text_key(value: &CborValue, key: &str) -> (b: bool)
    ensures
        b == (value@ == Cbor::Text(key@)),
{
    match value {
        CborValue::Text(text) => same_text(text.as_str(), key),
        _ => false,
    }
}

/// A call with the path that it means written out, and what that does to the
/// remembered directories. `canonical` is the directory that the path leads
/// to, where it leads to one.
pub open spec fn rewritten(
    call: StartedView,
    base: Seq<char>,
    canonical: Option<Seq<char>>,
    cwd: CwdView,
) -> (StartedView, CwdView, Seq<EventView>) {
    match wanted_path(call, base) {
        None => (call, cwd, seq![]),
        Some(absolute) => {
            let key = path_field(call.tool_name)->0;
            let moves = key == "cwd"@ && explicit_path(call.arguments, key) is Some && canonical
                is Some;
            let shown = match canonical {
                Some(dir) => dir,
                None => absolute,
            };
            (
                StartedView { arguments: with_text(call.arguments, key, shown), ..call },
                if moves {
                    CwdView { notices: cwd.notices.insert(call.agent_id, canonical->0), ..cwd }
                } else {
                    cwd
                },
                if moves {
                    seq![cwd_set_event(call.agent_id, cwd.instance, canonical->0)]
                } else {
                    seq![]
                },
            )
        },
    }
}

/// The event that asks the harness to keep an agent's directory.
pub open spec fn cwd_set_event(
    agent: Seq<char>,
    instance: Seq<char>,
    dir: Seq<char>,
) -> EventView {
    EventView::AgentMetadataSet {
        agent_id: agent,
        key: cwd_key(instance),
        value: Cbor::Text(dir),
        inheritable: true,
    }
}

/// Writes out the path that a call means, against the directory of its agent.
/// A command that names its directory also asks for it to be kept.
pub fn rewrite_invoke_for_cwd(
    call: ToolStarted,
    base: &str,
    canonical: &Option<String>,
    cwd: &mut CwdState,
) -> (r: (ToolStarted, Vec<Event>))
    requires
        old(cwd).wf(),
    ensures
        final(cwd).wf(),
        (r.0@, final(cwd)@, event_views(r.1@)) == rewritten(
            call@,
            base@,
            crate::text::opt_view(*canonical),
            old(cwd)@,
        ),
{
    let mut events: Vec<Event> = Vec::new();
    assert(event_views(events@) =~= seq![]);
    let absolute = match path_to_resolve(&call, base) {
        Some(absolute) => absolute,
        None => {
            return (call, events);
        },
    };
    let key = match path_field_name(call.tool_name.as_str()) {
        Some(key) => key,
        None => {
            return (call, events);
        },
    };
    let explicit = cbor_optional_text(&call.arguments, key).is_some();
    let mut call = call;
    match canonical {
        Some(dir) => {
            if same_text(key, "cwd") && explicit {
                cwd.set_pending_notice(call.agent_id.clone(), dir.clone());
                push_event(
                    &mut events,
                    Event::AgentMetadataSet {
                        agent_id: call.agent_id.clone(),
                        key: cwd.key(),
                        value: CborValue::Text(dir.clone()),
                        inheritable: true,
                    },
                );
                assert(event_views(events@) =~= seq![
                    cwd_set_event(call@.agent_id, old(cwd)@.instance, dir@),
                ]);
            }
            set_cbor_text_field(&mut call.arguments, key, dir.clone());
        },
        None => {
            set_cbor_text_field(&mut call.arguments, key, absolute);
        },
    }
    (call, events)
}

/// How a call is run.
#[derive(Clone, Copy, Debug, PartialEq, Eq, Structural)]
pub enum Route {
    /// As a call of the lock tool.
    DirLock,
    /// Under an automatic lock.
    Locked,
    /// At once; a command in this mode.
    Plain(Option<ShellCommandMode>),
}

/// How a call is run.
pub open spec fn route_of(tool_name: Seq<char>, locking: bool) -> Route {
    if tool_name == DIR_LOCK_TOOL_NAME@ {
        Route::DirLock
    } else if locking && updates_files(tool_name) {
        Route::Locked
    } else if locking {
        Route::Plain(Some(ShellCommandMode::Visible(ShellAccessMode::ReadOnly)))
    } else {
        Route::Plain(None)
    }
}

/// How a call is run.
pub fn route_for_tool(tool_name: &str, locking: bool) -> (route: Route)
    ensures
        route == route_of(tool_name@, locking),
{
    if same_text(tool_name, DIR_LOCK_TOOL_NAME) {
        Route::DirLock
    } else if locking && is_dir_lock_update_tool(tool_name) {
        Route::Locked
    } else if locking {
        Route::Plain(Some(ShellCommandMode::Visible(ShellAccessMode::ReadOnly)))
    } else {
        Route::Plain(None)
    }
}

/// What has to be looked up before a call can lock directories.
#[derive(Debug)]
pub enum LockTarget {
    /// The directory in which a file is written.
    FileParent { path: String },
    /// The directory in which a command runs.
    CommandDir { path: String },
    /// The directories that a patch touches.
    Patch,
}

/// What has to be looked up, as mathematics.
pub enum LockTargetView {
    FileParent { path: Seq<char> },
    CommandDir { path: Seq<char> },
    Patch,
}

impl View for LockTarget {
    type V = LockTargetView;

    open spec fn view(&self) -> LockTargetView {
        match self {
            LockTarget::FileParent { path } => LockTargetView::FileParent { path: path@ },
            LockTarget::CommandDir { path } => LockTargetView::CommandDir { path: path@ },
            LockTarget::Patch => LockTargetView::Patch,
        }
    }
}

/// What has to be looked up for a call, or why it cannot lock.
pub open spec fn lock_target(tool_name: Seq<char>, arguments: Cbor) -> Result<
    LockTargetView,
    FailureView,
> {
    if tool_name == EDIT_TOOL_NAME@ {
        match text_field(arguments, "path"@) {
            Some(path) => Ok(LockTargetView::FileParent { path }),
            None => Err(failure(crate::value::argument_error("path"@, "a string"@))),
        }
    } else if runs_commands(tool_name) {
        if crate::value::is_absent(field(arguments, "cwd"@)) {
            Ok(LockTargetView::CommandDir { path: "."@ })
        } else {
            match text_field(arguments, "cwd"@) {
                Some(path) => Ok(LockTargetView::CommandDir { path }),
                None => Err(failure(crate::value::argument_error("cwd"@, "a string"@))),
            }
        }
    } else if tool_name == APPLY_PATCH_TOOL_NAME@ {
        Ok(LockTargetView::Patch)
    } else {
        Err(
            failure("tool `"@ + tool_name + "` does not use automatic directory locks"@),
        )
    }
}

/// What has to be looked up before a call can lock directories.
pub fn automatic_lock_target(tool_name: &str, arguments: &CborValue) -> (target: Result<
    LockTarget,
    ToolFailure,
>)
    ensures
        match target {
            Ok(target) => lock_target(tool_name@, arguments@) == Ok::<LockTargetView, FailureView>(
                target@,
            ),
            Err(f) => lock_target(tool_name@, arguments@) == Err::<LockTargetView, FailureView>(
                f@,
            ),
        },
{
    if same_text(tool_name, EDIT_TOOL_NAME) {
        match crate::value::argument_text(arguments, "path") {
            Ok(path) => Ok(LockTarget::FileParent { path }),
            Err(message) => Err(ToolFailure::new(message)),
        }
    } else if is_shell_command_tool(tool_name) {
        match crate::value::optional_argument_text_strict(arguments, "cwd") {
            Ok(Some(path)) => Ok(LockTarget::CommandDir { path }),
            Ok(None) => Ok(LockTarget::CommandDir { path: ".".to_owned() }),
            Err(message) => Err(ToolFailure::new(message)),
        }
    } else if same_text(tool_name, APPLY_PATCH_TOOL_NAME) {
        Ok(LockTarget::Patch)
    } else {
        let mut message = "tool `".to_owned();
        message.append(tool_name);
        message.append("` does not use automatic directory locks");
        Err(ToolFailure::new(message))
    }
}

/// How a call that locks directories goes on.
#[derive(Debug)]
pub enum LockedStep {
    /// The call runs, under a lock where it has one, a command in this mode.
    Run { lock: Option<u64>, mode: Option<ShellCommandMode>, waited: Option<u64> },
    /// The call waits; the event says so.
    Waiting { waiter: u64, progress: Event },
    /// Nothing has changed: look again by then.
    Wait { next_check: u128, wait_for: u128 },
    /// The call is over.
    Done(Event),
}

/// How a call that locks directories goes on, as mathematics.
pub enum LockedStepView {
    Run { lock: Option<u64>, mode: Option<ShellCommandMode>, waited: Option<u64> },
    Waiting { waiter: u64, progress: EventView },
    Wait { next_check: u128, wait_for: u128 },
    Done(EventView),
}

impl View for LockedStep {
    type V = LockedStepView;

    open spec fn view(&self) -> LockedStepView {
        match self {
            LockedStep::Run { lock, mode, waited } => LockedStepView::Run {
                lock: *lock,
                mode: *mode,
                waited: *waited,
            },
            LockedStep::Waiting { waiter, progress } => LockedStepView::Waiting {
                waiter: *waiter,
                progress: progress@,
            },
            LockedStep::Wait { next_check, wait_for } => LockedStepView::Wait {
                next_check: *next_check,
                wait_for: *wait_for,
            },
            LockedStep::Done(event) => LockedStepView::Done(event@),
        }
    }
}

/// The mode of a command under a lock; none for a tool that runs no command.
pub open spec fn locked_mode(tool_name: Seq<char>) -> Option<ShellCommandMode> {
    if runs_commands(tool_name) {
        Some(ShellCommandMode::Visible(ShellAccessMode::ReadWrite))
    } else {
        None
    }
}

/// A command that no lock of its agent holds runs without writing.
pub open spec fn read_only_run() -> LockedStepView {
    LockedStepView::Run {
        lock: None,
        mode: Some(ShellCommandMode::Visible(ShellAccessMode::ReadOnly)),
        waited: None,
    }
}

/// The failure of a call that reaches out of its agent's own locks.
pub open spec fn outside_coverage(dir: Seq<Seq<char>>) -> FailureView {
    failure(
        "automatic directory lock is outside your manual lock coverage: "@ + path_text(dir),
    )
}

/// The start of a call that locks directories.
pub open spec fn locked_start(
    call: StartedView,
    dirs: Seq<Seq<Seq<char>>>,
    start: AutoStartView,
    elapsed: u128,
) -> LockedStepView {
    let mode = locked_mode(call.tool_name);
    match start {
        AutoStartView::Granted { id } => LockedStepView::Run {
            lock: Some(id),
            mode,
            waited: reported_wait(elapsed),
        },
        AutoStartView::Waiting { waiter } => LockedStepView::Waiting {
            waiter,
            progress: waiting_event(call, dirs, mode),
        },
        AutoStartView::NotCovered => read_only_run(),
        AutoStartView::SelfConflict { dir } => LockedStepView::Done(
            failure_event(call, outside_coverage(dir)),
        ),
    }
}

/// A look at a call that waits for directories.
pub open spec fn locked_look(call: StartedView, poll: AutoPollView, elapsed: u128)
    -> LockedStepView {
    match poll {
        AutoPollView::Granted { id } => LockedStepView::Run {
            lock: Some(id),
            mode: locked_mode(call.tool_name),
            waited: reported_wait(elapsed),
        },
        AutoPollView::Cancelled => LockedStepView::Done(cancelled_call_event(call)),
        AutoPollView::NotCovered => read_only_run(),
        AutoPollView::Abandoned(lock) => LockedStepView::Done(
            failure_event(
                call,
                FailureView {
                    details: Some(abandoned_details(lock)),
                    ..failure_with_args(ABANDONED_LOCK_ERROR@, path_text(lock.dir))
                },
            ),
        ),
        AutoPollView::Wait { next_check, wait_for } => LockedStepView::Wait {
            next_check,
            wait_for,
        },
    }
}

/// The mode of a command under a lock.
fn locked_command_mode(tool_name: &str) -> (mode: Option<ShellCommandMode>)
    ensures
        mode == locked_mode(tool_name@),
{
    if is_shell_command_tool(tool_name) {
        Some(ShellCommandMode::Visible(ShellAccessMode::ReadWrite))
    } else {
        None
    }
}

/// Starts a call that locks directories. A command runs under a lock only
/// where manual locks of its agent hold its directory; elsewhere it runs
/// without writing.
pub fn dispatch_locked_tool_invoke(
    call: &ToolStarted,
    dirs: &Vec<DirPath>,
    locks: &mut LockState,
    now: u128,
) -> (step: LockedStep)
    requires
        old(locks).next_auto_id < u64::MAX,
        old(locks).next_waiter_id < u64::MAX,
    ensures
        ({
            let wanted = normal_form(dir_views(dirs@));
            let (t, start) = old(locks)@.start_auto(
                call@.call_id,
                call@.agent_id,
                wanted,
                runs_commands(call@.tool_name),
                now,
            );
            final(locks)@ == t && step@ == locked_start(call@, wanted, start, 0)
        }),
{
    let mode = locked_command_mode(call.tool_name.as_str());
    let require = is_shell_command_tool(call.tool_name.as_str());
    let wanted = normalize_lock_dirs(copy_dirs(dirs));
    match locks.acquire_auto(
        call.call_id.clone(),
        call.agent_id.clone(),
        copy_dirs(dirs),
        require,
        now,
    ) {
        AutoStart::Granted { id } => LockedStep::Run {
            lock: Some(id),
            mode,
            waited: reported_lock_wait_duration_seconds(0),
        },
        AutoStart::Waiting { waiter } => LockedStep::Waiting {
            waiter,
            progress: waiting_progress_event(call, &wanted, mode),
        },
        AutoStart::NotCovered => LockedStep::Run {
            lock: None,
            mode: Some(ShellCommandMode::Visible(ShellAccessMode::ReadOnly)),
            waited: None,
        },
        AutoStart::SelfConflict { dir } => {
            let mut message =
                "automatic directory lock is outside your manual lock coverage: ".to_owned();
            message.append(dir.display().as_str());
            LockedStep::Done(tool_failure(call, ToolFailure::new(message)))
        },
    }
}

/// Looks at a call that waits for directories since `started`.
pub fn poll_locked_tool_invoke(
    call: &ToolStarted,
    waiter: u64,
    started: u128,
    next_check: u128,
    now: u128,
    policy: LockWaitPolicy,
    locks: &mut LockState,
) -> (step: LockedStep)
    requires
        old(locks).next_auto_id < u64::MAX,
    ensures
        ({
            let (t, poll) = old(locks)@.poll_auto(
                waiter,
                runs_commands(call@.tool_name),
                next_check,
                now,
                policy,
            );
            final(locks)@ == t && step@ == locked_look(
                call@,
                poll,
                crate::shell::dir_lock::since(now, started),
            )
        }),
{
    let require = is_shell_command_tool(call.tool_name.as_str());
    let elapsed: u128 = if started <= now {
        now - started
    } else {
        0
    };
    match locks.poll_auto(waiter, require, next_check, now, policy) {
        AutoPoll::Granted { id } => LockedStep::Run {
            lock: Some(id),
            mode: locked_command_mode(call.tool_name.as_str()),
            waited: reported_lock_wait_duration_seconds(elapsed),
        },
        AutoPoll::Cancelled => LockedStep::Done(cancelled_event(call)),
        AutoPoll::NotCovered => LockedStep::Run {
            lock: None,
            mode: Some(ShellCommandMode::Visible(ShellAccessMode::ReadOnly)),
            waited: None,
        },
        AutoPoll::Abandoned(lock) => LockedStep::Done(tool_failure(call, lock.tool_failure())),
        AutoPoll::Wait { next_check, wait_for } => LockedStep::Wait { next_check, wait_for },
    }
}

/// Where locking is on, a command that changes its directory's files runs only
/// under a lock: whatever becomes of its call, it runs in read-write mode
/// exactly where it has one.
pub proof fn law_writing_commands_hold_a_lock(
    call: StartedView,
    dirs: Seq<Seq<Seq<char>>>,
    start: AutoStartView,
    poll: AutoPollView,
    elapsed: u128,
)
    requires
        runs_commands(call.tool_name),
    ensures
        match locked_start(call, dirs, start, elapsed) {
            LockedStepView::Run { lock, mode, .. } => lock is Some == (mode == Some(
                ShellCommandMode::Visible(ShellAccessMode::ReadWrite),
            )),
            _ => true,
        },
        match locked_look(call, poll, elapsed) {
            LockedStepView::Run { lock, mode, .. } => lock is Some == (mode == Some(
                ShellCommandMode::Visible(ShellAccessMode::ReadWrite),
            )),
            _ => true,
        },
{
}

/// A call of the `cd` tool: what it remembers, and what is said of it.
pub open spec fn cd_call(
    call: StartedView,
    target: Result<Seq<char>, FailureView>,
    waited: Option<u64>,
    cwd: CwdView,
) -> (CwdView, EventView) {
    match target {
        Err(f) => (cwd, failure_event(call, f)),
        Ok(path) => if cwd.pending.dom().contains(call.agent_id) {
            (
                cwd,
                failure_event(
                    call,
                    failure("another cwd change is already pending for this agent"@),
                ),
            )
        } else {
            (
                CwdView {
                    pending: cwd.pending.insert(
                        call.agent_id,
                        PendingView { expected_cwd: path, call, lock_wait: waited },
                    ),
                    notices: cwd.notices.insert(call.agent_id, path),
                    ..cwd
                },
                cwd_set_event(call.agent_id, cwd.instance, path),
            )
        },
    }
}

/// Handles a call of the `cd` tool. `target` is the directory that it leads to,
/// or why it leads to none. The call is answered when the harness confirms the
/// directory.
pub fn dispatch_cd(
    call: ToolStarted,
    target: Result<String, ToolFailure>,
    waited: Option<u64>,
    cwd: &mut CwdState,
) -> (event: Event)
    requires
        old(cwd).wf(),
    ensures
        final(cwd).wf(),
        (final(cwd)@, event@) == cd_call(
            call@,
            match target {
                Ok(path) => Ok(path@),
                Err(f) => Err(f@),
            },
            waited,
            old(cwd)@,
        ),
{
    match target {
        Err(f) => tool_failure(&call, f),
        Ok(path) => {
            let agent_id = call.agent_id.clone();
            match cwd.start_pending_cd_result(agent_id.clone(), path.clone(), call, waited) {
                Ok(_) => {
                    cwd.set_pending_notice(agent_id.clone(), path.clone());
                    Event::AgentMetadataSet {
                        agent_id,
                        key: cwd.key(),
                        value: CborValue::Text(path),
                        inheritable: true,
                    }
                },
                Err(back) => tool_failure(
                    &back,
                    ToolFailure::new(
                        "another cwd change is already pending for this agent".to_owned(),
                    ),
                ),
            }
        },
    }
}

/// The answer to a call of a command.
pub open spec fn command_event(
    call: StartedView,
    outcome: Result<CommandOutcomeView, FailureView>,
    waited: Option<u64>,
) -> EventView {
    event_with_wait(
        match outcome {
            Ok(CommandOutcomeView::Finished(output)) => result_event(call, output),
            Ok(CommandOutcomeView::Cancelled) => cancelled_call_event(call),
            Err(f) => failure_event(call, f),
        },
        waited,
    )
}

/// The outcome of a command, as mathematics.
pub open spec fn command_outcome_view(outcome: Result<CommandOutcome, ToolFailure>) -> Result<
    CommandOutcomeView,
    FailureView,
> {
    match outcome {
        Ok(outcome) => Ok(outcome@),
        Err(f) => Err(f@),
    }
}

/// The answer to a call of a command. A failure to close the record of the call
/// counts where the command itself did not fail.
pub fn finish_cancellable_shell_tool(
    call: &ToolStarted,
    outcome: Result<CommandOutcome, ToolFailure>,
    closed: Result<(), ToolFailure>,
    waited: Option<u64>,
) -> (event: Event)
    ensures
        event@ == command_event(
            call@,
            match (outcome, closed) {
                (Ok(_), Err(f)) => Err(f@),
                (outcome, _) => command_outcome_view(outcome),
            },
            waited,
        ),
{
    let outcome = match (outcome, closed) {
        (Ok(_), Err(f)) => Err(f),
        (outcome, _) => outcome,
    };
    let event = match outcome {
        Ok(CommandOutcome::Finished(output)) => tool_result(call, output),
        Ok(CommandOutcome::Cancelled) => cancelled_event(call),
        Err(f) => tool_failure(call, f),
    };
    with_lock_wait_duration(event, waited)
}

/// The answer to a call of a tool that is none of the commands: its outcome, or
/// that there is no such tool. A failure that says nothing more carries the
/// call's arguments.
pub open spec fn executed(
    call: StartedView,
    echo: bool,
    outcome: Result<OutputView, FailureView>,
) -> Seq<EventView> {
    let user = crate::proto::OriginatorView::User;
    let own = StartedView { originator: user, ..call };
    if echo && call.tool_name == ECHO_TOOL_NAME@ {
        seq![
            EventView::ToolResult {
                call_id: call.call_id,
                tool_name: call.tool_name,
                result: call.arguments,
                display: None,
                originator: user,
            },
        ]
    } else if reads_files(call.tool_name) || call.tool_name == WRITE_TOOL_NAME@ || call.tool_name
        == EDIT_TOOL_NAME@ {
        seq![
            match outcome {
                Ok(output) => result_event(own, output),
                Err(f) => failure_event(
                    own,
                    FailureView {
                        details: if f.details is Some {
                            f.details
                        } else {
                            Some(call.arguments)
                        },
                        ..f
                    },
                ),
            },
        ]
    } else if call.tool_name == SHELL_TOOL_NAME@ {
        seq![
            EventView::ToolProgress {
                call_id: call.call_id,
                tool_name: call.tool_name,
                message: Some("running shell command"@),
                display: None,
            },
            match outcome {
                Ok(output) => result_event(own, output),
                Err(f) => failure_event(own, f),
            },
        ]
    } else {
        seq![
            EventView::ToolError {
                call_id: call.call_id,
                tool_name: call.tool_name,
                message: "unknown tool"@,
                details: None,
                display: None,
                originator: user,
            },
        ]
    }
}

/// The answers to a call of a tool, from what came of running it.
pub fn execute_tool(
    call: ToolStarted,
    echo: bool,
    outcome: Result<ToolOutput, ToolFailure>,
) -> (events: Vec<Event>)
    ensures
        event_views(events@) == executed(call@, echo, outcome_view(outcome)),
{
    let mut call = call;
    let mut events: Vec<Event> = Vec::new();
    let ghost asked = call@;
    call.originator = crate::proto::PromptOriginator::User;
    if is_echo_tool(call.tool_name.as_str(), echo) {
        push_event(
            &mut events,
            Event::ToolResult {
                call_id: call.call_id,
                tool_name: call.tool_name,
                result: call.arguments,
                display: None,
                originator: call.originator,
            },
        );
        assert(event_views(events@) =~= executed(asked, echo, outcome_view(outcome)));
        return events;
    }
    if is_reading_tool(call.tool_name.as_str()) || same_text(
        call.tool_name.as_str(),
        WRITE_TOOL_NAME,
    ) || same_text(call.tool_name.as_str(), EDIT_TOOL_NAME) {
        let event = match outcome {
            Ok(output) => tool_result(&call, output),
            Err(f) => {
                let mut f = f;
                if f.details.is_none() {
                    f.details = Some(call.arguments.copy());
                }
                tool_failure(&call, f)
            },
        };
        push_event(&mut events, event);
        assert(event_views(events@) =~= executed(asked, echo, outcome_view(outcome)));
        return events;
    }
    if same_text(call.tool_name.as_str(), SHELL_TOOL_NAME) {
        push_event(
            &mut events,
            Event::ToolProgress {
                call_id: call.call_id.clone(),
                tool_name: call.tool_name.clone(),
                message: Some("running shell command".to_owned()),
                display: None,
            },
        );
        let event = match outcome {
            Ok(output) => tool_result(&call, output),
            Err(f) => tool_failure(&call, f),
        };
        push_event(&mut events, event);
        assert(event_views(events@) =~= executed(asked, echo, outcome_view(outcome)));
        return events;
    }
    push_event(
        &mut events,
        Event::ToolError {
            call_id: call.call_id,
            tool_name: call.tool_name,
            message: "unknown tool".to_owned(),
            details: None,
            display: None,
            originator: call.originator,
        },
    );
    assert(event_views(events@) =~= executed(asked, echo, outcome_view(outcome)));
    events
}

/// The answers to a call, each with a report of how long it waited.
pub open spec fn events_with_wait(events: Seq<EventView>, waited: Option<u64>) -> Seq<EventView> {
    events.map_values(|e: EventView| event_with_wait(e, waited))
}

/// Runs a tool call that is no command, from what came of running the tool.
pub fn dispatch_tool_invoke(
    call: ToolStarted,
    echo: bool,
    outcome: Result<ToolOutput, ToolFailure>,
    waited: Option<u64>,
) -> (events: Vec<Event>)
    ensures
        event_views(events@) == events_with_wait(
            executed(call@, echo, outcome_view(outcome)),
            waited,
        ),
{
    let plain = execute_tool(call, echo, outcome);
    let ghost all = events_with_wait(event_views(plain@), waited);
    let mut events: Vec<Event> = Vec::new();
    assert(event_views(events@) =~= all.take(0));
    for event in iter: plain
        invariant
            iter.seq() == plain@,
            all == events_with_wait(event_views(plain@), waited),
            event_views(events@) == all.take(iter.index()),
    {
        assert(event_views(plain@)[iter.index()] == event@);
        push_event(&mut events, with_lock_wait_duration(event, waited));
        assert(event_views(events@) =~= all.take(iter.index() + 1));
    }
    assert(all.take(all.len() as int) =~= all);
    events
}

/// The action that releases manual locks by force.
pub const SHELL_DIR_FORCE_UNLOCK_ACTION_ID: &'static str = "shell.dir.force_unlock";

/// An action that the user invokes.
#[derive(Debug)]
pub struct ActionInvoke {
    pub invocation_id: String,
    pub action_id: String,
    pub argv: Vec<String>,
}

/// An action, as mathematics.
pub struct ActionView {
    pub invocation_id: Seq<char>,
    pub action_id: Seq<char>,
    pub argv: Seq<Seq<char>>,
}

impl View for ActionInvoke {
    type V = ActionView;

    open spec fn view(&self) -> ActionView {
        ActionView {
            invocation_id: self.invocation_id@,
            action_id: self.action_id@,
            argv: views(self.argv@),
        }
    }
}

/// The failure of an action.
pub open spec fn action_failed(action: ActionView, message: Seq<char>) -> EventView {
    EventView::ActionError {
        invocation_id: action.invocation_id,
        action_id: action.action_id,
        message,
    }
}

/// The report on locks that were released by force.
pub open spec fn force_unlock_text(dir: Seq<Seq<char>>, removed: Seq<ManualView>) -> Seq<char> {
    let head = "Force-unlocked "@ + decimal_of(removed.len())
        + " manual directory lock(s) overlapping "@ + path_text(dir) + "."@;
    join_of(
        seq![head] + removed.map_values(
            |l: ManualView| path_text(l.dir) + " owner="@ + l.owner,
        ),
        "\n"@,
    )
}

/// An action: what it does to the locks, and what is said of it.
pub open spec fn action_call(
    action: ActionView,
    found: Result<Seq<Seq<char>>, Seq<char>>,
    s: LockView,
) -> (LockView, EventView) {
    if action.action_id != SHELL_DIR_FORCE_UNLOCK_ACTION_ID@ {
        (s, action_failed(action, "unknown shell action"@))
    } else if action.argv.len() == 0 {
        (s, action_failed(action, "missing directory argument"@))
    } else {
        match found {
            Err(message) => (s, action_failed(action, message)),
            Ok(dir) => if s.overlapping(dir).len() == 0 {
                (
                    s.force_unlock(dir),
                    action_failed(
                        action,
                        "no manual directory locks overlap "@ + path_text(dir),
                    ),
                )
            } else {
                (
                    s.force_unlock(dir),
                    EventView::ActionResult {
                        invocation_id: action.invocation_id,
                        action_id: action.action_id,
                        text: force_unlock_text(dir, s.overlapping(dir)),
                    },
                )
            },
        }
    }
}

fn action_error(action: ActionInvoke, message: String) -> (event: Event)
    ensures
        event@ == action_failed(action@, message@),
{
    Event::ActionError {
        invocation_id: action.invocation_id,
        action_id: action.action_id,
        message,
    }
}

/// Handles an action. `found` is what became of looking for the directory that
/// it names.
pub fn dispatch_action_invoke(
    action: ActionInvoke,
    found: &Result<DirPath, String>,
    locks: &mut LockState,
) -> (event: Event)
    ensures
        (final(locks)@, event@) == action_call(action@, found_view(*found), old(locks)@),
{
    if !same_text(action.action_id.as_str(), SHELL_DIR_FORCE_UNLOCK_ACTION_ID) {
        return action_error(action, "unknown shell action".to_owned());
    }
    if action.argv.is_empty() {
        return action_error(action, "missing directory argument".to_owned());
    }
    let dir = match found {
        Ok(dir) => dir,
        Err(message) => {
            return action_error(action, message.clone());
        },
    };
    let removed = locks.force_unlock_overlapping(dir);
    let ghost gone = old(locks)@.overlapping(dir@);
    if removed.is_empty() {
        let mut message = "no manual directory locks overlap ".to_owned();
        message.append(dir.display().as_str());
        return action_error(action, message);
    }
    let mut head = "Force-unlocked ".to_owned();
    head.append(decimal(removed.len() as u64).as_str());
    head.append(" manual directory lock(s) overlapping ");
    head.append(dir.display().as_str());
    head.append(".");
    let ghost lines_of_locks = gone.map_values(
        |l: ManualView| path_text(l.dir) + " owner="@ + l.owner,
    );
    let mut list: Vec<String> = Vec::new();
    push_text(&mut list, head);
    let mut i: usize = 0;
    assert(views(list@) =~= seq![head@] + lines_of_locks.take(0));
    while i < removed.len()
        invariant
            i <= removed@.len() == gone.len(),
            crate::shell::dir_lock::same_locks(removed@, gone),
            lines_of_locks == gone.map_values(
                |l: ManualView| path_text(l.dir) + " owner="@ + l.owner,
            ),
            views(list@) == seq![head@] + lines_of_locks.take(i as int),
        decreases removed.len() - i,
    {
        let lock = &removed[i];
        let mut line = lock.dir.display();
        line.append(" owner=");
        line.append(lock.owner.as_str());
        assert(line@ == lines_of_locks[i as int]);
        push_text(&mut list, line);
        i += 1;
        assert(views(list@) =~= seq![head@] + lines_of_locks.take(i as int));
    }
    assert(lines_of_locks.take(i as int) =~= lines_of_locks);
    Event::ActionResult {
        invocation_id: action.invocation_id,
        action_id: action.action_id,
        text: join(&list, "\n"),
    }
}

} // verus!
