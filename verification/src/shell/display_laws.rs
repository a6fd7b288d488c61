//! Laws of how calls are shown, and of which tools are offered.

use vstd::prelude::*;

use crate::shell::command::{command_args, finished_output, PlanView, WaitResult};
use crate::shell::diff::SummaryView;
use crate::shell::display::{
    chip_text, failure, failure_with_args, stats_of, PayloadView, ToolUseStatus,
};
use crate::shell::edit::diff_state;
use crate::shell::specs::registered_tools;
use crate::text::{
    is_space, join_of, lines_of, signed_decimal_of, trim_end_of, trim_of, trim_start_of, utf8_len,
};
use crate::text_laws::{is_line, law_lines_come_back};

verus! {

/// What is shown of output counts its lines and its bytes.
pub proof fn law_output_is_counted(lines: Seq<Seq<char>>)
    requires
        forall|i: int| 0 <= i < lines.len() ==> is_line(#[trigger] lines[i]),
        lines.len() > 0,
        lines.last().len() > 0,
        lines.len() <= u64::MAX,
        utf8_len(join_of(lines, "\n"@)) <= u64::MAX,
    ensures
        ({
            let stats = stats_of(join_of(lines, "\n"@));
            &&& stats.lines == Some(lines.len() as u64)
            &&& stats.bytes == Some(utf8_len(join_of(lines, "\n"@)) as u64)
            &&& stats.matches is None
        }),
        stats_of(seq![]).lines is None,
        stats_of(seq![]).bytes is None,
{
    law_lines_come_back(lines);
    if join_of(lines, "\n"@).len() == 0 {
        assert(lines.last().len() == 0);
    }
}

/// A failure is told in its words, and shown as one: with its first line, of which a
/// long one is cut.
pub proof fn law_failure_is_shown(message: Seq<char>, args: Seq<char>)
    requires
        is_line(message),
        0 < message.len(),
        !is_space(message[0]),
        !is_space(message.last()),
    ensures
        failure(message).message == message,
        failure(message).details is None,
        failure(message).display.status == ToolUseStatus::Error,
        failure_with_args(message, args).message == message,
        failure_with_args(message, args).display.args == args,
        failure_with_args(message, args).display.status == ToolUseStatus::Error,
        message.len() <= 64 ==> chip_text(message) == "err: "@ + message,
        message.len() > 64 ==> chip_text(message).len() == 69 && ("err: "@ + message.take(
            63,
        )).is_prefix_of(chip_text(message)),
        failure(message).display.status_text == chip_text(message),
{
    reveal_strlit("err: ");
    law_lines_come_back(seq![message]);
    assert(lines_of(message) == seq![message]);
    assert(trim_start_of(message) == message);
    assert(trim_end_of(message) == message);
    assert(trim_of(message) == message);
    if message.len() > 64 {
        let start = "err: "@ + message.take(63);
        assert(chip_text(message).subrange(0, start.len() as int) =~= start);
    }
}

/// A call that changed a file is shown with the path and the difference.
pub proof fn law_difference_is_shown(path: Seq<char>, diff: SummaryView)
    ensures
        diff_state(path, diff).args == path,
        diff_state(path, diff).payload matches Some(PayloadView::Diff(shown)) && shown == diff,
        diff_state(path, diff).status == ToolUseStatus::Success,
{
}

/// A command that ended is shown with its label and its mode, and with how it ended.
pub proof fn law_ended_command_is_shown(plan: PlanView, wait: WaitResult, elapsed_nanos: u128)
    ensures
        ({
            let shown = finished_output(plan, wait, elapsed_nanos).display;
            &&& shown.args == command_args(plan.command)
            &&& shown.mode == plan.mode
            &&& lines_of(plan.command).len() >= 2 ==> (shown.payload matches Some(
                PayloadView::Text { text },
            ) && text == plan.command)
            &&& wait.success ==> shown.status_text == "ok"@
            &&& !wait.success ==> {
                &&& wait.timed_out ==> shown.status_text == "timeout"@
                &&& !wait.timed_out ==> (wait.signal matches Some(signal) ==> shown.status_text
                    == "signal "@ + signed_decimal_of(signal as int))
                &&& !wait.timed_out && wait.signal is None ==> (wait.status_code matches Some(code)
                    ==> shown.status_text == signed_decimal_of(code as int))
            }
        }),
{
}

/// Every tool is offered under its name; that for locks where locking is on, and the
/// echo tool where it is asked for. What the model is not to see unasked is off.
pub proof fn law_tools_are_offered(echo: bool, dir_lock: bool)
    ensures
        ({
            let all = registered_tools(echo, dir_lock);
            let n = if echo {
                1int
            } else {
                0int
            };
            &&& all.len() == n + 10
            &&& echo ==> all[0].name == "echo"@ && !all[0].enabled_by_default
            &&& all[n].name == "read"@ && all[n].enabled_by_default
            &&& all[n + 1].name == "edit"@ && all[n + 1].enabled_by_default
            &&& all[n + 2].name == "apply_patch"@ && !all[n + 2].enabled_by_default && all[n
                + 2].takes_text
            &&& all[n + 3].name == "dir_lock"@ && all[n + 3].enabled_by_default == dir_lock
            &&& all[n + 4].name == "grep"@ && all[n + 4].enabled_by_default
            &&& all[n + 5].name == "find"@ && all[n + 5].enabled_by_default
            &&& all[n + 6].name == "ls"@ && all[n + 6].enabled_by_default
            &&& all[n + 7].name == "cd"@ && all[n + 7].enabled_by_default
            &&& all[n + 8].name == "shell"@ && all[n + 8].enabled_by_default
            &&& all[n + 9].name == "gpt_shell"@ && !all[n + 9].enabled_by_default && all[n
                + 9].model_visible_name == Some("shell_command"@)
            &&& all[n + 1].tags.contains("shell:mutates-files"@)
            &&& all[n + 2].tags.contains("shell:mutates-files"@)
        }),
{
    let all = registered_tools(echo, dir_lock);
    let n = if echo {
        1int
    } else {
        0int
    };
    assert(all[n + 1].tags[2] == "shell:mutates-files"@);
    assert(all[n + 2].tags[2] == "shell:mutates-files"@);
}

} // verus!
