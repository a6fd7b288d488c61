//! The `grep` tool: a search that ripgrep makes.

use vstd::prelude::*;

use crate::shell::command::as_i64;
use crate::shell::diff::{strip_eol, without_eol};
use crate::shell::display::{failure, failure_with_args, first_filled, ok_display, outcome_view,
    plain_state, stats_of, text_stats, FailureView, OutputView, StateView, ToolFailure, ToolOutput,
    ToolUseStats, ToolUseStatus};
use crate::shell::find::{call_limit, limit_of, notice_text};
use crate::shell::truncate::{is_truncated, truncate_head, truncate_line, truncated_content,
    truncated_line};
use crate::text::{
    byte_len, chars_of, contains, debug_of, debug_text, decimal, decimal_of, holds, join, join_of,
    lines, lines_of, opt_view, push_text, same_text, starts_with, text_of, trim, trim_of, utf8_len,
    views,
};
use crate::utf8::{lossy_of, lossy_text};
use crate::value::{
    argument_error, argument_text, bool_field, cbor_map_bool, cbor_map_int, cbor_map_text, entry,
    entry_views, group_cbor_views, int_field, push_entry, text_field, Cbor, CborValue,
};

verus! {

/// How many matches are shown where the call says nothing.
pub const DEFAULT_GREP_LIMIT: u64 = 100;

/// Most lines of context around a match.
pub const MAX_GREP_CONTEXT: u64 = 20;

/// Longest line that is shown, in bytes.
pub const GREP_MAX_LINE_LENGTH: usize = 500;

/// What a grep call asks for.
#[derive(Debug)]
pub struct GrepPlan {
    pub pattern: String,
    pub path: String,
    pub glob: Option<String>,
    pub limit: u64,
    /// The arguments for ripgrep.
    pub argv: Vec<String>,
    /// The call's label.
    pub args: String,
}

/// What a grep call asks for, as mathematics.
pub struct GrepPlanView {
    pub pattern: Seq<char>,
    pub path: Seq<char>,
    pub glob: Option<Seq<char>>,
    pub limit: u64,
    pub argv: Seq<Seq<char>>,
    pub args: Seq<char>,
}

impl View for GrepPlan {
    type V = GrepPlanView;

    open spec fn view(&self) -> GrepPlanView {
        GrepPlanView {
            pattern: self.pattern@,
            path: self.path@,
            glob: opt_view(self.glob),
            limit: self.limit,
            argv: views(self.argv@),
            args: self.args@,
        }
    }
}

/// One text where a condition holds, else none.
pub open spec fn text_if(condition: bool, text: Seq<char>) -> Seq<Seq<char>> {
    if condition {
        seq![text]
    } else {
        seq![]
    }
}

/// The arguments for ripgrep. A pattern is taken as it stands unless the call
/// says that it is a regular expression.
pub open spec fn grep_argv(
    pattern: Seq<char>,
    path: Seq<char>,
    glob: Option<Seq<char>>,
    ignore_case: bool,
    regex: bool,
    context: Option<nat>,
) -> Seq<Seq<char>> {
    seq!["--json"@, "--hidden"@, "--with-filename"@] + text_if(ignore_case, "--ignore-case"@)
        + text_if(!regex, "--fixed-strings"@) + (match glob {
        Some(glob) => seq!["--glob"@, glob],
        None => seq![],
    }) + (match context {
        Some(lines) => seq!["--context="@ + decimal_of(lines)],
        None => seq![],
    }) + seq!["--"@, pattern, path]
}

/// The label of a grep call, from the pattern as it is shown.
pub open spec fn grep_label(shown: Seq<char>, path: Seq<char>, glob: Option<Seq<char>>) -> Seq<
    char,
> {
    let plain = shown + " in "@ + path;
    match glob {
        Some(glob) => plain + " ["@ + glob + "]"@,
        None => plain,
    }
}

/// The label of a grep call, from the pattern as it is shown.
pub fn grep_display_args(shown: &str, path: &str, glob: &Option<String>) -> (args: String)
    ensures
        args@ == grep_label(shown@, path@, opt_view(*glob)),
{
    let mut args = shown.to_owned();
    args.append(" in ");
    args.append(path);
    if let Some(g) = glob {
        args.append(" [");
        args.append(g.as_str());
        args.append("]");
    }
    args
}

/// Lines of context that a call names, at least none and not too many.
pub open spec fn context_of(value: Option<i64>) -> Option<nat> {
    match value {
        None => None,
        Some(n) => Some(
            if n < 0 {
                0
            } else if n > MAX_GREP_CONTEXT {
                MAX_GREP_CONTEXT as nat
            } else {
                n as nat
            },
        ),
    }
}

/// What a grep call asks for, or why it is refused.
pub open spec fn grep_planned(arguments: Cbor) -> Result<GrepPlanView, FailureView> {
    match text_field(arguments, "pattern"@) {
        None => Err(failure(argument_error("pattern"@, "a string"@))),
        Some(pattern) => {
            let path = match text_field(arguments, "path"@) {
                Some(path) => path,
                None => "."@,
            };
            let glob = text_field(arguments, "glob"@);
            Ok(
                GrepPlanView {
                    pattern,
                    path,
                    glob,
                    limit: limit_of(int_field(arguments, "limit"@), DEFAULT_GREP_LIMIT),
                    argv: grep_argv(
                        pattern,
                        path,
                        glob,
                        bool_field(arguments, "ignoreCase"@) == Some(true),
                        bool_field(arguments, "regex"@) == Some(true),
                        context_of(int_field(arguments, "context"@)),
                    ),
                    args: grep_label(debug_of(pattern), path, glob),
                },
            )
        },
    }
}

/// Whether a field is set to true.
fn is_set(arguments: &CborValue, key: &str) -> (b: bool)
    ensures
        b == (bool_field(arguments@, key@) == Some(true)),
{
    match cbor_map_bool(arguments, key) {
        Some(b) => b,
        None => false,
    }
}

/// What a grep call asks for, or why it is refused.
pub fn plan_grep(arguments: &CborValue) -> (plan: Result<GrepPlan, ToolFailure>)
    ensures
        match plan {
            Ok(plan) => grep_planned(arguments@) == Ok::<GrepPlanView, FailureView>(plan@),
            Err(f) => grep_planned(arguments@) == Err::<GrepPlanView, FailureView>(f@),
        },
{
    let pattern = match argument_text(arguments, "pattern") {
        Ok(pattern) => pattern,
        Err(message) => {
            return Err(ToolFailure::new(message));
        },
    };
    let path = match cbor_map_text(arguments, "path") {
        Some(path) => path,
        None => ".".to_owned(),
    };
    let glob = cbor_map_text(arguments, "glob");
    let limit = call_limit(cbor_map_int(arguments, "limit"), DEFAULT_GREP_LIMIT);
    let ignore_case = is_set(arguments, "ignoreCase");
    let regex = is_set(arguments, "regex");
    let mut argv: Vec<String> = Vec::new();
    push_text(&mut argv, "--json".to_owned());
    push_text(&mut argv, "--hidden".to_owned());
    push_text(&mut argv, "--with-filename".to_owned());
    let ghost a0: Seq<Seq<char>> = seq!["--json"@, "--hidden"@, "--with-filename"@];
    assert(views(argv@) =~= a0);
    if ignore_case {
        push_text(&mut argv, "--ignore-case".to_owned());
    }
    let ghost a1 = a0 + text_if(ignore_case, "--ignore-case"@);
    assert(views(argv@) =~= a1);
    if !regex {
        push_text(&mut argv, "--fixed-strings".to_owned());
    }
    let ghost a2 = a1 + text_if(!regex, "--fixed-strings"@);
    assert(views(argv@) =~= a2);
    if let Some(g) = &glob {
        push_text(&mut argv, "--glob".to_owned());
        push_text(&mut argv, g.clone());
    }
    let ghost a3 = a2 + (match opt_view(glob) {
        Some(glob) => seq!["--glob"@, glob],
        None => seq![],
    });
    assert(views(argv@) =~= a3);
    let context = cbor_map_int(arguments, "context");
    if let Some(n) = context {
        let lines_around: u64 = if n < 0 {
            0
        } else if n > 20 {
            MAX_GREP_CONTEXT
        } else {
            n as u64
        };
        let mut flag = "--context=".to_owned();
        flag.append(decimal(lines_around).as_str());
        push_text(&mut argv, flag);
    }
    let ghost a4 = a3 + (match context_of(context) {
        Some(n) => seq!["--context="@ + decimal_of(n)],
        None => seq![],
    });
    assert(views(argv@) =~= a4);
    push_text(&mut argv, "--".to_owned());
    push_text(&mut argv, pattern.clone());
    push_text(&mut argv, path.clone());
    assert(views(argv@) =~= a4 + seq!["--"@, pattern@, path@]);
    let args = grep_display_args(debug_text(pattern.as_str()).as_str(), path.as_str(), &glob);
    Ok(GrepPlan { pattern, path, glob, limit, argv, args })
}

/// Why ripgrep failed.
#[allow(inconsistent_fields)]
#[derive(Debug, PartialEq, Eq)]
pub enum RipgrepError {
    /// The pattern is bad, and what is bad about it.
    Usage { detail: String },
    NotFound,
    Permission,
    /// Anything else, and what was first said of it.
    Runtime { detail: String },
}

/// Why ripgrep failed, as mathematics.
pub enum RipgrepErrorView {
    Usage { detail: Seq<char> },
    NotFound,
    Permission,
    Runtime { detail: Seq<char> },
}

impl View for RipgrepError {
    type V = RipgrepErrorView;

    open spec fn view(&self) -> RipgrepErrorView {
        match self {
            RipgrepError::Usage { detail } => RipgrepErrorView::Usage { detail: detail@ },
            RipgrepError::NotFound => RipgrepErrorView::NotFound,
            RipgrepError::Permission => RipgrepErrorView::Permission,
            RipgrepError::Runtime { detail } => RipgrepErrorView::Runtime { detail: detail@ },
        }
    }
}

/// The message for a failure of ripgrep.
pub open spec fn ripgrep_message(error: RipgrepErrorView) -> Seq<char> {
    match error {
        RipgrepErrorView::Usage { detail } => if detail.len() > 0 {
            "regex parse error: "@ + detail
        } else {
            "regex parse error"@
        },
        RipgrepErrorView::NotFound => "no such file or directory"@,
        RipgrepErrorView::Permission => "permission denied"@,
        RipgrepErrorView::Runtime { detail } => if detail.len() > 0 {
            "ripgrep error: "@ + detail
        } else {
            "ripgrep error"@
        },
    }
}

impl RipgrepError {
    /// The message for the failure: one short line.
    pub fn message(&self) -> (message: String)
        ensures
            message@ == ripgrep_message(self@),
    {
        match self {
            RipgrepError::Usage { detail } => {
                if detail.as_str().is_empty() {
                    "regex parse error".to_owned()
                } else {
                    let mut message = "regex parse error: ".to_owned();
                    message.append(detail.as_str());
                    message
                }
            },
            RipgrepError::NotFound => "no such file or directory".to_owned(),
            RipgrepError::Permission => "permission denied".to_owned(),
            RipgrepError::Runtime { detail } => {
                if detail.as_str().is_empty() {
                    "ripgrep error".to_owned()
                } else {
                    let mut message = "ripgrep error: ".to_owned();
                    message.append(detail.as_str());
                    message
                }
            },
        }
    }
}

/// What the last line that starts with `error:` says; empty where there is
/// none.
pub open spec fn last_error(list: Seq<Seq<char>>) -> Seq<char>
    decreases list.len(),
{
    if list.len() == 0 {
        seq![]
    } else {
        let line = trim_of(list.last());
        if "error:"@.is_prefix_of(line) {
            trim_of(line.skip("error:"@.len() as int))
        } else {
            last_error(list.drop_last())
        }
    }
}

/// Why ripgrep failed, from what it wrote to standard error.
pub open spec fn classified(stderr: Seq<char>) -> RipgrepErrorView {
    if holds(stderr, "regex parse error"@) || holds(stderr, "error parsing regex"@) || holds(
        stderr,
        "unrecognized escape sequence"@,
    ) {
        RipgrepErrorView::Usage { detail: last_error(lines_of(stderr)) }
    } else if holds(stderr, "(os error 2)"@) || holds(stderr, "No such file or directory"@) {
        RipgrepErrorView::NotFound
    } else if holds(stderr, "(os error 13)"@) || holds(stderr, "Permission denied"@) {
        RipgrepErrorView::Permission
    } else {
        RipgrepErrorView::Runtime { detail: first_filled(lines_of(stderr)) }
    }
}

/// Why ripgrep failed, from what it wrote to standard error.
pub fn classify_ripgrep_stderr(stderr: &str) -> (error: RipgrepError)
    ensures
        error@ == classified(stderr@),
{
    let list = lines(stderr);
    let ghost all = views(list@);
    if contains(stderr, "regex parse error") || contains(stderr, "error parsing regex")
        || contains(stderr, "unrecognized escape sequence") {
        let mut i: usize = list.len();
        assert(all.take(i as int) =~= all);
        while i > 0
            invariant
                i <= list@.len(),
                all == views(list@),
                last_error(all.take(i as int)) == last_error(all),
                classified(stderr@) == (RipgrepErrorView::Usage { detail: last_error(all) }),
            decreases i,
        {
            assert(all.take(i as int).drop_last() =~= all.take(i - 1));
            assert(all.take(i as int).last() == list@[i - 1]@);
            let line = trim(list[i - 1].as_str());
            if starts_with(line.as_str(), "error:") {
                let chars = chars_of(line.as_str());
                let size = chars_of("error:").len();
                let rest = text_of(&chars, size, chars.len());
                assert(rest@ =~= line@.skip("error:"@.len() as int));
                return RipgrepError::Usage { detail: trim(rest.as_str()) };
            }
            i -= 1;
        }
        let detail = String::new();
        assert(detail@ =~= seq![]);
        return RipgrepError::Usage { detail };
    }
    if contains(stderr, "(os error 2)") || contains(stderr, "No such file or directory") {
        return RipgrepError::NotFound;
    }
    if contains(stderr, "(os error 13)") || contains(stderr, "Permission denied") {
        return RipgrepError::Permission;
    }
    let mut i: usize = 0;
    assert(all.skip(0) =~= all);
    while i < list.len()
        invariant
            i <= list@.len(),
            all == views(list@),
            first_filled(all.skip(i as int)) == first_filled(all),
            classified(stderr@) == (RipgrepErrorView::Runtime { detail: first_filled(all) }),
        decreases list.len() - i,
    {
        assert(all.skip(i as int)[0] == list@[i as int]@);
        let line = trim(list[i].as_str());
        if !line.as_str().is_empty() {
            return RipgrepError::Runtime { detail: line };
        }
        assert(all.skip(i as int).drop_first() =~= all.skip(i + 1));
        i += 1;
    }
    let detail = String::new();
    assert(detail@ =~= seq![]);
    RipgrepError::Runtime { detail }
}

/// A record of ripgrep's output.
#[derive(Debug)]
pub struct RgRecord {
    pub kind: String,
    pub path: Option<String>,
    pub text: Option<String>,
    pub line_number: Option<u64>,
}

/// What is made of ripgrep's records.
#[derive(Debug)]
pub struct GrepStreamResult {
    pub result_lines: Vec<String>,
    pub match_count: usize,
    pub lines_truncated: bool,
    pub match_limit_reached: bool,
    pub current_path: Option<String>,
}

/// What is made of ripgrep's records, as mathematics.
#[verifier::ext_equal]
pub struct StreamView {
    pub lines: Seq<Seq<char>>,
    pub matches: nat,
    pub cut: bool,
    pub limited: bool,
    pub path: Option<Seq<char>>,
}

impl View for GrepStreamResult {
    type V = StreamView;

    open spec fn view(&self) -> StreamView {
        StreamView {
            lines: views(self.result_lines@),
            matches: self.match_count as nat,
            cut: self.lines_truncated,
            limited: self.match_limit_reached,
            path: opt_view(self.current_path),
        }
    }
}

/// A record as it is shown: a match with colons, its surroundings with dashes.
pub open spec fn rendered_record(record: RgRecord, path: Option<Seq<char>>) -> Seq<char> {
    let is_match = record.kind@ == "match"@;
    let separator = if is_match {
        ":"@
    } else {
        "-"@
    };
    let shown = match opt_view(record.path) {
        Some(path) => path,
        None => match path {
            Some(path) => path,
            None => seq![],
        },
    };
    let number: nat = match record.line_number {
        Some(n) => n as nat,
        None => 0,
    };
    let text = match opt_view(record.text) {
        Some(text) => without_eol(text),
        None => seq![],
    };
    shown + separator + decimal_of(number) + separator + text
}

impl StreamView {
    /// Nothing read yet.
    pub open spec fn fresh() -> StreamView {
        StreamView { lines: seq![], matches: 0, cut: false, limited: false, path: None }
    }

    /// One more record. The match that passes the limit is counted and not
    /// shown, and nothing after it is read.
    pub open spec fn push(self, record: RgRecord, limit: u64) -> StreamView {
        if self.limited {
            self
        } else if record.kind@ == "begin"@ {
            StreamView { path: opt_view(record.path), ..self }
        } else if record.kind@ == "match"@ || record.kind@ == "context"@ {
            let matches = if record.kind@ == "match"@ {
                self.matches + 1
            } else {
                self.matches
            };
            if record.kind@ == "match"@ && limit < matches {
                StreamView { matches, limited: true, ..self }
            } else {
                let line = rendered_record(record, self.path);
                StreamView {
                    lines: self.lines.push(truncated_line(line, GREP_MAX_LINE_LENGTH as nat)),
                    matches,
                    cut: self.cut || utf8_len(line) > GREP_MAX_LINE_LENGTH,
                    ..self
                }
            }
        } else {
            self
        }
    }
}

/// What is made of records, in order.
pub open spec fn streamed(records: Seq<RgRecord>, limit: u64) -> StreamView
    decreases records.len(),
{
    if records.len() == 0 {
        StreamView::fresh()
    } else {
        streamed(records.drop_last(), limit).push(records.last(), limit)
    }
}

impl GrepStreamResult {
    /// Nothing read yet.
    pub fn new() -> (state: Self)
        ensures
            state@ == StreamView::fresh(),
    {
        let state = GrepStreamResult {
            result_lines: Vec::new(),
            match_count: 0,
            lines_truncated: false,
            match_limit_reached: false,
            current_path: None,
        };
        assert(state@ =~= StreamView::fresh());
        state
    }

    /// Takes the next record; says whether reading may stop.
    pub fn push(&mut self, record: &RgRecord, limit: u64) -> (stop: bool)
        requires
            old(self).match_count < usize::MAX,
        ensures
            final(self)@ == old(self)@.push(*record, limit),
            stop == final(self)@.limited,
            final(self).match_count <= old(self).match_count + 1,
    {
        proof {
            reveal_strlit("begin");
            reveal_strlit("match");
            reveal_strlit("context");
            assert("begin"@[0] == 'b');
            assert("match"@[0] == 'm');
            assert("context"@[0] == 'c');
        }
        if self.match_limit_reached {
            return true;
        }
        if same_text(record.kind.as_str(), "begin") {
            self.current_path = record.path.clone();
            return false;
        }
        let is_match = same_text(record.kind.as_str(), "match");
        if !is_match && !same_text(record.kind.as_str(), "context") {
            return false;
        }
        if is_match {
            self.match_count += 1;
            if limit < self.match_count as u64 {
                self.match_limit_reached = true;
                return true;
            }
        }
        let separator = if is_match {
            ":"
        } else {
            "-"
        };
        let mut line = match &record.path {
            Some(path) => path.clone(),
            None => match &self.current_path {
                Some(path) => path.clone(),
                None => {
                    let empty = String::new();
                    assert(empty@ =~= seq![]);
                    empty
                },
            },
        };
        line.append(separator);
        let number: u64 = match record.line_number {
            Some(n) => n,
            None => 0,
        };
        line.append(decimal(number).as_str());
        line.append(separator);
        match &record.text {
            Some(text) => {
                line.append(strip_eol(text.as_str()).as_str());
            },
            None => {
                assert(line@ + seq![] =~= line@);
            },
        }
        assert(line@ == rendered_record(*record, old(self)@.path));
        if byte_len(line.as_str()) > GREP_MAX_LINE_LENGTH {
            self.lines_truncated = true;
        }
        let shown = truncate_line(line.as_str(), GREP_MAX_LINE_LENGTH);
        push_text(&mut self.result_lines, shown);
        false
    }
}

/// What is made of records, up to the one that passes the limit.
pub fn read_grep_json(records: &Vec<RgRecord>, limit: u64) -> (result: GrepStreamResult)
    ensures
        result@ == streamed(records@, limit),
{
    let mut state = GrepStreamResult::new();
    let mut i: usize = 0;
    assert(records@.take(0) =~= seq![]);
    while i < records.len()
        invariant
            i <= records@.len(),
            state.match_count <= i,
            state@ == streamed(records@.take(i as int), limit),
        decreases records.len() - i,
    {
        assert(records@.take(i + 1).drop_last() =~= records@.take(i as int));
        let _ = state.push(&records[i], limit);
        i += 1;
    }
    assert(records@.take(i as int) =~= records@);
    state
}

/// Only so many matches are shown as the limit says, and a limit that was
/// reached stays reached.
pub proof fn law_match_limit_holds(records: Seq<RgRecord>, limit: u64)
    ensures
        streamed(records, limit).matches <= limit + 1,
        streamed(records, limit).limited == (streamed(records, limit).matches == limit + 1),
        streamed(records, limit).lines.len() <= records.len(),
    decreases records.len(),
{
    if records.len() > 0 {
        law_match_limit_holds(records.drop_last(), limit);
        reveal_strlit("begin");
        reveal_strlit("match");
        assert("begin"@[0] == 'b');
        assert("match"@[0] == 'm');
    }
}

/// The result of a grep call.
pub open spec fn grep_result(
    plan: GrepPlanView,
    status: Option<i32>,
    matches: int,
    output: Seq<char>,
) -> Cbor {
    Cbor::Dict(
        seq![
            entry("pattern", Cbor::Text(plan.pattern)),
            entry("path", Cbor::Text(plan.path)),
            entry(
                "status",
                match status {
                    Some(code) => Cbor::Integer(code as int),
                    None => Cbor::Null,
                },
            ),
            entry("matches", Cbor::Integer(matches)),
            entry("output", Cbor::Text(output)),
            entry("output_lines", Cbor::Integer(as_i64(lines_of(output).len() as int))),
            entry("output_bytes", Cbor::Integer(as_i64(utf8_len(output) as int))),
        ] + (match plan.glob {
            Some(glob) => seq![entry("glob", Cbor::Text(glob))],
            None => seq![],
        }),
    )
}

/// A count in 64 bits with a sign.
fn signed_count(n: u64) -> (value: i128)
    ensures
        value == as_i64(n as int),
{
    let wide: i128 = n as i128;
    if wide <= 9223372036854775807i128 {
        wide
    } else {
        wide - 18446744073709551616i128
    }
}

/// The result of a grep call.
pub fn grep_result_map(plan: &GrepPlan, status: Option<i32>, matches: usize, output: String) -> (
    value: CborValue)
    ensures
        value@ == grep_result(plan@, status, as_i64(matches as int), output@),
{
    broadcast use group_cbor_views;

    let list = lines(output.as_str());
    assert(lines_of(output@).len() == list@.len());
    let size = byte_len(output.as_str());
    let mut entries: Vec<(CborValue, CborValue)> = Vec::new();
    push_entry(&mut entries, "pattern", CborValue::Text(plan.pattern.clone()));
    push_entry(&mut entries, "path", CborValue::Text(plan.path.clone()));
    push_entry(
        &mut entries,
        "status",
        match status {
            Some(code) => CborValue::Integer(code as i128),
            None => CborValue::Null,
        },
    );
    push_entry(&mut entries, "matches", CborValue::Integer(signed_count(matches as u64)));
    push_entry(&mut entries, "output", CborValue::Text(output));
    push_entry(&mut entries, "output_lines", CborValue::Integer(signed_count(list.len() as u64)));
    push_entry(&mut entries, "output_bytes", CborValue::Integer(signed_count(size as u64)));
    if let Some(glob) = &plan.glob {
        push_entry(&mut entries, "glob", CborValue::Text(glob.clone()));
    }
    assert(entry_views(entries@) =~= grep_result(
        plan@,
        status,
        as_i64(matches as int),
        output@,
    )->Dict_0);
    CborValue::Dict(entries)
}

/// What is said below lines that are not all of them, or not whole.
pub open spec fn grep_notices(limit: u64, limited: bool, bytes_cut: bool, lines_cut: bool) -> Seq<
    Seq<char>,
> {
    text_if(
        limited,
        decimal_of(limit as nat) + " matches limit reached. Use limit="@ + decimal_of(
            2 * limit as nat,
        ) + " for more, or refine pattern."@,
    ) + text_if(bytes_cut, "50KB output limit reached."@) + text_if(
        lines_cut,
        "Some lines truncated to 500 chars. Use read tool to see full lines."@,
    )
}

/// The output of a grep call that found something.
pub open spec fn grep_output(stream: StreamView, limit: u64) -> Seq<char> {
    let text = join_of(stream.lines, "\n"@);
    let list = lines_of(text);
    let cut = is_truncated(list, list.len(), utf8_len(text));
    (if cut {
        truncated_content(list, list.len())
    } else {
        text
    }) + notice_text(grep_notices(limit, stream.limited, cut, stream.cut))
}

/// The outcome of a grep call whose search came to its end.
pub open spec fn grep_outcome(
    plan: GrepPlanView,
    stream: StreamView,
    status: Option<i32>,
    stderr: Seq<u8>,
) -> Result<OutputView, FailureView> {
    if status == Some(2i32) {
        Err(
            failure_with_args(
                ripgrep_message(classified(trim_of(lossy_of(stderr)))),
                plan.args,
            ),
        )
    } else if stream.lines.len() == 0 {
        Ok(
            OutputView {
                result: grep_result(plan, status, 0, "no matches found"@),
                display: StateView {
                    stats: ToolUseStats { matches: Some(0), lines: None, bytes: None },
                    ..plain_state(plan.args, ToolUseStatus::Success, "ok: no matches"@)
                },
            },
        )
    } else {
        let output = grep_output(stream, plan.limit);
        Ok(
            OutputView {
                result: grep_result(plan, status, as_i64(stream.matches as int), output),
                display: StateView {
                    stats: ToolUseStats {
                        matches: Some(stream.matches as u64),
                        ..stats_of(output)
                    },
                    ..plain_state(plan.args, ToolUseStatus::Success, "ok"@)
                },
            },
        )
    }
}

/// The outcome of a grep call whose search came to its end.
pub fn finish_grep(
    plan: &GrepPlan,
    stream: GrepStreamResult,
    status: Option<i32>,
    stderr: &Vec<u8>,
) -> (outcome: Result<ToolOutput, ToolFailure>)
    requires
        plan.limit <= i64::MAX,
    ensures
        outcome_view(outcome) == grep_outcome(plan@, stream@, status, stderr@),
{
    if let Some(code) = status {
        if code == 2 {
            let raw = lossy_text(stderr.as_slice());
            let error = classify_ripgrep_stderr(trim(raw.as_str()).as_str());
            return Err(ToolFailure::new(error.message()).with_args(plan.args.clone()));
        }
    }
    if stream.result_lines.is_empty() {
        let mut display = ok_display(plan.args.as_str());
        display.status_text = "ok: no matches".to_owned();
        display.stats = ToolUseStats { matches: Some(0), lines: None, bytes: None };
        return Ok(
            ToolOutput {
                result: grep_result_map(plan, status, 0, "no matches found".to_owned()),
                display,
            },
        );
    }
    let mut output = join(&stream.result_lines, "\n");
    let truncated = truncate_head(output.as_str());
    let cut = truncated.was_truncated;
    if cut {
        output = truncated.content;
    }
    let mut notices: Vec<String> = Vec::new();
    assert(views(notices@) =~= seq![]);
    if stream.match_limit_reached {
        let mut notice = decimal(plan.limit);
        notice.append(" matches limit reached. Use limit=");
        notice.append(decimal(plan.limit * 2).as_str());
        notice.append(" for more, or refine pattern.");
        push_text(&mut notices, notice);
    }
    if cut {
        push_text(&mut notices, "50KB output limit reached.".to_owned());
    }
    if stream.lines_truncated {
        push_text(
            &mut notices,
            "Some lines truncated to 500 chars. Use read tool to see full lines.".to_owned(),
        );
    }
    assert(views(notices@) =~= grep_notices(
        plan.limit,
        stream.match_limit_reached,
        cut,
        stream.lines_truncated,
    ));
    let ghost bare = output@;
    if !notices.is_empty() {
        output.append("\n\n[");
        output.append(join(&notices, " ").as_str());
        output.append("]");
    }
    assert(output@ =~= bare + notice_text(views(notices@)));
    let mut display = ok_display(plan.args.as_str());
    display.stats = text_stats(output.as_str());
    display.stats.matches = Some(stream.match_count as u64);
    Ok(
        ToolOutput {
            result: grep_result_map(plan, status, stream.match_count, output),
            display,
        },
    )
}

/// What became of running ripgrep.
#[allow(inconsistent_fields)]
#[derive(Debug)]
pub enum GrepRun {
    NotStarted { error: String },
    NoPipe,
    WaitFailed { error: String },
    Ended { records: Vec<RgRecord>, status: Option<i32>, stderr: Vec<u8> },
}

/// The outcome of a grep call, from what became of running ripgrep.
pub fn run_grep(arguments: &CborValue, run: &GrepRun) -> (outcome: Result<ToolOutput, ToolFailure>)
    ensures
        outcome_view(outcome) == match grep_planned(arguments@) {
            Err(f) => Err(f),
            Ok(plan) => match run {
                GrepRun::NotStarted { error } => Err(
                    failure_with_args("failed to start ripgrep: "@ + error@, plan.args),
                ),
                GrepRun::NoPipe => Err(
                    failure_with_args("ripgrep stdout pipe missing"@, plan.args),
                ),
                GrepRun::WaitFailed { error } => Err(
                    failure_with_args("failed to wait for ripgrep: "@ + error@, plan.args),
                ),
                GrepRun::Ended { records, status, stderr } => grep_outcome(
                    plan,
                    streamed(records@, plan.limit),
                    *status,
                    stderr@,
                ),
            },
        },
{
    let plan = match plan_grep(arguments) {
        Ok(plan) => plan,
        Err(f) => {
            return Err(f);
        },
    };
    match run {
        GrepRun::NotStarted { error } => {
            let mut message = "failed to start ripgrep: ".to_owned();
            message.append(error.as_str());
            Err(ToolFailure::new(message).with_args(plan.args))
        },
        GrepRun::NoPipe => Err(
            ToolFailure::new("ripgrep stdout pipe missing".to_owned()).with_args(plan.args),
        ),
        GrepRun::WaitFailed { error } => {
            let mut message = "failed to wait for ripgrep: ".to_owned();
            message.append(error.as_str());
            Err(ToolFailure::new(message).with_args(plan.args))
        },
        GrepRun::Ended { records, status, stderr } => {
            let stream = read_grep_json(records, plan.limit);
            finish_grep(&plan, stream, *status, stderr)
        },
    }
}

} // verus!
