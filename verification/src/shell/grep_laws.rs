//! Laws of the `grep` tool.

use vstd::prelude::*;

use crate::shell::grep::{
    grep_argv, grep_outcome, grep_planned, streamed, GrepPlanView, RgRecord, StreamView,
    GREP_MAX_LINE_LENGTH,
};
use crate::shell::truncate::{MAX_OUTPUT_BYTES, MAX_OUTPUT_LINES};
use crate::text::{decimal_of, join_of, lines_of, opt_view, utf8_len};
use crate::text_laws::{is_line, law_decimal_reads_back, law_lines_come_back};
use crate::value::{bool_field, field, int_field, lemma_first_entry, text_field, Cbor};

verus! {

/// What tells the kinds of records apart.
proof fn lemma_kinds()
    ensures
        "begin"@.len() == 5,
        "match"@.len() == 5,
        "context"@.len() == 7,
        "begin"@[0] == 'b',
        "match"@[0] == 'm',
{
    reveal_strlit("begin");
    reveal_strlit("match");
    reveal_strlit("context");
}

/// A line of a file as ripgrep tells it.
pub open spec fn is_record(
    record: RgRecord,
    kind: Seq<char>,
    path: Seq<char>,
    number: u64,
    text: Seq<char>,
) -> bool {
    &&& record.kind@ == kind
    &&& opt_view(record.path) == Some(path)
    &&& record.line_number == Some(number)
    &&& opt_view(record.text) == Some(text)
}

/// Whether a text has no line break at its end.
pub open spec fn is_unbroken(text: Seq<char>) -> bool {
    text.len() > 0 ==> text.last() != '\n' && text.last() != '\r'
}

/// A match is shown with its path, its line number in digits, and its text, colons
/// between them; with or without a line break at its end, it is the same. Nothing
/// that was shown before is lost.
pub proof fn law_match_is_shown(
    stream: StreamView,
    record: RgRecord,
    limit: u64,
    path: Seq<char>,
    number: u64,
    text: Seq<char>,
    ending: Seq<char>,
)
    requires
        !stream.limited,
        stream.matches < limit,
        is_unbroken(text),
        ending == Seq::<char>::empty() || ending == seq!['\n'] || ending == seq!['\r', '\n'],
        is_record(record, "match"@, path, number, text + ending),
        utf8_len(path + ":"@ + decimal_of(number as nat) + ":"@ + text) <= GREP_MAX_LINE_LENGTH,
    ensures
        stream.push(record, limit).lines == stream.lines.push(
            path + ":"@ + decimal_of(number as nat) + ":"@ + text,
        ),
        stream.push(record, limit).matches == stream.matches + 1,
        !stream.push(record, limit).limited,
        stream.push(record, limit).cut == stream.cut,
        stream.push(record, limit).path == stream.path,
{
    lemma_kinds();
    assert(crate::shell::diff::without_eol(text + ending) =~= text);
}

/// A line around a match is shown like it, with dashes in place of the colons, and
/// does not count as a match.
pub proof fn law_context_is_shown(
    stream: StreamView,
    record: RgRecord,
    limit: u64,
    path: Seq<char>,
    number: u64,
    text: Seq<char>,
    ending: Seq<char>,
)
    requires
        !stream.limited,
        is_unbroken(text),
        ending == Seq::<char>::empty() || ending == seq!['\n'] || ending == seq!['\r', '\n'],
        is_record(record, "context"@, path, number, text + ending),
        utf8_len(path + "-"@ + decimal_of(number as nat) + "-"@ + text) <= GREP_MAX_LINE_LENGTH,
    ensures
        stream.push(record, limit).lines == stream.lines.push(
            path + "-"@ + decimal_of(number as nat) + "-"@ + text,
        ),
        stream.push(record, limit).matches == stream.matches,
        !stream.push(record, limit).limited,
        stream.push(record, limit).cut == stream.cut,
        stream.push(record, limit).path == stream.path,
{
    lemma_kinds();
    assert(crate::shell::diff::without_eol(text + ending) =~= text);
}

/// Matches of one file with the same text in different lines are shown as different
/// lines, and the number that is shown is that of the line.
pub proof fn law_numbers_tell_lines_apart(
    stream: StreamView,
    a: RgRecord,
    b: RgRecord,
    limit: u64,
    path: Seq<char>,
    m: u64,
    n: u64,
    text: Seq<char>,
)
    requires
        !stream.limited,
        stream.matches < limit,
        is_unbroken(text),
        m != n,
        is_record(a, "match"@, path, m, text),
        is_record(b, "match"@, path, n, text),
        utf8_len(path + ":"@ + decimal_of(m as nat) + ":"@ + text) <= GREP_MAX_LINE_LENGTH,
        utf8_len(path + ":"@ + decimal_of(n as nat) + ":"@ + text) <= GREP_MAX_LINE_LENGTH,
    ensures
        stream.push(a, limit).lines.last() != stream.push(b, limit).lines.last(),
        crate::number::digits_value(decimal_of(m as nat)) == m,
{
    assert(text + Seq::<char>::empty() =~= text);
    law_match_is_shown(stream, a, limit, path, m, text, seq![]);
    law_match_is_shown(stream, b, limit, path, n, text, seq![]);
    law_decimal_reads_back(m as nat);
    law_decimal_reads_back(n as nat);
    let x = path + ":"@ + decimal_of(m as nat) + ":"@ + text;
    let y = path + ":"@ + decimal_of(n as nat) + ":"@ + text;
    let start = path.len() + ":"@.len();
    let i = decimal_of(m as nat).len() as int;
    let j = decimal_of(n as nat).len() as int;
    assert(x.subrange(start as int, start + i) =~= decimal_of(m as nat));
    assert(y.subrange(start as int, start + j) =~= decimal_of(n as nat));
    if i != j {
        assert(x.len() != y.len());
    }
}

/// A line that is too long is not shown in full, and that is said. The match that
/// passes the limit is not shown, and nothing is read behind it.
pub proof fn law_limits_are_told(stream: StreamView, record: RgRecord, limit: u64)
    ensures
        !stream.limited && record.kind@ == "match"@ && stream.matches >= limit ==> {
            &&& stream.push(record, limit).limited
            &&& stream.push(record, limit).lines == stream.lines
        },
        stream.limited ==> stream.push(record, limit) == stream,
        stream.lines.is_prefix_of(stream.push(record, limit).lines),
        record.kind@ != "match"@ && record.kind@ != "context"@ ==> stream.push(record, limit).lines
            == stream.lines && stream.push(record, limit).matches == stream.matches,
        !stream.limited && record.kind@ == "begin"@ ==> stream.push(record, limit).path == opt_view(
            record.path,
        ),
{
    lemma_kinds();
    let after = stream.push(record, limit);
    assert(after.lines.subrange(0, stream.lines.len() as int) =~= stream.lines);
}

/// Whether records are the matches of a search, each with its path, its line number
/// and its text.
pub open spec fn are_matches(
    records: Seq<RgRecord>,
    paths: Seq<Seq<char>>,
    numbers: Seq<u64>,
    texts: Seq<Seq<char>>,
) -> bool {
    &&& records.len() == paths.len() == numbers.len() == texts.len()
    &&& forall|k: int|
        0 <= k < records.len() ==> is_record(
            #[trigger] records[k],
            "match"@,
            paths[k],
            numbers[k],
            texts[k].push('\n'),
        ) && is_unbroken(texts[k]) && utf8_len(shown_match(paths[k], numbers[k], texts[k]))
            <= GREP_MAX_LINE_LENGTH
}

/// A match as the user reads it.
pub open spec fn shown_match(path: Seq<char>, number: u64, text: Seq<char>) -> Seq<char> {
    path + ":"@ + decimal_of(number as nat) + ":"@ + text
}

/// Every match of a search is shown once, in the order in which ripgrep tells them.
pub proof fn law_every_match_is_shown(
    records: Seq<RgRecord>,
    limit: u64,
    paths: Seq<Seq<char>>,
    numbers: Seq<u64>,
    texts: Seq<Seq<char>>,
)
    requires
        are_matches(records, paths, numbers, texts),
        records.len() <= limit,
    ensures
        streamed(records, limit).lines.len() == records.len(),
        forall|k: int|
            0 <= k < records.len() ==> #[trigger] streamed(records, limit).lines[k] == shown_match(
                paths[k],
                numbers[k],
                texts[k],
            ),
        streamed(records, limit).matches == records.len(),
        !streamed(records, limit).limited,
        !streamed(records, limit).cut,
    decreases records.len(),
{
    if records.len() > 0 {
        let n = records.len() - 1;
        let front = records.drop_last();
        assert forall|k: int| 0 <= k < front.len() implies is_record(
            #[trigger] front[k],
            "match"@,
            paths.drop_last()[k],
            numbers.drop_last()[k],
            texts.drop_last()[k].push('\n'),
        ) && is_unbroken(texts.drop_last()[k]) && utf8_len(
            shown_match(paths.drop_last()[k], numbers.drop_last()[k], texts.drop_last()[k]),
        ) <= GREP_MAX_LINE_LENGTH by {
            assert(front[k] == records[k]);
        }
        law_every_match_is_shown(
            front,
            limit,
            paths.drop_last(),
            numbers.drop_last(),
            texts.drop_last(),
        );
        let before = streamed(front, limit);
        assert(records.last() == records[n]);
        assert(texts[n].push('\n') =~= texts[n] + seq!['\n']);
        law_match_is_shown(
            before,
            records.last(),
            limit,
            paths[n],
            numbers[n],
            texts[n],
            seq!['\n'],
        );
        let after = streamed(records, limit);
        assert forall|k: int| 0 <= k < records.len() implies #[trigger] after.lines[k]
            == shown_match(paths[k], numbers[k], texts[k]) by {
            if k < n {
                assert(after.lines[k] == before.lines[k]);
            }
        }
    }
}

/// What tells the entries of a result apart.
proof fn lemma_keys()
    ensures
        "pattern"@.len() == 7,
        "pattern"@[0] == 'p',
        "path"@.len() == 4,
        "status"@.len() == 6,
        "matches"@.len() == 7,
        "matches"@[0] == 'm',
        "output"@.len() == 6,
        "output"@[0] == 'o',
        "status"@[0] == 's',
{
    reveal_strlit("pattern");
    reveal_strlit("path");
    reveal_strlit("status");
    reveal_strlit("matches");
    reveal_strlit("output");
}

/// The result of a search that found something holds all the lines that were read,
/// one below the other, how many of them matched, and what was searched for.
pub proof fn law_search_tells_what_it_found(
    plan: GrepPlanView,
    stream: StreamView,
    status: Option<i32>,
    stderr: Seq<u8>,
)
    requires
        status != Some(2i32),
        stream.lines.len() > 0,
        stream.lines.len() <= MAX_OUTPUT_LINES,
        stream.matches <= i64::MAX,
        !stream.limited,
        !stream.cut,
        forall|k: int| 0 <= k < stream.lines.len() ==> is_line(#[trigger] stream.lines[k]),
        stream.lines.last().len() > 0,
        utf8_len(join_of(stream.lines, "\n"@)) <= MAX_OUTPUT_BYTES,
    ensures
        grep_outcome(plan, stream, status, stderr) matches Ok(told) && {
            &&& text_field(told.result, "output"@) == Some(join_of(stream.lines, "\n"@))
            &&& lines_of(text_field(told.result, "output"@)->0) == stream.lines
            &&& int_field(told.result, "matches"@) == Some(stream.matches as i64)
            &&& text_field(told.result, "pattern"@) == Some(plan.pattern)
            &&& text_field(told.result, "path"@) == Some(plan.path)
            &&& told.display.args == plan.args
        },
{
    lemma_keys();
    law_lines_come_back(stream.lines);
    let text = join_of(stream.lines, "\n"@);
    crate::shell::truncate::law_small_output_is_kept(stream.lines, utf8_len(text));
    assert(crate::shell::grep::grep_notices(plan.limit, false, false, false) =~= seq![]);
    let output = crate::shell::grep::grep_output(stream, plan.limit);
    assert(output =~= text);
    let told = grep_outcome(plan, stream, status, stderr)->Ok_0;
    let entries = told.result->Dict_0;
    lemma_first_entry(entries, "pattern"@, 0);
    lemma_first_entry(entries, "path"@, 1);
    lemma_first_entry(entries, "matches"@, 3);
    lemma_first_entry(entries, "output"@, 4);
}

/// A search that found nothing says so, and one that failed is refused.
pub proof fn law_search_tells_that_it_found_nothing(
    plan: GrepPlanView,
    stream: StreamView,
    status: Option<i32>,
    stderr: Seq<u8>,
)
    ensures
        status == Some(2i32) <==> grep_outcome(plan, stream, status, stderr) is Err,
        status != Some(2i32) && stream.lines.len() == 0 ==> (grep_outcome(
            plan,
            stream,
            status,
            stderr,
        ) matches Ok(told) && text_field(told.result, "output"@) == Some("no matches found"@)
            && field(told.result, "matches"@) == Some(Cbor::Integer(0))),
{
    lemma_keys();
    if status != Some(2i32) && stream.lines.len() == 0 {
        let told = grep_outcome(plan, stream, status, stderr)->Ok_0;
        let entries = told.result->Dict_0;
        lemma_first_entry(entries, "matches"@, 3);
        lemma_first_entry(entries, "output"@, 4);
    }
}

/// Ripgrep is asked for the pattern in the path, whatever they look like: they are
/// the last of its arguments, behind the one that ends the options. It takes the
/// pattern as it stands unless the call says that it is a regular expression, and
/// cares for case unless the call says otherwise.
pub proof fn law_search_is_for_the_pattern(arguments: Cbor, pattern: Seq<char>)
    requires
        text_field(arguments, "pattern"@) == Some(pattern),
    ensures
        grep_planned(arguments) matches Ok(plan) && {
            let n = plan.argv.len() as int;
            &&& plan.pattern == pattern
            &&& n >= 3
            &&& plan.argv[n - 2] == pattern
            &&& plan.argv[n - 3] == "--"@
            &&& plan.argv[n - 1] == plan.path
            &&& plan.path == match text_field(arguments, "path"@) {
                Some(path) => path,
                None => "."@,
            }
            &&& plan.argv.contains("--json"@)
            &&& bool_field(arguments, "regex"@) != Some(true) ==> plan.argv.take(n - 3).contains(
                "--fixed-strings"@,
            )
            &&& bool_field(arguments, "ignoreCase"@) == Some(true) ==> plan.argv.take(
                n - 3,
            ).contains("--ignore-case"@)
            &&& text_field(arguments, "glob"@) matches Some(glob) ==> exists|k: int|
                0 <= k < n - 4 && #[trigger] plan.argv[k] == "--glob"@ && plan.argv[k + 1] == glob
        },
        ({
            let plain = grep_argv(pattern, pattern, None, false, true, None);
            &&& !plain.take(plain.len() - 3).contains("--fixed-strings"@)
            &&& !plain.take(plain.len() - 3).contains("--ignore-case"@)
        }),
{
    let plan = grep_planned(arguments)->Ok_0;
    let n = plan.argv.len() as int;
    let ignore_case = bool_field(arguments, "ignoreCase"@) == Some(true);
    let regex = bool_field(arguments, "regex"@) == Some(true);
    let options = plan.argv.take(n - 3);
    assert(plan.argv[0] == "--json"@);
    let base: int = if ignore_case {
        4
    } else {
        3
    };
    if ignore_case {
        assert(options[3] == "--ignore-case"@);
    }
    if !regex {
        assert(options[base] == "--fixed-strings"@);
    }
    let next: int = if regex {
        base
    } else {
        base + 1
    };
    if let Some(glob) = text_field(arguments, "glob"@) {
        assert(plan.argv[next] == "--glob"@ && plan.argv[next + 1] == glob);
    }
    reveal_strlit("--json");
    reveal_strlit("--hidden");
    reveal_strlit("--with-filename");
    reveal_strlit("--fixed-strings");
    reveal_strlit("--ignore-case");
    let plain = grep_argv(pattern, pattern, None, false, true, None);
    assert(plain.take(plain.len() - 3) =~= seq!["--json"@, "--hidden"@, "--with-filename"@]);
    assert("--json"@.len() == 6 && "--hidden"@.len() == 8 && "--with-filename"@.len() == 15
        && "--fixed-strings"@.len() == 15 && "--ignore-case"@.len() == 13);
    assert("--with-filename"@[2] == 'w' && "--fixed-strings"@[2] == 'f');
}

} // verus!
