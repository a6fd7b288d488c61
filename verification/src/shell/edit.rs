//! The `edit` tool: exact replacements of text in a file.

use vstd::prelude::*;

use crate::shell::capture::sat;
use crate::shell::command::as_i64;
use crate::shell::diff::{compute_diff, line_diff, summary_of, unified_diff, unified_of, DiffSummary,
    SummaryView, DIFF_CONTEXT_LINES};
use crate::shell::display::{failure, failure_with_args, ok_display, outcome_view, plain_state,
    FailureView, OutputView, PayloadView, StateView, ToolFailure, ToolOutput, ToolUsePayload,
    ToolUseStatus};
use crate::text::{chars_of, matches_at, same_text, stands_at, text_of};
use crate::value::{argument_error, argument_error_text, argument_text, cbor_map_array,
    cbor_map_int, cbor_map_text, entry, entry_views, field, group_cbor_views, int_field, push_entry,
    text_field, value_views, Cbor, CborValue};

verus! {

/// A piece of text to be put in the place of another.
pub struct Change {
    pub start: int,
    pub end: int,
    pub text: Seq<char>,
}

/// The indices at which lines start, among the first so many characters.
pub open spec fn starts_upto(text: Seq<char>, n: int) -> Seq<int>
    decreases n,
{
    if n <= 0 {
        seq![0]
    } else if text[n - 1] == '\n' && n < text.len() {
        starts_upto(text, n - 1).push(n)
    } else {
        starts_upto(text, n - 1)
    }
}

/// The indices at which lines start.
pub open spec fn starts_of(text: Seq<char>) -> Seq<int> {
    starts_upto(text, text.len() as int)
}

/// Where a line starts, counted from one; the end of the text for a line that
/// it does not have.
pub open spec fn offset_of(text: Seq<char>, line: int) -> int {
    let starts = starts_of(text);
    let index = if line < 1 {
        0
    } else {
        line - 1
    };
    if index < starts.len() {
        starts[index]
    } else {
        text.len() as int
    }
}

/// The first place of a pattern between two indices.
pub open spec fn first_match(text: Seq<char>, pattern: Seq<char>, from: int, to: int) -> Option<int>
    decreases to - from,
{
    if from + pattern.len() > to || pattern.len() == 0 {
        None
    } else if stands_at(text, pattern, from) {
        Some(from)
    } else {
        first_match(text, pattern, from + 1, to)
    }
}

/// The places of a pattern between two indices, from the left, none
/// overlapping another, at most so many.
pub open spec fn matches_in(
    text: Seq<char>,
    pattern: Seq<char>,
    from: int,
    to: int,
    max: nat,
) -> Seq<int>
    decreases max,
{
    if max == 0 {
        seq![]
    } else {
        match first_match(text, pattern, from, to) {
            None => seq![],
            Some(p) => seq![p] + matches_in(
                text,
                pattern,
                p + pattern.len(),
                to,
                (max - 1) as nat,
            ),
        }
    }
}

/// A count that an edit names, or why it cannot be used.
pub open spec fn edit_count(edit: Cbor, key: Seq<char>, default: usize) -> Result<
    usize,
    Seq<char>,
> {
    match int_field(edit, key) {
        None => Ok(default),
        Some(n) => if n < 0 {
            Err(key + " must not be negative"@)
        } else if n > usize::MAX {
            Err(key + " is too large"@)
        } else {
            Ok(n as usize)
        },
    }
}

/// A line that an edit names, or why it cannot be used.
pub open spec fn edit_line(edit: Cbor, key: Seq<char>, default: usize) -> Result<
    usize,
    Seq<char>,
> {
    match int_field(edit, key) {
        None => Ok(default),
        Some(n) => if n < 1 {
            Err(key + " must be at least 1"@)
        } else if n > usize::MAX {
            Err(key + " is too large"@)
        } else {
            Ok(n as usize)
        },
    }
}

/// The replacements that one edit asks for, or why it cannot be made.
pub open spec fn one_edit(text: Seq<char>, edit: Cbor) -> Result<Seq<Change>, Seq<char>> {
    let old_text = text_field(edit, "oldText"@);
    let new_text = text_field(edit, "newText"@);
    let max = edit_count(edit, "max_matches"@, 1);
    let start = edit_line(edit, "start_line"@, 1);
    let end = edit_line(edit, "end_line"@, sat(starts_of(text).len() as int + 1));
    if old_text is None {
        Err("each edit must have a string oldText"@)
    } else if new_text is None {
        Err("each edit must have a string newText"@)
    } else if max is Err {
        Err(max->Err_0)
    } else if start is Err {
        Err(start->Err_0)
    } else if end is Err {
        Err(end->Err_0)
    } else if end->Ok_0 < start->Ok_0 {
        Err("end_line must be greater than or equal to start_line"@)
    } else if old_text->0.len() == 0 {
        Err("oldText must not be empty"@)
    } else {
        let pattern = old_text->0;
        Ok(
            matches_in(
                text,
                pattern,
                offset_of(text, start->Ok_0 as int),
                offset_of(text, end->Ok_0 as int),
                max->Ok_0 as nat,
            ).map_values(
                |p: int| Change { start: p, end: p + pattern.len(), text: new_text->0 },
            ),
        )
    }
}

/// The replacements that edits ask for, in order, or why the first that cannot
/// be made cannot.
pub open spec fn all_edits(text: Seq<char>, edits: Seq<Cbor>) -> Result<Seq<Change>, Seq<char>>
    decreases edits.len(),
{
    if edits.len() == 0 {
        Ok(seq![])
    } else {
        match all_edits(text, edits.drop_last()) {
            Err(message) => Err(message),
            Ok(before) => match one_edit(text, edits.last()) {
                Err(message) => Err(message),
                Ok(more) => Ok(before + more),
            },
        }
    }
}

/// A replacement put in its place among others, in the order of their starts.
pub open spec fn placed(sorted: Seq<Change>, change: Change) -> Seq<Change>
    decreases sorted.len(),
{
    if sorted.len() == 0 || sorted.last().start <= change.start {
        sorted.push(change)
    } else {
        placed(sorted.drop_last(), change).push(sorted.last())
    }
}

/// Replacements in the order of their starts.
pub open spec fn sorted_changes(changes: Seq<Change>) -> Seq<Change>
    decreases changes.len(),
{
    if changes.len() == 0 {
        seq![]
    } else {
        placed(sorted_changes(changes.drop_last()), changes.last())
    }
}

/// Whether no replacement reaches into the next one.
pub open spec fn apart(sorted: Seq<Change>) -> bool {
    forall|i: int|
        0 <= i < sorted.len() - 1 ==> (#[trigger] sorted[i]).end <= sorted[i + 1].start
}

/// A text with replacements made, each of them before the next.
pub open spec fn spliced(text: Seq<char>, sorted: Seq<Change>) -> Seq<char>
    decreases sorted.len(),
{
    if sorted.len() == 0 {
        text
    } else {
        spliced(text.take(sorted.last().start), sorted.drop_last()) + sorted.last().text
            + text.skip(sorted.last().end)
    }
}

/// A text after edits and how many replacements were made, or why they cannot
/// be made.
pub open spec fn edited(text: Seq<char>, edits: Seq<Cbor>) -> Result<(Seq<char>, nat), Seq<char>> {
    if edits.len() == 0 {
        Err("edits array must not be empty"@)
    } else {
        match all_edits(text, edits) {
            Err(message) => Err(message),
            Ok(changes) => if !apart(sorted_changes(changes)) {
                Err("overlapping edits"@)
            } else {
                Ok((spliced(text, sorted_changes(changes)), changes.len()))
            },
        }
    }
}

proof fn lemma_starts(text: Seq<char>, n: int)
    requires
        0 <= n <= text.len(),
    ensures
        1 <= starts_upto(text, n).len() <= n + 1,
        forall|i: int|
            0 <= i < starts_upto(text, n).len() ==> 0 <= #[trigger] starts_upto(text, n)[i] <= n,
        forall|i: int, j: int|
            0 <= i <= j < starts_upto(text, n).len() ==> #[trigger] starts_upto(text, n)[i]
                <= #[trigger] starts_upto(text, n)[j],
    decreases n,
{
    if n > 0 {
        lemma_starts(text, n - 1);
    }
}

/// The indices at which lines start.
pub fn line_starts(chars: &Vec<char>) -> (starts: Vec<usize>)
    ensures
        starts@.map_values(|i: usize| i as int) == starts_of(chars@),
{
    let mut starts: Vec<usize> = Vec::new();
    starts.push(0);
    let mut n: usize = 0;
    assert(starts@.map_values(|i: usize| i as int) =~= starts_upto(chars@, 0));
    while n < chars.len()
        invariant
            n <= chars@.len(),
            starts@.map_values(|i: usize| i as int) == starts_upto(chars@, n as int),
        decreases chars.len() - n,
    {
        let ghost before = starts@;
        n += 1;
        if chars[n - 1] == '\n' && n < chars.len() {
            starts.push(n);
            assert(starts@.map_values(|i: usize| i as int) =~= before.map_values(
                |i: usize| i as int,
            ).push(n as int));
        }
    }
    starts
}

/// Where a line starts, counted from one; `eof` for a line that is not there.
pub fn byte_offset_for_line(starts: &Vec<usize>, line: usize, eof: usize) -> (offset: usize)
    ensures
        offset == ({
            let index: int = if line == 0 {
                0
            } else {
                line - 1
            };
            if index < starts@.len() {
                starts@[index]
            } else {
                eof
            }
        }),
{
    let index: usize = if line == 0 {
        0
    } else {
        line - 1
    };
    if index < starts.len() {
        starts[index]
    } else {
        eof
    }
}

/// A count that an edit names, or why it cannot be used.
pub fn parse_optional_count(edit: &CborValue, key: &str, default: usize) -> (count: Result<
    usize,
    String,
>)
    ensures
        crate::shell::command::result_view(count) == edit_count(edit@, key@, default),
{
    match cbor_map_int(edit, key) {
        None => Ok(default),
        Some(n) => {
            if n < 0 {
                let mut message = key.to_owned();
                message.append(" must not be negative");
                Err(message)
            } else if n as u128 > usize::MAX as u128 {
                let mut message = key.to_owned();
                message.append(" is too large");
                Err(message)
            } else {
                Ok(n as usize)
            }
        },
    }
}

/// A line that an edit names, or why it cannot be used.
pub fn parse_optional_line(edit: &CborValue, key: &str, default: usize) -> (line: Result<
    usize,
    String,
>)
    ensures
        crate::shell::command::result_view(line) == edit_line(edit@, key@, default),
{
    match cbor_map_int(edit, key) {
        None => Ok(default),
        Some(n) => {
            if n < 1 {
                let mut message = key.to_owned();
                message.append(" must be at least 1");
                Err(message)
            } else if n as u128 > usize::MAX as u128 {
                let mut message = key.to_owned();
                message.append(" is too large");
                Err(message)
            } else {
                Ok(n as usize)
            }
        },
    }
}

/// A replacement to be made.
#[derive(Debug)]
pub struct Replacement {
    pub start: usize,
    pub end: usize,
    pub text: String,
}

impl View for Replacement {
    type V = Change;

    open spec fn view(&self) -> Change {
        Change { start: self.start as int, end: self.end as int, text: self.text@ }
    }
}

/// The views of replacements.
pub open spec fn change_views(list: Seq<Replacement>) -> Seq<Change> {
    list.map_values(|r: Replacement| r@)
}

/// Finds the places of a pattern and adds a replacement for each.
fn push_matches(
    list: &mut Vec<Replacement>,
    text: &Vec<char>,
    pattern: &Vec<char>,
    from: usize,
    to: usize,
    max: usize,
    new_text: &String,
)
    requires
        from <= to <= text@.len(),
        pattern@.len() > 0,
    ensures
        change_views(final(list)@) == change_views(old(list)@) + matches_in(
            text@,
            pattern@,
            from as int,
            to as int,
            max as nat,
        ).map_values(
            |p: int| Change { start: p, end: p + pattern@.len(), text: new_text@ },
        ),
        forall|i: int|
            0 <= i < old(list)@.len() ==> #[trigger] final(list)@[i] == old(list)@[i],
        forall|i: int|
            old(list)@.len() <= i < final(list)@.len() ==> (#[trigger] final(list)@[i]).start
                <= final(list)@[i].end <= text@.len(),
{
    let ghost make = |p: int| Change { start: p, end: p + pattern@.len(), text: new_text@ };
    let ghost goal = matches_in(text@, pattern@, from as int, to as int, max as nat);
    let ghost before = list@;
    let mut at: usize = from;
    let mut left: usize = max;
    let size: usize = pattern.len();
    let ghost mut found: Seq<int> = seq![];
    assert(found + goal =~= goal);
    assert(change_views(list@) =~= change_views(before) + found.map_values(make));
    while left > 0 && size <= to - at
        invariant
            from <= at,
            at <= to <= text@.len(),
            size == pattern@.len() > 0,
            make == (|p: int| Change { start: p, end: p + pattern@.len(), text: new_text@ }),
            change_views(list@) == change_views(before) + found.map_values(make),
            found + matches_in(text@, pattern@, at as int, to as int, left as nat) == goal,
            before.len() <= list@.len(),
            forall|i: int| 0 <= i < before.len() ==> #[trigger] list@[i] == before[i],
            forall|i: int|
                before.len() <= i < list@.len() ==> (#[trigger] list@[i]).start <= list@[i].end
                    <= text@.len(),
        decreases left, to - at,
    {
        if matches_at(text, pattern, at) {
            let item = Replacement { start: at, end: at + size, text: new_text.clone() };
            let ghost old_list = list@;
            list.push(item);
            proof {
                let rest = matches_in(
                    text@,
                    pattern@,
                    at + size,
                    to as int,
                    (left - 1) as nat,
                );
                assert(found + (seq![at as int] + rest) =~= found.push(at as int) + rest);
                assert(change_views(list@) =~= change_views(old_list).push(item@));
                assert(found.push(at as int).map_values(make) =~= found.map_values(make).push(
                    make(at as int),
                ));
                found = found.push(at as int);
                assert(change_views(list@) =~= change_views(before) + found.map_values(make));
            }
            at = at + size;
            left -= 1;
        } else {
            at += 1;
            proof {
                assert(first_match(text@, pattern@, at - 1, to as int) == first_match(
                    text@,
                    pattern@,
                    at as int,
                    to as int,
                ));
            }
        }
    }
    assert(matches_in(text@, pattern@, at as int, to as int, left as nat) =~= seq![]);
    assert(found + seq![] =~= found);
}

/// Adds the replacements that one edit asks for, or says why it cannot be made.
fn push_edit(
    list: &mut Vec<Replacement>,
    text: &Vec<char>,
    starts: &Vec<usize>,
    edit: &CborValue,
) -> (r: Result<(), String>)
    requires
        starts@.map_values(|i: usize| i as int) == starts_of(text@),
        forall|i: int|
            0 <= i < old(list)@.len() ==> (#[trigger] old(list)@[i]).start <= old(list)@[i].end
                <= text@.len(),
    ensures
        forall|i: int|
            0 <= i < final(list)@.len() ==> (#[trigger] final(list)@[i]).start
                <= final(list)@[i].end <= text@.len(),
        match r {
            Ok(_) => one_edit(text@, edit@) is Ok && change_views(final(list)@) == change_views(
                old(list)@,
            ) + one_edit(text@, edit@)->Ok_0,
            Err(message) => one_edit(text@, edit@) == Err::<Seq<Change>, Seq<char>>(message@)
                && final(list)@ == old(list)@,
        },
{
    let eof: usize = text.len();
    proof {
        lemma_starts(text@, text@.len() as int);
        assert(starts_of(text@).len() == starts@.len());
        assert forall|i: int| 0 <= i < starts@.len() implies starts@[i] == #[trigger] starts_of(
            text@,
        )[i] by {
            assert(starts@.map_values(|i: usize| i as int)[i] == starts@[i] as int);
        }
    }
    let old_text = match cbor_map_text(edit, "oldText") {
        Some(text) => text,
        None => {
            return Err("each edit must have a string oldText".to_owned());
        },
    };
    let new_text = match cbor_map_text(edit, "newText") {
        Some(text) => text,
        None => {
            return Err("each edit must have a string newText".to_owned());
        },
    };
    let max = match parse_optional_count(edit, "max_matches", 1) {
        Ok(max) => max,
        Err(message) => {
            return Err(message);
        },
    };
    let start_line = match parse_optional_line(edit, "start_line", 1) {
        Ok(line) => line,
        Err(message) => {
            return Err(message);
        },
    };
    let end_line = match parse_optional_line(edit, "end_line", starts.len().saturating_add(1)) {
        Ok(line) => line,
        Err(message) => {
            return Err(message);
        },
    };
    if end_line < start_line {
        return Err("end_line must be greater than or equal to start_line".to_owned());
    }
    if old_text.as_str().is_empty() {
        return Err("oldText must not be empty".to_owned());
    }
    let from = byte_offset_for_line(starts, start_line, eof);
    let to = byte_offset_for_line(starts, end_line, eof);
    assert(from == offset_of(text@, start_line as int));
    assert(to == offset_of(text@, end_line as int));
    let pattern = chars_of(old_text.as_str());
    push_matches(list, text, &pattern, from, to, max, &new_text);
    proof {
        let make = |p: int|
            Change { start: p, end: p + pattern@.len(), text: new_text@ };
        assert(one_edit(text@, edit@)->Ok_0 =~= matches_in(
            text@,
            pattern@,
            from as int,
            to as int,
            max as nat,
        ).map_values(make));
        assert forall|i: int| 0 <= i < list@.len() implies (#[trigger] list@[i]).start
            <= list@[i].end <= text@.len() by {
            if i < old(list)@.len() {
                assert(list@[i] == old(list)@[i]);
            }
        }
    }
    Ok(())
}

/// Whether the starts of replacements are in order.
pub open spec fn starts_in_order(sorted: Seq<Change>) -> bool {
    forall|i: int, j: int|
        0 <= i < j < sorted.len() ==> (#[trigger] sorted[i]).start <= (#[trigger] sorted[j]).start
}

/// A replacement put in its place among others in order.
proof fn lemma_placed(sorted: Seq<Change>, change: Change, p: int)
    requires
        0 <= p <= sorted.len(),
        p > 0 ==> sorted[p - 1].start <= change.start,
        forall|i: int| p <= i < sorted.len() ==> (#[trigger] sorted[i]).start > change.start,
    ensures
        placed(sorted, change) == sorted.insert(p, change),
    decreases sorted.len(),
{
    if p == sorted.len() {
        assert(sorted.insert(p, change) =~= sorted.push(change));
        if sorted.len() > 0 {
            assert(sorted.last().start <= change.start);
        }
    } else {
        let shorter = sorted.drop_last();
        assert(sorted[sorted.len() - 1].start > change.start);
        assert forall|i: int| p <= i < shorter.len() implies (#[trigger] shorter[i]).start
            > change.start by {
            assert(shorter[i] == sorted[i]);
        }
        lemma_placed(shorter, change, p);
        assert(sorted.insert(p, change) =~= shorter.insert(p, change).push(sorted.last()));
    }
}

/// Puts replacements in the order of their starts.
fn sort_replacements(list: Vec<Replacement>) -> (sorted: Vec<Replacement>)
    ensures
        change_views(sorted@) == sorted_changes(change_views(list@)),
        sorted@.len() == list@.len(),
        forall|i: int| 0 <= i < sorted@.len() ==> list@.contains(#[trigger] sorted@[i]),
{
    let mut sorted: Vec<Replacement> = Vec::new();
    let ghost all = change_views(list@);
    let ghost items = list@;
    assert(change_views(sorted@) =~= sorted_changes(all.take(0)));
    for item in iter: list
        invariant
            iter.seq() == items,
            all == change_views(items),
            change_views(sorted@) == sorted_changes(all.take(iter.index())),
            starts_in_order(change_views(sorted@)),
            sorted@.len() == iter.index(),
            forall|i: int| 0 <= i < sorted@.len() ==> items.contains(#[trigger] sorted@[i]),
    {
        assert(all.take(iter.index() + 1).drop_last() =~= all.take(iter.index()));
        assert(all.take(iter.index() + 1).last() == item@);
        let ghost before = sorted@;
        let ghost view = change_views(sorted@);
        let mut p: usize = sorted.len();
        while p > 0 && sorted[p - 1].start > item.start
            invariant
                p <= sorted@.len(),
                view == change_views(sorted@),
                forall|i: int|
                    p <= i < sorted@.len() ==> (#[trigger] view[i]).start > item@.start,
            decreases p,
        {
            assert(view[p - 1] == sorted@[p - 1]@);
            p -= 1;
        }
        let ghost at = p as int;
        let ghost placed_item = item;
        if p > 0 {
            assert(view[p - 1] == sorted@[p - 1]@);
        }
        sorted.insert(p, item);
        proof {
            lemma_placed(view, placed_item@, at);
            let after = change_views(sorted@);
            assert(after =~= view.insert(at, placed_item@));
            assert forall|i: int, j: int| 0 <= i < j < after.len() implies (
            #[trigger] after[i]).start <= (#[trigger] after[j]).start by {
                let a = if i < at {
                    i
                } else {
                    i - 1
                };
                let b = if j < at {
                    j
                } else {
                    j - 1
                };
                if i != at {
                    assert(after[i] == view[a]);
                }
                if j != at {
                    assert(after[j] == view[b]);
                }
                if j == at && i < at {
                    if i < at - 1 {
                        assert(view[i].start <= view[at - 1].start);
                    }
                }
            }
            assert forall|i: int| 0 <= i < sorted@.len() implies items.contains(
                #[trigger] sorted@[i],
            ) by {
                if i < at {
                    assert(sorted@[i] == before[i]);
                } else if i == at {
                    assert(items[iter.index()] == placed_item);
                } else {
                    assert(sorted@[i] == before[i - 1]);
                }
            }
        }
    }
    assert(all.take(all.len() as int) =~= all);
    sorted
}

/// More text behind the last replacement stays as it is.
proof fn lemma_spliced_extend(text: Seq<char>, sorted: Seq<Change>, a: int, b: int)
    requires
        0 <= a <= b <= text.len(),
        sorted.len() > 0 ==> 0 <= sorted.last().start <= sorted.last().end <= a,
    ensures
        spliced(text.take(b), sorted) == spliced(text.take(a), sorted) + text.subrange(a, b),
{
    if sorted.len() == 0 {
        assert(text.take(b) =~= text.take(a) + text.subrange(a, b));
    } else {
        let last = sorted.last();
        assert(text.take(b).take(last.start) =~= text.take(a).take(last.start));
        assert(text.take(b).skip(last.end) =~= text.take(a).skip(last.end) + text.subrange(a, b));
        assert(spliced(text.take(b), sorted) =~= spliced(text.take(a), sorted) + text.subrange(
            a,
            b,
        ));
    }
}

/// Makes replacements that are in order and apart.
fn apply(text: &Vec<char>, sorted: &Vec<Replacement>) -> (out: String)
    requires
        apart(change_views(sorted@)),
        forall|i: int|
            0 <= i < sorted@.len() ==> (#[trigger] sorted@[i]).start <= sorted@[i].end
                <= text@.len(),
    ensures
        out@ == spliced(text@, change_views(sorted@)),
{
    let ghost all = change_views(sorted@);
    let mut out = String::new();
    let mut cursor: usize = 0;
    let mut i: usize = 0;
    assert(out@ =~= spliced(text@.take(0), all.take(0)));
    while i < sorted.len()
        invariant
            i <= sorted@.len(),
            all == change_views(sorted@),
            apart(all),
            forall|k: int|
                0 <= k < sorted@.len() ==> (#[trigger] sorted@[k]).start <= sorted@[k].end
                    <= text@.len(),
            cursor == if i == 0 {
                0
            } else {
                sorted@[i - 1].end as int
            },
            cursor <= text@.len(),
            out@ == spliced(text@.take(cursor as int), all.take(i as int)),
        decreases sorted.len() - i,
    {
        let item = &sorted[i];
        proof {
            if i > 0 {
                assert(all[i - 1].end <= all[i as int].start);
                assert(all.take(i as int).last() == all[i - 1]);
                assert(sorted@[i - 1].start <= sorted@[i - 1].end);
            }
            lemma_spliced_extend(
                text@,
                all.take(i as int),
                cursor as int,
                item.start as int,
            );
            assert(all.take(i + 1).drop_last() =~= all.take(i as int));
            assert(all.take(i + 1).last() == item@);
            assert(text@.take(item.end as int).take(item.start as int) =~= text@.take(
                item.start as int,
            ));
            assert(text@.take(item.end as int).skip(item.end as int) =~= seq![]);
        }
        let between = text_of(text, cursor, item.start);
        out.append(between.as_str());
        out.append(item.text.as_str());
        cursor = item.end;
        assert(out@ =~= spliced(text@.take(cursor as int), all.take(i + 1)));
        i += 1;
    }
    proof {
        assert(all.take(i as int) =~= all);
        if i > 0 {
            assert(all.last() == all[i - 1]);
            assert(sorted@[i - 1].start <= sorted@[i - 1].end);
        }
        lemma_spliced_extend(text@, all, cursor as int, text@.len() as int);
        assert(text@.take(text@.len() as int) =~= text@);
    }
    let rest = text_of(text, cursor, text.len());
    out.append(rest.as_str());
    out
}

/// A text after edits, or why they cannot be made.
pub fn edit_text(original: &str, edits: &Vec<CborValue>) -> (r: Result<(String, usize), String>)
    ensures
        match r {
            Ok((text, count)) => edited(original@, value_views(edits@)) == Ok::<
                (Seq<char>, nat),
                Seq<char>,
            >((text@, count as nat)),
            Err(message) => edited(original@, value_views(edits@)) == Err::<
                (Seq<char>, nat),
                Seq<char>,
            >(message@),
        },
{
    let ghost all = value_views(edits@);
    if edits.is_empty() {
        return Err("edits array must not be empty".to_owned());
    }
    let chars = chars_of(original);
    let starts = line_starts(&chars);
    let mut list: Vec<Replacement> = Vec::new();
    let mut i: usize = 0;
    assert(all.take(0) =~= seq![]);
    assert(change_views(list@) =~= seq![]);
    while i < edits.len()
        invariant
            i <= edits@.len(),
            all == value_views(edits@),
            chars@ == original@,
            starts@.map_values(|i: usize| i as int) == starts_of(original@),
            all_edits(original@, all.take(i as int)) == Ok::<Seq<Change>, Seq<char>>(
                change_views(list@),
            ),
            forall|k: int|
                0 <= k < list@.len() ==> (#[trigger] list@[k]).start <= list@[k].end
                    <= original@.len(),
        decreases edits.len() - i,
    {
        assert(all.take(i + 1).drop_last() =~= all.take(i as int));
        assert(all.take(i + 1).last() == edits@[i as int]@);
        match push_edit(&mut list, &chars, &starts, &edits[i]) {
            Ok(_) => {},
            Err(message) => {
                proof {
                    lemma_first_error(original@, all, i + 1);
                }
                return Err(message);
            },
        }
        i += 1;
    }
    assert(all.take(i as int) =~= all);
    let count: usize = list.len();
    let sorted = sort_replacements(list);
    let ghost order = change_views(sorted@);
    let n: usize = sorted.len();
    assert forall|i: int| 0 <= i < sorted@.len() implies (#[trigger] sorted@[i]).start
        <= sorted@[i].end <= chars@.len() by {
        let k = choose|k: int| 0 <= k < list@.len() && list@[k] == sorted@[i];
        assert(list@[k].start <= list@[k].end <= chars@.len());
    }
    let mut overlapping = false;
    let mut k: usize = 0;
    while k < n && n - k > 1 && !overlapping
        invariant
            k <= n == sorted@.len(),
            order == change_views(sorted@),
            overlapping ==> !apart(order),
            !overlapping ==> forall|j: int|
                0 <= j < k ==> (#[trigger] order[j]).end <= order[j + 1].start,
        decreases n - k,
    {
        assert(order[k as int] == sorted@[k as int]@);
        assert(order[k + 1] == sorted@[k + 1]@);
        if sorted[k + 1].start < sorted[k].end {
            overlapping = true;
        }
        k += 1;
    }
    if overlapping {
        return Err("overlapping edits".to_owned());
    }
    assert(apart(order));
    Ok((apply(&chars, &sorted), count))
}

/// The first edit that cannot be made decides what is said.
proof fn lemma_first_error(text: Seq<char>, edits: Seq<Cbor>, n: int)
    requires
        0 <= n <= edits.len(),
        all_edits(text, edits.take(n)) is Err,
    ensures
        all_edits(text, edits) == all_edits(text, edits.take(n)),
    decreases edits.len(),
{
    if n == edits.len() {
        assert(edits.take(n) =~= edits);
    } else {
        assert(edits.drop_last().take(n) =~= edits.take(n));
        lemma_first_error(text, edits.drop_last(), n);
    }
}

/// Replacements that are made never overlap: each lies wholly before every
/// later one.
pub proof fn law_edits_never_overlap(sorted: Seq<Change>, i: int, j: int)
    requires
        apart(sorted),
        forall|k: int| 0 <= k < sorted.len() ==> (#[trigger] sorted[k]).start <= sorted[k].end,
        0 <= i < j < sorted.len(),
    ensures
        sorted[i].end <= sorted[j].start,
    decreases j - i,
{
    assert(sorted[i].end <= sorted[i + 1].start);
    if i + 1 < j {
        law_edits_never_overlap(sorted, i + 1, j);
        assert(sorted[i + 1].start <= sorted[i + 1].end);
    }
}

/// What stands before the first and behind the last replacement is left as it
/// was.
pub proof fn law_text_around_edits_is_kept(text: Seq<char>, sorted: Seq<Change>)
    requires
        sorted.len() > 0,
        apart(sorted),
        forall|k: int|
            0 <= k < sorted.len() ==> 0 <= (#[trigger] sorted[k]).start <= sorted[k].end
                <= text.len(),
    ensures
        text.take(sorted[0].start).is_prefix_of(spliced(text, sorted)),
        text.skip(sorted.last().end).is_suffix_of(spliced(text, sorted)),
    decreases sorted.len(),
{
    let last = sorted.last();
    let out = spliced(text, sorted);
    let tail = text.skip(last.end);
    assert(out.skip(out.len() - tail.len()) =~= tail);
    if sorted.len() == 1 {
        assert(spliced(text.take(last.start), sorted.drop_last()) == text.take(last.start));
        assert(out.take(last.start) =~= text.take(last.start));
    } else {
        let before = sorted.drop_last();
        let head = text.take(last.start);
        assert forall|k: int| 0 <= k < before.len() implies 0 <= (#[trigger] before[k]).start
            <= before[k].end <= head.len() by {
            assert(before[k] == sorted[k]);
            law_edits_never_overlap(sorted, k, sorted.len() - 1);
        }
        assert forall|i: int| 0 <= i < before.len() - 1 implies (#[trigger] before[i]).end
            <= before[i + 1].start by {
            assert(before[i] == sorted[i] && before[i + 1] == sorted[i + 1]);
        }
        law_text_around_edits_is_kept(head, before);
        let first = sorted[0].start;
        assert(before[0] == sorted[0]);
        assert(head.take(first) =~= text.take(first));
        let inner = spliced(head, before);
        assert(inner.take(first) =~= text.take(first));
        assert(out.take(first) =~= text.take(first));
    }
}

/// What an edit call makes of a file.
#[derive(Debug)]
pub struct EditPlan {
    pub path: String,
    pub original: String,
    pub result: String,
    pub replacements: usize,
}

/// What an edit call makes of a file, or why it is refused.
pub open spec fn edit_planned(arguments: Cbor, file: Result<Seq<char>, Seq<char>>) -> Result<
    (Seq<char>, Seq<char>, nat),
    FailureView,
> {
    match text_field(arguments, "path"@) {
        None => Err(failure(argument_error("path"@, "a string"@))),
        Some(path) => match file {
            Err(message) => Err(failure_with_args(message, path)),
            Ok(original) => match field(arguments, "edits"@) {
                Some(Cbor::Array(edits)) => match edited(original, edits) {
                    Err(message) => Err(failure_with_args(message, path)),
                    Ok((result, count)) => Ok((path, result, count)),
                },
                _ => Err(failure_with_args(argument_error("edits"@, "an array"@), path)),
            },
        },
    }
}

/// The text of a file, or why it could not be read, as mathematics.
pub open spec fn file_view(file: Result<String, String>) -> Result<Seq<char>, Seq<char>> {
    match file {
        Ok(text) => Ok(text@),
        Err(message) => Err(message@),
    }
}

/// What an edit call makes of a file, or why it is refused.
pub fn plan_edit(arguments: &CborValue, file: &Result<String, String>) -> (plan: Result<
    EditPlan,
    ToolFailure,
>)
    ensures
        match plan {
            Ok(plan) => file is Ok && plan.original@ == file->Ok_0@ && edit_planned(
                arguments@,
                file_view(*file),
            ) == Ok::<(Seq<char>, Seq<char>, nat), FailureView>(
                (plan.path@, plan.result@, plan.replacements as nat),
            ),
            Err(f) => edit_planned(arguments@, file_view(*file)) == Err::<
                (Seq<char>, Seq<char>, nat),
                FailureView,
            >(f@),
        },
{
    let path = match argument_text(arguments, "path") {
        Ok(path) => path,
        Err(message) => {
            return Err(ToolFailure::new(message));
        },
    };
    let original = match file {
        Ok(text) => text.clone(),
        Err(message) => {
            return Err(ToolFailure::new(message.clone()).with_args(path));
        },
    };
    let edits = match cbor_map_array(arguments, "edits") {
        Some(edits) => edits,
        None => {
            return Err(
                ToolFailure::new(argument_error_text("edits", "an array")).with_args(path),
            );
        },
    };
    match edit_text(original.as_str(), edits) {
        Ok((result, replacements)) => Ok(EditPlan { path, original, result, replacements }),
        Err(message) => Err(ToolFailure::new(message).with_args(path)),
    }
}

/// The difference that a tool made to a file.
pub open spec fn file_diff(original: Seq<char>, result: Seq<char>) -> SummaryView {
    summary_of(line_diff(original, result, DIFF_CONTEXT_LINES as nat))
}

/// A file is reported as changed where, and only where, it changes. That it is
/// holds of files whose lines can be numbered in 32 bits.
pub open spec fn tells_change(original: Seq<char>, result: Seq<char>) -> bool {
    &&& result == original ==> file_diff(original, result).hunks.len() == 0
    &&& result != original && original.len() + result.len() <= u32::MAX ==> file_diff(
        original,
        result,
    ).hunks.len() > 0
}

/// The description of a tool that changed a file.
pub open spec fn diff_state(path: Seq<char>, diff: SummaryView) -> StateView {
    StateView {
        payload: Some(PayloadView::Diff(diff)),
        ..plain_state(path, ToolUseStatus::Success, "ok"@)
    }
}

/// The result of an edit call.
pub open spec fn edit_result(path: Seq<char>, replacements: nat, diff: SummaryView) -> Cbor {
    Cbor::Dict(
        seq![
            entry("path", Cbor::Text(path)),
            entry("replacements", Cbor::Integer(as_i64(replacements as int))),
            entry("changed", Cbor::Bool(diff.hunks.len() > 0)),
        ] + (if diff.hunks.len() > 0 {
            seq![entry("diff", Cbor::Text(unified_of(diff.hunks)))]
        } else {
            seq![]
        }),
    )
}

/// A count in 64 bits with a sign.
fn signed_count(n: u64) -> (value: i128)
    ensures
        value == as_i64(n as int),
{
    let wide: i128 = n as i128;
    if wide <= 9223372036854775807i128 {
        wide
    } else {
        wide - 18446744073709551616i128
    }
}

/// The result of an edit call, from the difference that it made.
pub fn edit_result_value(path: String, replacements: usize, diff: &DiffSummary) -> (value:
    CborValue)
    ensures
        value@ == edit_result(path@, replacements as nat, diff@),
{
    broadcast use group_cbor_views;

    let mut entries: Vec<(CborValue, CborValue)> = Vec::new();
    push_entry(&mut entries, "path", CborValue::Text(path));
    push_entry(
        &mut entries,
        "replacements",
        CborValue::Integer(signed_count(replacements as u64)),
    );
    push_entry(&mut entries, "changed", CborValue::Bool(!diff.hunks.is_empty()));
    if let Some(unified) = unified_diff(diff) {
        push_entry(&mut entries, "diff", CborValue::Text(unified));
    }
    assert(entry_views(entries@) =~= edit_result(
        path@,
        replacements as nat,
        diff@,
    )->Dict_0);
    CborValue::Dict(entries)
}

/// The outcome of an edit call, from what was read of the file and what became
/// of writing it again. It is written only where it changes.
pub fn edit_file(
    arguments: &CborValue,
    file: &Result<String, String>,
    written: &Result<(), String>,
) -> (outcome: Result<ToolOutput, ToolFailure>)
    ensures
        outcome_view(outcome) == match edit_planned(arguments@, file_view(*file)) {
            Err(f) => Err(f),
            Ok((path, result, count)) => {
                let original = file->Ok_0@;
                let diff = file_diff(original, result);
                if result != original && written is Err {
                    Err(failure_with_args(written->Err_0@, path))
                } else {
                    Ok(
                        OutputView {
                            result: edit_result(path, count, diff),
                            display: diff_state(path, diff),
                        },
                    )
                }
            },
        },
        outcome is Ok ==> (edit_planned(arguments@, file_view(*file)) matches Ok((_, result, _))
            && tells_change(file->Ok_0@, result)),
{
    let plan = match plan_edit(arguments, file) {
        Ok(plan) => plan,
        Err(f) => {
            return Err(f);
        },
    };
    if !same_text(plan.result.as_str(), plan.original.as_str()) {
        if let Err(message) = written {
            return Err(ToolFailure::new(message.clone()).with_args(plan.path));
        }
    }
    let diff = compute_diff(plan.original.as_str(), plan.result.as_str());
    let mut display = ok_display(plan.path.as_str());
    let result = edit_result_value(plan.path, plan.replacements, &diff);
    display.payload = Some(ToolUsePayload::Diff(diff));
    Ok(ToolOutput { result, display })
}

/// What a write call asks for.
#[derive(Debug)]
pub struct WritePlan {
    pub path: String,
    pub content: String,
}

/// What a write call asks for, or why it is refused.
pub open spec fn write_planned(arguments: Cbor) -> Result<(Seq<char>, Seq<char>), FailureView> {
    match text_field(arguments, "path"@) {
        None => Err(failure(argument_error("path"@, "a string"@))),
        Some(path) => match text_field(arguments, "content"@) {
            None => Err(failure(argument_error("content"@, "a string"@))),
            Some(content) => Ok((path, content)),
        },
    }
}

/// What a write call asks for, or why it is refused.
pub fn plan_write(arguments: &CborValue) -> (plan: Result<WritePlan, ToolFailure>)
    ensures
        match plan {
            Ok(plan) => write_planned(arguments@) == Ok::<(Seq<char>, Seq<char>), FailureView>(
                (plan.path@, plan.content@),
            ),
            Err(f) => write_planned(arguments@) == Err::<(Seq<char>, Seq<char>), FailureView>(f@),
        },
{
    let path = match argument_text(arguments, "path") {
        Ok(path) => path,
        Err(message) => {
            return Err(ToolFailure::new(message));
        },
    };
    match argument_text(arguments, "content") {
        Ok(content) => Ok(WritePlan { path, content }),
        Err(message) => Err(ToolFailure::new(message)),
    }
}

/// The result of a write call.
pub open spec fn write_result(
    path: Seq<char>,
    bytes: nat,
    created: bool,
    diff: SummaryView,
) -> Cbor {
    Cbor::Dict(
        seq![
            entry("path", Cbor::Text(path)),
            entry("bytes_written", Cbor::Integer(as_i64(bytes as int))),
            entry("created", Cbor::Bool(created)),
            entry("changed", Cbor::Bool(diff.hunks.len() > 0)),
        ],
    )
}

/// The result of a write call, from the difference that it made.
pub fn write_result_value(path: String, bytes: usize, created: bool, diff: &DiffSummary) -> (value:
    CborValue)
    ensures
        value@ == write_result(path@, bytes as nat, created, diff@),
{
    broadcast use group_cbor_views;

    let mut entries: Vec<(CborValue, CborValue)> = Vec::new();
    push_entry(&mut entries, "path", CborValue::Text(path));
    push_entry(&mut entries, "bytes_written", CborValue::Integer(signed_count(bytes as u64)));
    push_entry(&mut entries, "created", CborValue::Bool(created));
    push_entry(&mut entries, "changed", CborValue::Bool(!diff.hunks.is_empty()));
    assert(entry_views(entries@) =~= write_result(
        path@,
        bytes as nat,
        created,
        diff@,
    )->Dict_0);
    CborValue::Dict(entries)
}

/// The outcome of a write call: `original` is the text that the file had, empty
/// where it had none, and `written` what became of making its directory and
/// writing it.
pub fn write_file(
    arguments: &CborValue,
    created: bool,
    original: &str,
    written: &Result<(), String>,
) -> (outcome: Result<ToolOutput, ToolFailure>)
    ensures
        outcome_view(outcome) == match write_planned(arguments@) {
            Err(f) => Err(f),
            Ok((path, content)) => match written {
                Err(message) => Err(failure_with_args(message@, path)),
                Ok(_) => {
                    let diff = file_diff(original@, content);
                    Ok(
                        OutputView {
                            result: write_result(
                                path,
                                crate::text::utf8_len(content),
                                created,
                                diff,
                            ),
                            display: diff_state(path, diff),
                        },
                    )
                },
            },
        },
        outcome is Ok ==> (write_planned(arguments@) matches Ok((_, content)) && tells_change(
            original@,
            content,
        )),
{
    let plan = match plan_write(arguments) {
        Ok(plan) => plan,
        Err(f) => {
            return Err(f);
        },
    };
    if let Err(message) = written {
        return Err(ToolFailure::new(message.clone()).with_args(plan.path));
    }
    let bytes = crate::text::byte_len(plan.content.as_str());
    let diff = compute_diff(original, plan.content.as_str());
    let mut display = ok_display(plan.path.as_str());
    let result = write_result_value(plan.path, bytes, created, &diff);
    display.payload = Some(ToolUsePayload::Diff(diff));
    Ok(ToolOutput { result, display })
}

} // verus!
