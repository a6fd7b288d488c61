//! Laws of the `read` tool.

use vstd::prelude::*;

use vstd::utf8::{decode_utf8, valid_utf8};

use crate::shell::capture::LineEndingKind;
use crate::shell::read::{
    asked_ranges, byte_lines, count_ending, line_end, past_end, range_of, read_fits, read_outcome,
    read_planned, shown_line, shown_slice, slice_content, slices_content, slices_read, taken,
    usual_ending, ByteLine, LineRange, ReadPlanView,
};
use crate::text::{decimal_of, join_of};
use crate::value::{field, int_field, is_absent, lemma_first_entry, text_field, Cbor};

verus! {

/// The bytes of a line's ending.
pub open spec fn ending_bytes(ending: Option<LineEndingKind>) -> Seq<u8> {
    match ending {
        Some(LineEndingKind::Lf) => seq![10u8],
        Some(LineEndingKind::Crlf) => seq![13u8, 10u8],
        Some(LineEndingKind::Cr) => seq![13u8],
        None => seq![],
    }
}

/// Lines with their endings, one behind the other.
pub open spec fn put_together(list: Seq<ByteLine>) -> Seq<u8>
    decreases list.len(),
{
    if list.len() == 0 {
        seq![]
    } else {
        list[0].bytes + ending_bytes(list[0].ending) + put_together(list.drop_first())
    }
}

proof fn lemma_line_end(bytes: Seq<u8>)
    ensures
        0 <= line_end(bytes) <= bytes.len(),
        line_end(bytes) < bytes.len() ==> bytes[line_end(bytes)] == 10 || bytes[line_end(bytes)]
            == 13,
        forall|i: int| 0 <= i < line_end(bytes) ==> bytes[i] != 10 && bytes[i] != 13,
    decreases bytes.len(),
{
    if bytes.len() > 0 && bytes[0] != 13 && bytes[0] != 10 {
        let rest = bytes.drop_first();
        lemma_line_end(rest);
        assert forall|i: int| 0 <= i < line_end(bytes) implies bytes[i] != 10 && bytes[i] != 13 by {
            if i > 0 {
                assert(bytes[i] == rest[i - 1]);
            }
        }
        if line_end(rest) < rest.len() {
            assert(bytes[line_end(bytes)] == rest[line_end(rest)]);
        }
    }
}

/// Whether a line has no line break inside.
pub open spec fn is_one_line(line: ByteLine) -> bool {
    forall|i: int| 0 <= i < line.bytes.len() ==> line.bytes[i] != 10 && line.bytes[i] != 13
}

/// The lines of a file are the whole file: put together with their endings, they
/// are its bytes. A line breaks nowhere inside, and only the last can be without an
/// ending.
pub proof fn law_lines_are_the_file(bytes: Seq<u8>)
    ensures
        put_together(byte_lines(bytes)) == bytes,
        forall|k: int| 0 <= k < byte_lines(bytes).len() ==> is_one_line(#[trigger] byte_lines(bytes)[k]),
        forall|k: int|
            0 <= k < byte_lines(bytes).len() && (#[trigger] byte_lines(bytes)[k]).ending is None
                ==> k == byte_lines(bytes).len() - 1 && byte_lines(bytes)[k].bytes.len() > 0,
    decreases bytes.len(),
{
    lemma_line_end(bytes);
    let p = line_end(bytes);
    let list = byte_lines(bytes);
    if bytes.len() == 0 {
        assert(put_together(list) =~= bytes);
    } else if p >= bytes.len() {
        assert(list.drop_first() =~= seq![]);
        assert(put_together(list.drop_first()) =~= seq![]);
        assert(put_together(list) =~= bytes);
        assert(is_one_line(list[0]));
    } else {
        let n: int = if bytes[p] == 13 && p + 1 < bytes.len() && bytes[p + 1] == 10 {
            p + 2
        } else {
            p + 1
        };
        let rest = bytes.skip(n);
        law_lines_are_the_file(rest);
        assert(list.drop_first() =~= byte_lines(rest));
        assert(list[0].bytes == bytes.take(p));
        assert(bytes =~= bytes.take(p) + ending_bytes(list[0].ending) + rest);
        assert(is_one_line(list[0]));
        assert forall|k: int| 0 <= k < list.len() implies is_one_line(#[trigger] list[k]) && (
        list[k].ending is None ==> k == list.len() - 1 && list[k].bytes.len() > 0) by {
            if k > 0 {
                assert(list[k] == byte_lines(rest)[k - 1]);
            }
        }
    }
}

/// A line of text is shown behind its number and a space; where its ending is not
/// the usual one, or it has none, that is said in brackets between them.
pub proof fn law_line_is_shown_with_its_number(
    number: nat,
    line: ByteLine,
    usual: Option<LineEndingKind>,
)
    requires
        valid_utf8(line.bytes),
    ensures
        line.ending is Some && line.ending == usual ==> shown_line(number, line, usual)
            == decimal_of(number) + " "@ + decode_utf8(line.bytes),
        line.ending is None ==> shown_line(number, line, usual) == decimal_of(number) + "(no_nl) "@
            + decode_utf8(line.bytes),
        line.ending == Some(LineEndingKind::Crlf) && usual != line.ending ==> shown_line(
            number,
            line,
            usual,
        ) == decimal_of(number) + "(crlf) "@ + decode_utf8(line.bytes),
        line.ending == Some(LineEndingKind::Lf) && usual != line.ending ==> shown_line(
            number,
            line,
            usual,
        ) == decimal_of(number) + "(lf) "@ + decode_utf8(line.bytes),
        line.ending == Some(LineEndingKind::Cr) && usual != line.ending ==> shown_line(
            number,
            line,
            usual,
        ) == decimal_of(number) + "(cr) "@ + decode_utf8(line.bytes),
{
    reveal_strlit("(");
    reveal_strlit(")");
    reveal_strlit(" ");
    reveal_strlit("lf");
    reveal_strlit("cr");
    reveal_strlit("crlf");
    reveal_strlit("no_nl");
    reveal_strlit("(lf) ");
    reveal_strlit("(cr) ");
    reveal_strlit("(crlf) ");
    reveal_strlit("(no_nl) ");
    let digits = decimal_of(number);
    let text = decode_utf8(line.bytes);
    assert(digits + Seq::<char>::empty() + " "@ + text =~= digits + " "@ + text);
    assert(digits + ("("@ + "no_nl"@ + ")"@) + " "@ + text =~= digits + "(no_nl) "@ + text);
    assert(digits + ("("@ + "crlf"@ + ")"@) + " "@ + text =~= digits + "(crlf) "@ + text);
    assert(digits + ("("@ + "lf"@ + ")"@) + " "@ + text =~= digits + "(lf) "@ + text);
    assert(digits + ("("@ + "cr"@ + ")"@) + " "@ + text =~= digits + "(cr) "@ + text);
}

proof fn lemma_all_alike(list: Seq<ByteLine>, ending: LineEndingKind, other: LineEndingKind)
    requires
        forall|k: int|
            0 <= k < list.len() ==> (#[trigger] list[k]).ending == Some(ending) || (list[k].ending
                is None),
        forall|k: int| 0 <= k < list.len() - 1 ==> (#[trigger] list[k]).ending == Some(ending),
        other != ending,
    ensures
        count_ending(list, other) == 0,
        list.len() > 0 ==> count_ending(list, ending) >= list.len() - 1,
        list.len() > 0 && list.last().ending == Some(ending) ==> count_ending(list, ending)
            == list.len(),
    decreases list.len(),
{
    if list.len() > 0 {
        let front = list.drop_last();
        assert forall|k: int| 0 <= k < front.len() implies (#[trigger] front[k]).ending == Some(
            ending,
        ) || (front[k].ending is None) by {
            assert(front[k] == list[k]);
        }
        assert forall|k: int| 0 <= k < front.len() - 1 implies (#[trigger] front[k]).ending == Some(
            ending,
        ) by {
            assert(front[k] == list[k]);
        }
        if front.len() > 0 {
            assert(front.last() == list[list.len() - 2]);
        }
        lemma_all_alike(front, ending, other);
        assert(list.last() == list[list.len() - 1]);
    }
}

/// The lines of a file that breaks its lines in one way are shown with their
/// numbers and nothing else, from the line that is asked for on, as many as are asked
/// for or as there are.
pub proof fn law_lines_are_shown_from_the_first_asked_for(
    list: Seq<ByteLine>,
    start_line: usize,
    take: usize,
    ending: LineEndingKind,
)
    requires
        1 <= start_line <= list.len(),
        forall|k: int|
            0 <= k < list.len() ==> (#[trigger] list[k]).ending == Some(ending) && valid_utf8(
                list[k].bytes,
            ),
    ensures
        shown_slice(list, start_line, take).len() == if start_line - 1 + take < list.len() {
            take as int
        } else {
            list.len() - (start_line - 1)
        },
        forall|i: int|
            0 <= i < shown_slice(list, start_line, take).len() ==> #[trigger] shown_slice(
                list,
                start_line,
                take,
            )[i] == decimal_of((start_line + i) as nat) + " "@ + decode_utf8(
                list[start_line - 1 + i].bytes,
            ),
{
    lemma_all_alike(
        list,
        ending,
        if ending == LineEndingKind::Lf {
            LineEndingKind::Crlf
        } else {
            LineEndingKind::Lf
        },
    );
    lemma_all_alike(
        list,
        ending,
        if ending == LineEndingKind::Cr {
            LineEndingKind::Crlf
        } else {
            LineEndingKind::Cr
        },
    );
    let lf = count_ending(list, LineEndingKind::Lf);
    let crlf = count_ending(list, LineEndingKind::Crlf);
    let cr = count_ending(list, LineEndingKind::Cr);
    assert(list.last() == list[list.len() - 1]);
    assert(usual_ending(lf, crlf, cr) == Some(ending));
    let shown = shown_slice(list, start_line, take);
    assert forall|i: int| 0 <= i < shown.len() implies #[trigger] shown[i] == decimal_of(
        (start_line + i) as nat,
    ) + " "@ + decode_utf8(list[start_line - 1 + i].bytes) by {
        let line = list[start_line - 1 + i];
        law_line_is_shown_with_its_number((start_line + i) as nat, line, Some(ending));
        assert(shown[i] == shown_line((start_line + i) as nat, line, Some(ending)));
    }
}

/// The slices of a file that are shown are those that are asked for, in their order,
/// with an empty line between any two.
pub proof fn law_slices_are_shown_in_order(bytes: Seq<u8>, ranges: Seq<LineRange>, range: LineRange)
    ensures
        slices_content(bytes, seq![range]) == join_of(
            shown_slice(byte_lines(bytes), range.start_line, taken(range.line_count)),
            "\n"@,
        ),
        ranges.len() > 0 ==> slices_content(bytes, ranges.push(range)) == slices_content(
            bytes,
            ranges,
        ) + "\n\n"@ + slice_content(bytes, range),
        taken(None) == usize::MAX,
{
    let one = seq![range].map_values(|range: LineRange| slice_content(bytes, range));
    assert(one =~= seq![slice_content(bytes, range)]);
    let all = ranges.map_values(|range: LineRange| slice_content(bytes, range));
    let more = ranges.push(range).map_values(|range: LineRange| slice_content(bytes, range));
    assert(more =~= all.push(slice_content(bytes, range)));
    assert(more.drop_last() =~= all);
}

/// The result of a read holds the lines that were asked for, where they are not too
/// many, and how many lines the file has.
pub proof fn law_read_tells_the_lines(plan: ReadPlanView, file_bytes: usize, bytes: Seq<u8>)
    requires
        past_end(plan.ranges, byte_lines(bytes).len()) is None,
        plan.ranges.len() == 1,
        read_fits(slices_content(bytes, plan.ranges)),
        byte_lines(bytes).len() <= i64::MAX,
    ensures
        read_outcome(plan, file_bytes, bytes) matches Ok(told) && {
            &&& text_field(told.result, "line-numbered content"@) == Some(
                slices_content(bytes, plan.ranges),
            )
            &&& int_field(told.result, "total_lines"@) == Some(byte_lines(bytes).len() as i64)
            &&& field(told.result, "truncated"@) is None
            &&& told.display.args == plan.args
            &&& (field(told.result, "valid_utf8"@) == Some(Cbor::Bool(false))) == (exists|i: int|
                0 <= i < byte_lines(bytes).len() && !valid_utf8((#[trigger] byte_lines(
                    bytes,
                )[i]).bytes))
        },
{
    reveal_strlit("line-numbered content");
    reveal_strlit("total_lines");
    reveal_strlit("valid_utf8");
    reveal_strlit("truncated");
    assert("line-numbered content"@.len() == 21 && "total_lines"@.len() == 11
        && "valid_utf8"@.len() == 10 && "truncated"@.len() == 9);
    let told = read_outcome(plan, file_bytes, bytes)->Ok_0;
    let entries = told.result->Dict_0;
    lemma_first_entry(entries, "line-numbered content"@, 0);
    lemma_first_entry(entries, "total_lines"@, 1);
    lemma_first_entry(entries, "truncated"@, entries.len() as int);
    lemma_first_entry(entries, "valid_utf8"@, 2);
}

/// A read that asks for lines behind the end of a file is refused, and says how many
/// lines there are; an empty file has nothing to be behind.
pub proof fn law_read_past_the_end_is_refused(plan: ReadPlanView, bytes: Seq<u8>, k: int)
    requires
        0 <= k < plan.ranges.len(),
    ensures
        byte_lines(bytes).len() > 0 && plan.ranges[k].start_line > byte_lines(bytes).len()
            ==> slices_read(plan, bytes) is Err,
        (forall|i: int|
            0 <= i < plan.ranges.len() ==> (#[trigger] plan.ranges[i]).start_line <= byte_lines(
                bytes,
            ).len()) ==> past_end(plan.ranges, byte_lines(bytes).len()) is None,
        byte_lines(bytes).len() == 0 ==> past_end(plan.ranges, 0) is None,
{
    lemma_past(plan.ranges, byte_lines(bytes).len());
    assert(plan.ranges[k] == plan.ranges[k]);
}

proof fn lemma_past(ranges: Seq<LineRange>, total: nat)
    ensures
        (past_end(ranges, total) is Some) == (total != 0 && exists|i: int|
            0 <= i < ranges.len() && (#[trigger] ranges[i]).start_line > total),
    decreases ranges.len(),
{
    if ranges.len() > 0 {
        let front = ranges.drop_last();
        lemma_past(front, total);
        if exists|i: int| 0 <= i < ranges.len() && (#[trigger] ranges[i]).start_line > total {
            let i = choose|i: int|
                0 <= i < ranges.len() && (#[trigger] ranges[i]).start_line > total;
            if i < front.len() {
                assert(front[i] == ranges[i]);
            }
        }
        if exists|i: int| 0 <= i < front.len() && (#[trigger] front[i]).start_line > total {
            let i = choose|i: int| 0 <= i < front.len() && (#[trigger] front[i]).start_line > total;
            assert(ranges[i] == front[i]);
        }
        assert(ranges.last() == ranges[ranges.len() - 1]);
    }
}

/// A read that names no lines asks for all of them, one that names the first asks
/// for all from there on, and one that says how many asks for no more.
pub proof fn law_read_asks_for_what_is_named(arguments: Cbor, path: Seq<char>)
    requires
        text_field(arguments, "path"@) == Some(path),
        is_absent(field(arguments, "ranges"@)),
        int_field(arguments, "end_line"@) is None,
        int_field(arguments, "start_line"@) matches Some(n) ==> 1 <= n <= usize::MAX,
        int_field(arguments, "line_count"@) matches Some(n) ==> 1 <= n <= usize::MAX,
    ensures
        read_planned(arguments) matches Ok(plan) && {
            &&& plan.path == path
            &&& plan.ranges.len() == 1
            &&& plan.ranges[0].start_line == match int_field(arguments, "start_line"@) {
                Some(n) => n as int,
                None => 1int,
            }
            &&& match int_field(arguments, "line_count"@) {
                Some(n) => plan.ranges[0].line_count matches Some(count) && count == n,
                None => plan.ranges[0].line_count is None,
            }
        },
{
}

/// A list of ranges is read range by range, in its order.
pub proof fn law_every_range_is_read(arguments: Cbor, items: Seq<Cbor>, k: int)
    requires
        field(arguments, "ranges"@) == Some(Cbor::Array(items)),
        asked_ranges(arguments) is Ok,
        0 <= k < items.len(),
    ensures
        asked_ranges(arguments)->Ok_0.len() == items.len(),
        range_of(
            int_field(items[k], "start_line"@),
            None,
            int_field(items[k], "end_line"@),
        ) == Ok::<LineRange, Seq<char>>(asked_ranges(arguments)->Ok_0[k]),
{
    lemma_ranges(items, k);
}

proof fn lemma_ranges(items: Seq<Cbor>, k: int)
    requires
        crate::shell::read::item_ranges(items) is Ok,
        0 <= k < items.len(),
    ensures
        crate::shell::read::item_ranges(items)->Ok_0.len() == items.len(),
        range_of(
            int_field(items[k], "start_line"@),
            None,
            int_field(items[k], "end_line"@),
        ) == Ok::<LineRange, Seq<char>>(crate::shell::read::item_ranges(items)->Ok_0[k]),
    decreases items.len(),
{
    let front = items.drop_last();
    if front.len() > 0 {
        lemma_ranges(front, 0);
        if k < front.len() {
            lemma_ranges(front, k);
            assert(front[k] == items[k]);
        }
    } else {
        assert(crate::shell::read::item_ranges(front)->Ok_0.len() == 0);
    }
}

} // verus!
