//! The `read` tool: a file, or some of its lines, with line numbers.

use vstd::prelude::*;
use vstd::utf8::{decode_utf8, valid_utf8};

use crate::shell::capture::{sat, LineEndingKind};
use crate::shell::command::as_i64;
use crate::shell::display::{failure, failure_with_args, ok_display, outcome_view, plain_state,
    stats_of, text_stats, FailureView, OutputView, StateView, ToolFailure, ToolOutput,
    ToolUseStatus};
use crate::shell::truncate::{lemma_rendering, marked, rendering, selected, truncate_line_oriented,
    truncated_content, Truncated, MAX_OUTPUT_BYTES, MAX_OUTPUT_LINES, TRUNCATED_OUTPUT_HEAD_LINES,
    TRUNCATED_OUTPUT_TAIL_LINES};
use crate::text::{
    decimal, decimal_of, join, join_of, lines, lines_of, push_text, utf8_len, views,
};
use crate::utf8::{lossy_of, lossy_text, strict_text};
use crate::value::{
    argument_error, argument_error_text, argument_text, cbor_field, cbor_map_array, cbor_map_int,
    entry, entry_if, entry_views, field, group_cbor_views, int_field, is_absent, push_entry,
    text_field, value_views, Cbor, CborValue,
};

verus! {

/// One line of a file, as bytes, with its ending.
pub struct ByteLine {
    pub bytes: Seq<u8>,
    pub ending: Option<LineEndingKind>,
}

/// Where the first line of some bytes ends: at a carriage return or a line
/// feed, or where the bytes end.
pub open spec fn line_end(bytes: Seq<u8>) -> int
    decreases bytes.len(),
{
    if bytes.len() == 0 || bytes[0] == 13 || bytes[0] == 10 {
        0
    } else {
        1 + line_end(bytes.drop_first())
    }
}

/// The lines of a file. A line ends with a line feed, a carriage return, or
/// both; the last one may have no ending.
pub open spec fn byte_lines(bytes: Seq<u8>) -> Seq<ByteLine>
    decreases bytes.len(),
{
    let p = line_end(bytes);
    if bytes.len() == 0 {
        seq![]
    } else if p < 0 || p >= bytes.len() {
        seq![ByteLine { bytes, ending: None }]
    } else if bytes[p] == 10 {
        seq![ByteLine { bytes: bytes.take(p), ending: Some(LineEndingKind::Lf) }] + byte_lines(
            bytes.skip(p + 1),
        )
    } else if p + 1 < bytes.len() && bytes[p + 1] == 10 {
        seq![ByteLine { bytes: bytes.take(p), ending: Some(LineEndingKind::Crlf) }] + byte_lines(
            bytes.skip(p + 2),
        )
    } else {
        seq![ByteLine { bytes: bytes.take(p), ending: Some(LineEndingKind::Cr) }] + byte_lines(
            bytes.skip(p + 1),
        )
    }
}

/// How many lines have an ending.
pub open spec fn count_ending(list: Seq<ByteLine>, ending: LineEndingKind) -> nat
    decreases list.len(),
{
    if list.len() == 0 {
        0
    } else {
        count_ending(list.drop_last(), ending) + if list.last().ending == Some(ending) {
            1nat
        } else {
            0nat
        }
    }
}

/// The ending that most lines have; none where two are equally common.
pub open spec fn usual_ending(lf: nat, crlf: nat, cr: nat) -> Option<LineEndingKind> {
    if lf > crlf && lf > cr {
        Some(LineEndingKind::Lf)
    } else if crlf > lf && crlf > cr {
        Some(LineEndingKind::Crlf)
    } else if cr > lf && cr > crlf {
        Some(LineEndingKind::Cr)
    } else {
        None
    }
}

/// What is said of a line: that it is no text, and its ending where that is
/// not the usual one.
pub open spec fn line_marker(
    valid: bool,
    ending: Option<LineEndingKind>,
    usual: Option<LineEndingKind>,
) -> Seq<char> {
    let word = match ending {
        Some(LineEndingKind::Lf) => "lf"@,
        Some(LineEndingKind::Crlf) => "crlf"@,
        Some(LineEndingKind::Cr) => "cr"@,
        None => "no_nl"@,
    };
    let told = ending is None || ending != usual;
    if valid && !told {
        seq![]
    } else if valid {
        "("@ + word + ")"@
    } else if !told {
        "("@ + "invalid-utf8"@ + ")"@
    } else {
        "("@ + "invalid-utf8"@ + ","@ + word + ")"@
    }
}

/// The text of a line, with replacement characters for what is no UTF-8 in it.
pub open spec fn line_text(bytes: Seq<u8>) -> Seq<char> {
    if valid_utf8(bytes) {
        decode_utf8(bytes)
    } else {
        lossy_of(bytes)
    }
}

/// A line as it is shown: its number, what is said of it, and its text.
pub open spec fn shown_line(
    number: nat,
    line: ByteLine,
    usual: Option<LineEndingKind>,
) -> Seq<char> {
    decimal_of(number) + line_marker(valid_utf8(line.bytes), line.ending, usual) + " "@
        + line_text(line.bytes)
}

/// Which lines a slice holds: `take` of them, from a line on that is counted
/// from one.
pub open spec fn slice_from(start_line: usize, total: nat) -> int {
    let from = if start_line == 0 {
        0
    } else {
        start_line - 1
    };
    if from < total {
        from
    } else {
        total as int
    }
}

/// Where a slice ends.
pub open spec fn slice_to(start_line: usize, take: usize, total: nat) -> int {
    let from = slice_from(start_line, total);
    if from + take < total {
        from + take
    } else {
        total as int
    }
}

/// The lines of a slice, as they are shown.
pub open spec fn shown_slice(list: Seq<ByteLine>, start_line: usize, take: usize) -> Seq<
    Seq<char>,
> {
    let usual = usual_ending(
        count_ending(list, LineEndingKind::Lf),
        count_ending(list, LineEndingKind::Crlf),
        count_ending(list, LineEndingKind::Cr),
    );
    let from = slice_from(start_line, list.len());
    let to = slice_to(start_line, take, list.len());
    Seq::new((to - from) as nat, |i: int| shown_line((from + i + 1) as nat, list[from + i], usual))
}

/// The bytes of lines, without their endings.
pub open spec fn lines_size(list: Seq<ByteLine>) -> nat
    decreases list.len(),
{
    if list.len() == 0 {
        0
    } else {
        lines_size(list.drop_last()) + list.last().bytes.len()
    }
}

/// The bytes of a slice, without line endings.
#[verifier::opaque]
pub open spec fn slice_size(list: Seq<ByteLine>, start_line: usize, take: usize) -> nat {
    lines_size(
        list.subrange(
            slice_from(start_line, list.len()),
            slice_to(start_line, take, list.len()),
        ),
    )
}

/// One more line is in the slice, or it is not.
proof fn lemma_slice_grows(list: Seq<ByteLine>, line: ByteLine, start_line: usize, take: usize)
    ensures
        ({
            let after = list.push(line);
            let kept = slice_to(start_line, take, list.len()) - slice_from(start_line, list.len());
            slice_size(after, start_line, take) == slice_size(list, start_line, take) + if start_line
                <= after.len() && kept < take {
                line.bytes.len()
            } else {
                0
            }
        }),
{
    reveal(slice_size);
    let after = list.push(line);
    let was = list.subrange(
        slice_from(start_line, list.len()),
        slice_to(start_line, take, list.len()),
    );
    let now = after.subrange(
        slice_from(start_line, after.len()),
        slice_to(start_line, take, after.len()),
    );
    if start_line <= after.len() && was.len() < take {
        assert(now =~= was.push(line));
        assert(now.drop_last() =~= was);
    } else {
        assert(now =~= was);
    }
}

/// A slice of a file.
#[derive(Debug)]
pub struct ReadSlice {
    pub content: String,
    pub line_count: usize,
    pub valid_utf8: bool,
    pub total_lines: usize,
}

/// Whether a slice is the one that was asked for.
pub open spec fn is_slice(r: ReadSlice, bytes: Seq<u8>, start_line: usize, take: usize) -> bool {
    let list = byte_lines(bytes);
    &&& r.content@ == join_of(shown_slice(list, start_line, take), "\n"@)
    &&& r.line_count == shown_slice(list, start_line, take).len()
    &&& r.valid_utf8 == (forall|i: int|
        0 <= i < list.len() ==> valid_utf8((#[trigger] list[i]).bytes))
    &&& r.total_lines == list.len()
}

/// A line that belongs to the slice.
#[derive(Debug)]
pub struct ReadLine {
    pub number: usize,
    pub content: String,
    pub valid_utf8: bool,
    pub ending: Option<LineEndingKind>,
}

/// A slice in the making.
#[derive(Debug)]
pub struct SliceState {
    pub lines: Vec<ReadLine>,
    pub start_line: usize,
    pub take: usize,
    pub total_lines: usize,
    pub lf_count: usize,
    pub crlf_count: usize,
    pub cr_count: usize,
    pub valid_utf8: bool,
    /// The bytes of the lines that belong to the slice.
    pub size: usize,
}

/// Whether a kept line is a line of the file.
pub open spec fn keeps(kept: ReadLine, number: int, line: ByteLine) -> bool {
    &&& kept.number == number
    &&& kept.ending == line.ending
    &&& kept.valid_utf8 == valid_utf8(line.bytes)
    &&& kept.content@ == line_text(line.bytes)
}

impl SliceState {
    /// Whether the state is what some lines make of it.
    pub open spec fn holds(self, list: Seq<ByteLine>) -> bool {
        &&& self.total_lines == list.len()
        &&& self.lf_count == count_ending(list, LineEndingKind::Lf)
        &&& self.crlf_count == count_ending(list, LineEndingKind::Crlf)
        &&& self.cr_count == count_ending(list, LineEndingKind::Cr)
        &&& self.lf_count <= self.total_lines
        &&& self.crlf_count <= self.total_lines
        &&& self.cr_count <= self.total_lines
        &&& self.valid_utf8 == (forall|i: int|
            0 <= i < list.len() ==> valid_utf8((#[trigger] list[i]).bytes))
        &&& self.size == sat(slice_size(list, self.start_line, self.take) as int)
        &&& self.lines@.len() == slice_to(self.start_line, self.take, list.len()) - slice_from(
            self.start_line,
            list.len(),
        )
        &&& forall|i: int|
            0 <= i < self.lines@.len() ==> keeps(
                #[trigger] self.lines@[i],
                slice_from(self.start_line, list.len()) + i + 1,
                list[slice_from(self.start_line, list.len()) + i],
            )
    }

    /// A slice of which nothing has been seen yet.
    pub fn new(start_line: usize, take: usize) -> (state: Self)
        ensures
            state.holds(seq![]),
            state.start_line == start_line,
            state.take == take,
    {
        reveal(slice_size);
        SliceState {
            lines: Vec::new(),
            start_line,
            take,
            total_lines: 0,
            lf_count: 0,
            crlf_count: 0,
            cr_count: 0,
            valid_utf8: true,
            size: 0,
        }
    }

    /// Adds the next line of the file.
    fn push_line(
        &mut self,
        line: &[u8],
        ending: Option<LineEndingKind>,
        Ghost(list): Ghost<Seq<ByteLine>>,
    )
        requires
            old(self).holds(list),
            list.len() < usize::MAX,
        ensures
            final(self).holds(list.push(ByteLine { bytes: line@, ending })),
            final(self).start_line == old(self).start_line,
            final(self).take == old(self).take,
    {
        let ghost after = list.push(ByteLine { bytes: line@, ending });
        assert(after.drop_last() =~= list);
        self.total_lines += 1;
        match ending {
            Some(LineEndingKind::Lf) => {
                self.lf_count += 1;
            },
            Some(LineEndingKind::Crlf) => {
                self.crlf_count += 1;
            },
            Some(LineEndingKind::Cr) => {
                self.cr_count += 1;
            },
            None => {},
        }
        let (content, valid) = match strict_text(line) {
            Some(text) => (text, true),
            None => (lossy_text(line), false),
        };
        if !valid {
            self.valid_utf8 = false;
            assert(!valid_utf8(after[list.len() as int].bytes));
        }
        assert(forall|i: int| 0 <= i < list.len() ==> #[trigger] after[i] == list[i]);
        proof {
            if !old(self).valid_utf8 {
                let i = choose|i: int|
                    0 <= i < list.len() && !valid_utf8((#[trigger] list[i]).bytes);
                assert(!valid_utf8(after[i].bytes));
            }
        }
        let ghost before = self.lines@;
        proof {
            lemma_slice_grows(list, after.last(), self.start_line, self.take);
        }
        if self.start_line <= self.total_lines && self.lines.len() < self.take {
            self.lines.push(
                ReadLine { number: self.total_lines, content, valid_utf8: valid, ending },
            );
            self.size = self.size.saturating_add(line.len());
        }
        proof {
            let from = slice_from(self.start_line, after.len());
            assert forall|i: int| 0 <= i < self.lines@.len() implies keeps(
                #[trigger] self.lines@[i],
                from + i + 1,
                after[from + i],
            ) by {
                if i < before.len() {
                    assert(self.lines@[i] == before[i]);
                    assert(after[from + i] == list[from + i]);
                }
            }
        }
    }

    /// The ending that most lines have.
    pub fn default_line_ending(&self) -> (ending: Option<LineEndingKind>)
        ensures
            ending == usual_ending(
                self.lf_count as nat,
                self.crlf_count as nat,
                self.cr_count as nat,
            ),
    {
        if self.lf_count > self.crlf_count && self.lf_count > self.cr_count {
            Some(LineEndingKind::Lf)
        } else if self.crlf_count > self.lf_count && self.crlf_count > self.cr_count {
            Some(LineEndingKind::Crlf)
        } else if self.cr_count > self.lf_count && self.cr_count > self.crlf_count {
            Some(LineEndingKind::Cr)
        } else {
            None
        }
    }

    /// The slice and its size, when all lines have been seen.
    fn finish(self, Ghost(bytes): Ghost<Seq<u8>>) -> (r: (ReadSlice, usize))
        requires
            self.holds(byte_lines(bytes)),
        ensures
            is_slice(r.0, bytes, self.start_line, self.take),
            r.1 == sat(slice_size(byte_lines(bytes), self.start_line, self.take) as int),
    {
        let ghost list = byte_lines(bytes);
        let ghost wanted = shown_slice(list, self.start_line, self.take);
        let usual = self.default_line_ending();
        let mut rendered: Vec<String> = Vec::new();
        let mut i: usize = 0;
        assert(views(rendered@) =~= wanted.take(0));
        while i < self.lines.len()
            invariant
                i <= self.lines@.len() == wanted.len(),
                self.holds(list),
                wanted == shown_slice(list, self.start_line, self.take),
                usual == usual_ending(
                    self.lf_count as nat,
                    self.crlf_count as nat,
                    self.cr_count as nat,
                ),
                views(rendered@) == wanted.take(i as int),
            decreases self.lines.len() - i,
        {
            let line = render_read_line(&self.lines[i], usual);
            proof {
                let from = slice_from(self.start_line, list.len());
                assert(keeps(self.lines@[i as int], from + i + 1, list[from + i]));
                assert(line@ == wanted[i as int]);
            }
            push_text(&mut rendered, line);
            i += 1;
            assert(views(rendered@) =~= wanted.take(i as int));
        }
        assert(wanted.take(i as int) =~= wanted);
        let slice = ReadSlice {
            content: join(&rendered, "\n"),
            line_count: self.lines.len(),
            valid_utf8: self.valid_utf8,
            total_lines: self.total_lines,
        };
        (slice, self.size)
    }
}

/// A line as it is shown.
pub fn render_read_line(line: &ReadLine, usual: Option<LineEndingKind>) -> (text: String)
    ensures
        text@ == decimal_of(line.number as nat) + line_marker(
            line.valid_utf8,
            line.ending,
            usual,
        ) + " "@ + line.content@,
{
    let mut text = decimal(line.number as u64);
    let ghost number = text@;
    let word = match line.ending {
        Some(LineEndingKind::Lf) => "lf",
        Some(LineEndingKind::Crlf) => "crlf",
        Some(LineEndingKind::Cr) => "cr",
        None => "no_nl",
    };
    let told = match (line.ending, usual) {
        (Some(a), Some(b)) => a != b,
        _ => true,
    };
    let mut marker = String::new();
    if !line.valid_utf8 {
        marker.append("(");
        assert(marker@ =~= "("@);
        marker.append("invalid-utf8");
        if told {
            marker.append(",");
            marker.append(word);
        }
        marker.append(")");
    } else if told {
        marker.append("(");
        assert(marker@ =~= "("@);
        marker.append(word);
        marker.append(")");
    } else {
        assert(marker@ =~= seq![]);
    }
    assert(marker@ == line_marker(line.valid_utf8, line.ending, usual));
    text.append(marker.as_str());
    text.append(" ");
    text.append(line.content.as_str());
    text
}

proof fn lemma_line_end(bytes: Seq<u8>, p: int)
    requires
        0 <= p <= bytes.len(),
        forall|j: int| 0 <= j < p ==> bytes[j] != 13 && bytes[j] != 10,
        p < bytes.len() ==> bytes[p] == 13 || bytes[p] == 10,
    ensures
        line_end(bytes) == p,
    decreases bytes.len(),
{
    if bytes.len() > 0 && p > 0 {
        let rest = bytes.drop_first();
        assert forall|j: int| 0 <= j < p - 1 implies rest[j] != 13 && rest[j] != 10 by {
            assert(rest[j] == bytes[j + 1]);
        }
        if p < bytes.len() {
            assert(rest[p - 1] == bytes[p]);
        }
        lemma_line_end(rest, p - 1);
    }
}

proof fn lemma_byte_lines_len(bytes: Seq<u8>)
    ensures
        byte_lines(bytes).len() <= bytes.len(),
    decreases bytes.len(),
{
    let p = line_end(bytes);
    if bytes.len() > 0 && 0 <= p < bytes.len() {
        if bytes[p] == 10 {
            lemma_byte_lines_len(bytes.skip(p + 1));
        } else if p + 1 < bytes.len() && bytes[p + 1] == 10 {
            lemma_byte_lines_len(bytes.skip(p + 2));
        } else {
            lemma_byte_lines_len(bytes.skip(p + 1));
        }
    }
}

/// How many lines to take: all of them where nothing is said.
pub open spec fn taken(line_count: Option<usize>) -> usize {
    match line_count {
        Some(n) => n,
        None => usize::MAX,
    }
}

/// The lines of a file from one on, with their numbers.
pub fn slice_bytes(bytes: &Vec<u8>, start_line: usize, line_count: Option<usize>) -> (r: ReadSlice)
    ensures
        is_slice(r, bytes@, start_line, taken(line_count)),
{
    sized_slice(bytes, start_line, line_count).0
}

/// The lines of a file from one on, with their numbers, and their size in the
/// file.
fn sized_slice(bytes: &Vec<u8>, start_line: usize, line_count: Option<usize>) -> (r: (
    ReadSlice,
    usize,
))
    ensures
        is_slice(r.0, bytes@, start_line, taken(line_count)),
        r.1 == sat(slice_size(byte_lines(bytes@), start_line, taken(line_count)) as int),
{
    let take: usize = match line_count {
        Some(n) => n,
        None => usize::MAX,
    };
    let n: usize = bytes.len();
    let mut state = SliceState::new(start_line, take);
    let ghost total = byte_lines(bytes@);
    let ghost mut seen: Seq<ByteLine> = seq![];
    let mut line_start: usize = 0;
    let mut index: usize = 0;
    proof {
        lemma_byte_lines_len(bytes@);
        assert(bytes@.skip(0) =~= bytes@);
        assert(seen + total =~= total);
    }
    while index < n
        invariant
            line_start <= index <= n == bytes@.len(),
            total == byte_lines(bytes@),
            total.len() <= n,
            seen + byte_lines(bytes@.skip(line_start as int)) == total,
            state.holds(seen),
            state.start_line == start_line,
            state.take == take,
            forall|j: int| line_start <= j < index ==> bytes@[j] != 13 && bytes@[j] != 10,
        decreases n - index,
    {
        let ghost rest = bytes@.skip(line_start as int);
        let b: u8 = bytes[index];
        if b == 13 || b == 10 {
            let crlf = b == 13 && index + 1 < n && bytes[index + 1] == 10;
            let ending = if b == 10 {
                LineEndingKind::Lf
            } else if crlf {
                LineEndingKind::Crlf
            } else {
                LineEndingKind::Cr
            };
            let step: usize = if crlf {
                2
            } else {
                1
            };
            let ghost line = ByteLine {
                bytes: rest.take(index - line_start),
                ending: Some(ending),
            };
            proof {
                let p = index - line_start;
                assert forall|j: int| 0 <= j < p implies rest[j] != 13 && rest[j] != 10 by {
                    assert(rest[j] == bytes@[j + line_start]);
                }
                assert(rest[p] == bytes@[index as int]);
                if index + 1 < n {
                    assert(rest[p + 1] == bytes@[index + 1]);
                }
                lemma_line_end(rest, p);
                assert(rest.skip(p + step) =~= bytes@.skip(index + step));
                let more = byte_lines(bytes@.skip(index + step));
                assert(byte_lines(rest) == seq![line] + more);
                assert(seen + (seq![line] + more) =~= seen.push(line) + more);
            }
            let slice = vstd::slice::slice_subrange(bytes.as_slice(), line_start, index);
            assert(slice@ =~= line.bytes);
            state.push_line(slice, Some(ending), Ghost(seen));
            proof {
                seen = seen.push(line);
            }
            index = index + step;
            line_start = index;
        } else {
            index += 1;
        }
    }
    if line_start < n {
        let ghost rest = bytes@.skip(line_start as int);
        proof {
            assert forall|j: int| 0 <= j < rest.len() implies rest[j] != 13 && rest[j] != 10 by {
                assert(rest[j] == bytes@[j + line_start]);
            }
            lemma_line_end(rest, rest.len() as int);
            assert(seen + seq![ByteLine { bytes: rest, ending: None }] =~= seen.push(
                ByteLine { bytes: rest, ending: None },
            ));
        }
        let slice = vstd::slice::slice_subrange(bytes.as_slice(), line_start, n);
        assert(slice@ =~= rest);
        state.push_line(slice, None, Ghost(seen));
        proof {
            seen = seen.push(ByteLine { bytes: rest, ending: None });
        }
    } else {
        assert(bytes@.skip(line_start as int) =~= seq![]);
        assert(seen + seq![] =~= seen);
    }
    state.finish(Ghost(bytes@))
}

/// Whether content is within the limits.
pub open spec fn read_fits(content: Seq<char>) -> bool {
    lines_of(content).len() <= MAX_OUTPUT_LINES && utf8_len(content) <= MAX_OUTPUT_BYTES
}

/// What is shown of lines with numbers: all of them where they are within the
/// limits, else what truncation leaves of them.
pub open spec fn shown_read(content: Seq<char>) -> Seq<char> {
    if read_fits(content) {
        content
    } else {
        truncated_content(lines_of(content), lines_of(content).len())
    }
}

/// Cuts lines with numbers to the limits: of too many, the first and the last
/// thousand are kept with a literal `...` between them, and a line that would pass
/// the byte limit is reduced to its number and a marker.
pub fn truncate_read_content(content: &str) -> (r: Truncated)
    ensures
        r.content@ == shown_read(content@),
        r.was_truncated == !read_fits(content@),
        r.total_lines == lines_of(content@).len(),
        r.total_bytes == utf8_len(content@),
{
    let cut = truncate_line_oriented(content);
    if cut.total_lines <= MAX_OUTPUT_LINES && cut.total_bytes <= MAX_OUTPUT_BYTES {
        return Truncated {
            content: content.to_owned(),
            was_truncated: false,
            total_lines: cut.total_lines,
            total_bytes: cut.total_bytes,
        };
    }
    cut
}

/// A line, or its marker.
pub open spec fn is_line_or_mark(shown: Seq<char>, line: Seq<char>) -> bool {
    shown == line || shown == marked(line, "truncated"@)
}

/// Each line that is rendered is the one selected or its marker, and a gap is
/// three dots.
proof fn lemma_rendered_line(wanted: Seq<Option<Seq<char>>>, i: int)
    requires
        0 <= i < wanted.len(),
    ensures
        rendering(wanted).lines.len() == wanted.len(),
        match wanted[i] {
            None => rendering(wanted).lines[i] == "..."@,
            Some(line) => is_line_or_mark(rendering(wanted).lines[i], line),
        },
    decreases wanted.len(),
{
    let before = wanted.drop_last();
    lemma_rendering(before);
    lemma_rendering(wanted);
    if i < before.len() {
        lemma_rendered_line(before, i);
        assert(rendering(wanted).lines[i] == rendering(before).lines[i]);
    }
}

/// Of a file with more than two thousand lines to show, the first and the last
/// thousand are shown, each as it is or by its marker, with one line of three dots
/// between them.
pub proof fn law_long_read_shows_both_ends(content: Seq<char>, i: int)
    requires
        lines_of(content).len() > MAX_OUTPUT_LINES,
        0 <= i < TRUNCATED_OUTPUT_HEAD_LINES,
    ensures
        ({
            let list = lines_of(content);
            let shown = rendering(selected(list, list.len())).lines;
            &&& shown_read(content) == join_of(shown, "\n"@)
            &&& shown.len() == MAX_OUTPUT_LINES + 1
            &&& is_line_or_mark(shown[i], list[i])
            &&& shown[TRUNCATED_OUTPUT_HEAD_LINES as int] == "..."@
            &&& is_line_or_mark(
                shown[TRUNCATED_OUTPUT_HEAD_LINES + 1 + i],
                list[list.len() - TRUNCATED_OUTPUT_TAIL_LINES + i],
            )
        }),
{
    let list = lines_of(content);
    let wanted = selected(list, list.len());
    let some = |line: Seq<char>| Some(line);
    let tail = list.len() - TRUNCATED_OUTPUT_TAIL_LINES;
    assert(wanted.len() == MAX_OUTPUT_LINES + 1);
    assert(wanted[i] == Some(list[i]));
    assert(wanted[TRUNCATED_OUTPUT_HEAD_LINES as int] is None);
    assert(wanted[TRUNCATED_OUTPUT_HEAD_LINES + 1 + i] == Some(list[tail + i]));
    lemma_rendered_line(wanted, i);
    lemma_rendered_line(wanted, TRUNCATED_OUTPUT_HEAD_LINES as int);
    lemma_rendered_line(wanted, TRUNCATED_OUTPUT_HEAD_LINES + 1 + i);
}

/// The first line to read: the first of the file where the call says nothing.
pub open spec fn start_of(value: Option<i64>) -> Result<usize, Seq<char>> {
    match value {
        None => Ok(1),
        Some(value) => if value < 1 {
            Err("start_line must be >= 1"@)
        } else {
            Ok(value as usize)
        },
    }
}

/// How many lines to read: all of them where the call says nothing.
pub open spec fn count_of(value: Option<i64>) -> Result<Option<usize>, Seq<char>> {
    match value {
        None => Ok(None),
        Some(value) => if value < 1 {
            Err("line_count must be >= 1"@)
        } else {
            Ok(Some(value as usize))
        },
    }
}

/// The first line to read.
pub fn parse_read_start_line(value: Option<i64>) -> (line: Result<usize, ToolFailure>)
    ensures
        match line {
            Ok(line) => start_of(value) == Ok::<usize, Seq<char>>(line),
            Err(f) => start_of(value) is Err && f@ == failure(start_of(value)->Err_0),
        },
{
    match value {
        None => Ok(1),
        Some(value) => {
            if value < 1 {
                Err(ToolFailure::new("start_line must be >= 1".to_owned()))
            } else {
                Ok(value as usize)
            }
        },
    }
}

/// How many lines to read.
pub fn parse_read_line_count(value: Option<i64>) -> (count: Result<Option<usize>, ToolFailure>)
    ensures
        match count {
            Ok(count) => count_of(value) == Ok::<Option<usize>, Seq<char>>(count),
            Err(f) => count_of(value) is Err && f@ == failure(count_of(value)->Err_0),
        },
{
    match value {
        None => Ok(None),
        Some(value) => {
            if value < 1 {
                Err(ToolFailure::new("line_count must be >= 1".to_owned()))
            } else {
                Ok(Some(value as usize))
            }
        },
    }
}

/// A sum of line numbers, in machine arithmetic.
pub open spec fn line_after(start: usize, count: usize) -> nat {
    if start + count <= usize::MAX {
        (start + count) as nat
    } else {
        usize::MAX as nat
    }
}

/// The lines that a call asks for, as they are written in its label.
pub open spec fn range_text(start_line: Option<usize>, line_count: Option<usize>) -> Seq<char> {
    match (start_line, line_count) {
        (None, None) => ".."@,
        (Some(start), None) => decimal_of(start as nat) + ".."@,
        (None, Some(count)) => "1.."@ + decimal_of(line_after(1, count)),
        (Some(start), Some(count)) => decimal_of(start as nat) + ".."@ + decimal_of(
            line_after(start, count),
        ),
    }
}

/// The lines that a call asks for, as they are written in its label.
pub fn format_read_range(start_line: Option<usize>, line_count: Option<usize>) -> (text: String)
    ensures
        text@ == range_text(start_line, line_count),
{
    match (start_line, line_count) {
        (None, None) => "..".to_owned(),
        (Some(start), None) => {
            let mut text = decimal(start as u64);
            text.append("..");
            text
        },
        (None, Some(count)) => {
            let one: usize = 1;
            let mut text = "1..".to_owned();
            text.append(decimal(one.saturating_add(count) as u64).as_str());
            text
        },
        (Some(start), Some(count)) => {
            let mut text = decimal(start as u64);
            text.append("..");
            text.append(decimal(start.saturating_add(count) as u64).as_str());
            text
        },
    }
}

/// The largest file that is read, in bytes.
pub const MAX_READ_BYTES: usize = 10485760;

/// The most ranges of lines in one call.
pub const MAX_READ_RANGES: usize = 100;

/// Lines to read: from one on that is counted from one, and how many.
#[derive(Clone, Copy, Debug, PartialEq, Eq)]
pub struct LineRange {
    pub start_line: usize,
    pub line_count: Option<usize>,
}

/// The lines that a call names by the first, how many there are and the last,
/// or why it cannot. Where both are given, the lines end where either says.
pub open spec fn range_of(start: Option<i64>, count: Option<i64>, end: Option<i64>) -> Result<
    LineRange,
    Seq<char>,
> {
    match start_of(start) {
        Err(message) => Err(message),
        Ok(start_line) => match count_of(count) {
            Err(message) => Err(message),
            Ok(line_count) => match end {
                None => Ok(LineRange { start_line, line_count }),
                Some(end) => if end < 1 {
                    Err("end_line must be >= 1"@)
                } else if end < start_line {
                    Err("end_line must be >= start_line"@)
                } else {
                    let to_end = ((end - start_line + 1) as u64) as usize;
                    Ok(
                        LineRange {
                            start_line,
                            line_count: match line_count {
                                Some(n) if n < to_end => Some(n),
                                _ => Some(to_end),
                            },
                        },
                    )
                },
            },
        },
    }
}

/// A range holds its first and its last line and all between them, as far as the
/// file has them.
pub proof fn law_range_holds_both_ends(list: Seq<ByteLine>, start: i64, end: i64)
    requires
        1 <= start <= end <= usize::MAX,
    ensures
        range_of(Some(start), None, Some(end)) matches Ok(range) && {
            let shown = shown_slice(list, range.start_line, taken(range.line_count));
            let last = if end < list.len() {
                end as int
            } else {
                list.len() as int
            };
            &&& range.start_line == start
            &&& shown.len() == if start <= last {
                last - start + 1
            } else {
                0
            }
        },
{
}

/// The lines that an item of a list of ranges names, or why it names none.
pub open spec fn item_range(item: Cbor) -> Result<LineRange, Seq<char>> {
    let start = int_field(item, "start_line"@);
    let end = int_field(item, "end_line"@);
    if start is None {
        Err("each range must have an integer start_line"@)
    } else if end is None {
        Err("each range must have an integer end_line"@)
    } else {
        range_of(start, None, end)
    }
}

/// The lines that a list of ranges names, or what is wrong with the first range
/// that names none.
pub open spec fn item_ranges(items: Seq<Cbor>) -> Result<Seq<LineRange>, Seq<char>>
    decreases items.len(),
{
    if items.len() == 0 {
        Ok(seq![])
    } else {
        match item_ranges(items.drop_last()) {
            Err(message) => Err(message),
            Ok(ranges) => match item_range(items.last()) {
                Err(message) => Err(message),
                Ok(range) => Ok(ranges.push(range)),
            },
        }
    }
}

/// The lines that a call asks for, or why it is refused: one slice, or a list of
/// ranges.
pub open spec fn asked_ranges(arguments: Cbor) -> Result<Seq<LineRange>, Seq<char>> {
    let start = int_field(arguments, "start_line"@);
    let count = int_field(arguments, "line_count"@);
    let end = int_field(arguments, "end_line"@);
    let ranges = field(arguments, "ranges"@);
    if is_absent(ranges) {
        match range_of(start, count, end) {
            Err(message) => Err(message),
            Ok(range) => Ok(seq![range]),
        }
    } else {
        match ranges {
            Some(Cbor::Array(items)) => if start is Some || count is Some || end is Some {
                Err("ranges cannot be combined with start_line or end_line"@)
            } else if items.len() == 0 {
                Err("ranges array must not be empty"@)
            } else if items.len() > MAX_READ_RANGES {
                Err("ranges array must not have more than 100 items"@)
            } else {
                item_ranges(items)
            },
            _ => Err(argument_error("ranges"@, "an array"@)),
        }
    }
}

/// The labels of ranges; the first line is left out where the call does not
/// name it.
pub open spec fn range_labels(ranges: Seq<LineRange>, named: bool) -> Seq<Seq<char>> {
    ranges.map_values(
        |range: LineRange|
            range_text(
                if named {
                    Some(range.start_line)
                } else {
                    None
                },
                range.line_count,
            ),
    )
}

/// What a read call asks for.
#[derive(Debug)]
pub struct ReadPlan {
    pub path: String,
    pub ranges: Vec<LineRange>,
    /// The call's label.
    pub args: String,
}

/// What a read call asks for, as mathematics.
pub struct ReadPlanView {
    pub path: Seq<char>,
    pub ranges: Seq<LineRange>,
    pub args: Seq<char>,
}

impl View for ReadPlan {
    type V = ReadPlanView;

    open spec fn view(&self) -> ReadPlanView {
        ReadPlanView { path: self.path@, ranges: self.ranges@, args: self.args@ }
    }
}

/// What a read call asks for, or why it is refused.
pub open spec fn read_planned(arguments: Cbor) -> Result<ReadPlanView, FailureView> {
    let named = int_field(arguments, "start_line"@) is Some || !is_absent(
        field(arguments, "ranges"@),
    );
    match text_field(arguments, "path"@) {
        None => Err(failure(argument_error("path"@, "a string"@))),
        Some(path) => match asked_ranges(arguments) {
            Err(message) => Err(failure(message)),
            Ok(ranges) => Ok(
                ReadPlanView {
                    path,
                    ranges,
                    args: path + " "@ + join_of(range_labels(ranges, named), ","@),
                },
            ),
        },
    }
}

/// The lines that a call names by the first, how many there are and the last.
fn parse_read_range(start: Option<i64>, count: Option<i64>, end: Option<i64>) -> (range: Result<
    LineRange,
    ToolFailure,
>)
    ensures
        match range {
            Ok(range) => range_of(start, count, end) == Ok::<LineRange, Seq<char>>(range),
            Err(f) => range_of(start, count, end) is Err && f@ == failure(
                range_of(start, count, end)->Err_0,
            ),
        },
{
    let start_line = match parse_read_start_line(start) {
        Ok(line) => line,
        Err(f) => {
            return Err(f);
        },
    };
    let line_count = match parse_read_line_count(count) {
        Ok(count) => count,
        Err(f) => {
            return Err(f);
        },
    };
    let end: i64 = match end {
        None => {
            return Ok(LineRange { start_line, line_count });
        },
        Some(end) => end,
    };
    if end < 1 {
        return Err(ToolFailure::new("end_line must be >= 1".to_owned()));
    }
    let last: u64 = end as u64;
    let first: u64 = start_line as u64;
    if last < first {
        return Err(ToolFailure::new("end_line must be >= start_line".to_owned()));
    }
    let to_end: usize = (last - first + 1) as usize;
    let line_count = match line_count {
        Some(n) if n < to_end => Some(n),
        _ => Some(to_end),
    };
    Ok(LineRange { start_line, line_count })
}

/// The lines that a list of ranges names.
fn parse_read_ranges(items: &Vec<CborValue>) -> (ranges: Result<Vec<LineRange>, ToolFailure>)
    ensures
        match ranges {
            Ok(ranges) => item_ranges(value_views(items@)) == Ok::<Seq<LineRange>, Seq<char>>(
                ranges@,
            ),
            Err(f) => item_ranges(value_views(items@)) is Err && f@ == failure(
                item_ranges(value_views(items@))->Err_0,
            ),
        },
{
    let ghost all = value_views(items@);
    let mut ranges: Vec<LineRange> = Vec::new();
    let mut i: usize = 0;
    assert(ranges@ =~= seq![]);
    while i < items.len()
        invariant
            i <= items@.len(),
            all == value_views(items@),
            item_ranges(all.take(i as int)) == Ok::<Seq<LineRange>, Seq<char>>(ranges@),
        decreases items.len() - i,
    {
        let ghost here = all.take(i + 1);
        assert(here.drop_last() =~= all.take(i as int));
        assert(here.last() == items@[i as int]@);
        let start = cbor_map_int(&items[i], "start_line");
        let end = cbor_map_int(&items[i], "end_line");
        let range = if start.is_none() {
            Err(ToolFailure::new("each range must have an integer start_line".to_owned()))
        } else if end.is_none() {
            Err(ToolFailure::new("each range must have an integer end_line".to_owned()))
        } else {
            parse_read_range(start, None, end)
        };
        match range {
            Ok(range) => {
                ranges.push(range);
            },
            Err(f) => {
                proof {
                    lemma_first_bad_range(all, i + 1);
                }
                return Err(f);
            },
        }
        i += 1;
    }
    assert(all.take(i as int) =~= all);
    Ok(ranges)
}

/// What is wrong with the first ranges is wrong with all of them.
proof fn lemma_first_bad_range(items: Seq<Cbor>, n: int)
    requires
        0 <= n <= items.len(),
        item_ranges(items.take(n)) is Err,
    ensures
        item_ranges(items) == item_ranges(items.take(n)),
    decreases items.len(),
{
    if n < items.len() {
        assert(items.drop_last().take(n) =~= items.take(n));
        lemma_first_bad_range(items.drop_last(), n);
    } else {
        assert(items.take(n) =~= items);
    }
}

/// A list of ranges names as many slices as it has items.
proof fn lemma_range_per_item(items: Seq<Cbor>)
    ensures
        item_ranges(items) matches Ok(ranges) ==> ranges.len() == items.len(),
    decreases items.len(),
{
    if items.len() > 0 {
        lemma_range_per_item(items.drop_last());
    }
}

/// The labels of ranges, with a comma between them.
fn format_read_ranges(ranges: &Vec<LineRange>, named: bool) -> (text: String)
    ensures
        text@ == join_of(range_labels(ranges@, named), ","@),
{
    let ghost all = range_labels(ranges@, named);
    let mut labels: Vec<String> = Vec::new();
    let mut i: usize = 0;
    assert(views(labels@) =~= all.take(0));
    while i < ranges.len()
        invariant
            i <= ranges@.len(),
            all == range_labels(ranges@, named),
            views(labels@) == all.take(i as int),
        decreases ranges.len() - i,
    {
        let range = ranges[i];
        let start_line = if named {
            Some(range.start_line)
        } else {
            None
        };
        let label = format_read_range(start_line, range.line_count);
        assert(label@ == all[i as int]);
        push_text(&mut labels, label);
        i += 1;
        assert(views(labels@) =~= all.take(i as int));
    }
    assert(all.take(i as int) =~= all);
    join(&labels, ",")
}

/// Whether an argument is left out.
fn absent_argument(arguments: &CborValue, key: &str) -> (absent: bool)
    ensures
        absent == is_absent(field(arguments@, key@)),
{
    broadcast use group_cbor_views;

    match cbor_field(arguments, key) {
        None => true,
        Some(CborValue::Null) => true,
        Some(_) => false,
    }
}

/// The lines that a call asks for, or why it is refused.
fn parse_asked_ranges(arguments: &CborValue) -> (ranges: Result<Vec<LineRange>, ToolFailure>)
    ensures
        match ranges {
            Ok(ranges) => asked_ranges(arguments@) == Ok::<Seq<LineRange>, Seq<char>>(ranges@),
            Err(f) => asked_ranges(arguments@) is Err && f@ == failure(
                asked_ranges(arguments@)->Err_0,
            ),
        },
{
    broadcast use group_cbor_views;

    let start = cbor_map_int(arguments, "start_line");
    let count = cbor_map_int(arguments, "line_count");
    let end = cbor_map_int(arguments, "end_line");
    if absent_argument(arguments, "ranges") {
        match parse_read_range(start, count, end) {
            Ok(range) => {
                let mut ranges: Vec<LineRange> = Vec::new();
                ranges.push(range);
                assert(ranges@ =~= seq![range]);
                return Ok(ranges);
            },
            Err(f) => {
                return Err(f);
            },
        }
    }
    let items = match cbor_map_array(arguments, "ranges") {
        Some(items) => items,
        None => {
            return Err(ToolFailure::new(argument_error_text("ranges", "an array")));
        },
    };
    if start.is_some() || count.is_some() || end.is_some() {
        return Err(
            ToolFailure::new("ranges cannot be combined with start_line or end_line".to_owned()),
        );
    }
    if items.is_empty() {
        return Err(ToolFailure::new("ranges array must not be empty".to_owned()));
    }
    if items.len() > MAX_READ_RANGES {
        return Err(
            ToolFailure::new("ranges array must not have more than 100 items".to_owned()),
        );
    }
    parse_read_ranges(items)
}

/// What a read call asks for, or why it is refused.
pub fn plan_read(arguments: &CborValue) -> (plan: Result<ReadPlan, ToolFailure>)
    ensures
        match plan {
            Ok(plan) => read_planned(arguments@) == Ok::<ReadPlanView, FailureView>(plan@),
            Err(f) => read_planned(arguments@) == Err::<ReadPlanView, FailureView>(f@),
        },
{
    let path = match argument_text(arguments, "path") {
        Ok(path) => path,
        Err(message) => {
            return Err(ToolFailure::new(message));
        },
    };
    let ranges = match parse_asked_ranges(arguments) {
        Ok(ranges) => ranges,
        Err(f) => {
            return Err(f);
        },
    };
    let named = cbor_map_int(arguments, "start_line").is_some() || !absent_argument(
        arguments,
        "ranges",
    );
    let mut args = path.clone();
    args.append(" ");
    args.append(format_read_ranges(&ranges, named).as_str());
    Ok(ReadPlan { path, ranges, args })
}

/// A call that is planned asks for something.
proof fn lemma_plan_asks(arguments: Cbor)
    ensures
        read_planned(arguments) matches Ok(plan) ==> plan.ranges.len() > 0,
{
    if let Some(Cbor::Array(items)) = field(arguments, "ranges"@) {
        lemma_range_per_item(items);
    }
}

/// The content of a slice of a file.
pub open spec fn slice_content(bytes: Seq<u8>, range: LineRange) -> Seq<char> {
    join_of(
        shown_slice(byte_lines(bytes), range.start_line, taken(range.line_count)),
        "\n"@,
    )
}

/// The slices of a file, with one empty line between them.
pub open spec fn slices_content(bytes: Seq<u8>, ranges: Seq<LineRange>) -> Seq<char> {
    join_of(ranges.map_values(|range: LineRange| slice_content(bytes, range)), "\n\n"@)
}

/// The bytes that slices of a file take together, each line counted as often as
/// it is asked for.
pub open spec fn slices_size(list: Seq<ByteLine>, ranges: Seq<LineRange>) -> nat
    decreases ranges.len(),
{
    if ranges.len() == 0 {
        0
    } else {
        slices_size(list, ranges.drop_last()) + slice_size(
            list,
            ranges.last().start_line,
            taken(ranges.last().line_count),
        )
    }
}

/// The start of the first range that starts behind the end of a file. Every
/// range may start in an empty one.
pub open spec fn past_end(ranges: Seq<LineRange>, total: nat) -> Option<usize>
    decreases ranges.len(),
{
    if ranges.len() == 0 {
        None
    } else {
        match past_end(ranges.drop_last(), total) {
            Some(start) => Some(start),
            None => if total != 0 && ranges.last().start_line > total {
                Some(ranges.last().start_line)
            } else {
                None
            },
        }
    }
}

proof fn lemma_past_end(ranges: Seq<LineRange>, total: nat, n: int)
    requires
        0 <= n <= ranges.len(),
        past_end(ranges.take(n), total) is Some,
    ensures
        past_end(ranges, total) == past_end(ranges.take(n), total),
    decreases ranges.len(),
{
    if n < ranges.len() {
        assert(ranges.drop_last().take(n) =~= ranges.take(n));
        lemma_past_end(ranges.drop_last(), total, n);
    } else {
        assert(ranges.take(n) =~= ranges);
    }
}

/// What is read of a file: its slices, or why there are none to show. Ranges
/// that overlap can ask for more than the largest file holds.
pub open spec fn slices_read(plan: ReadPlanView, bytes: Seq<u8>) -> Result<Seq<char>, FailureView> {
    let list = byte_lines(bytes);
    match past_end(plan.ranges, list.len()) {
        Some(start) => Err(
            failure_with_args(
                "start_line "@ + decimal_of(start as nat) + " is past end of file (total_lines: "@
                    + decimal_of(list.len()) + ")"@,
                plan.args,
            ),
        ),
        None => if plan.ranges.len() > 1 && slices_size(list, plan.ranges) > MAX_READ_BYTES {
            Err(
                failure_with_args(
                    "ranges overlap too much: together they hold more than 10485760 bytes"@,
                    plan.args,
                ),
            )
        } else {
            Ok(slices_content(bytes, plan.ranges))
        },
    }
}

/// The outcome of reading a file.
pub open spec fn read_outcome(plan: ReadPlanView, file_bytes: usize, bytes: Seq<u8>) -> Result<
    OutputView,
    FailureView,
> {
    let list = byte_lines(bytes);
    match slices_read(plan, bytes) {
        Err(f) => Err(f),
        Ok(content) => {
            let shown = shown_read(content);
            Ok(
                OutputView {
                    result: Cbor::Dict(
                        seq![
                            entry("line-numbered content", Cbor::Text(shown)),
                            entry("total_lines", Cbor::Integer(as_i64(list.len() as int))),
                        ] + entry_if(
                            exists|i: int|
                                0 <= i < list.len() && !valid_utf8((#[trigger] list[i]).bytes),
                            "valid_utf8",
                            Cbor::Bool(false),
                        ) + entry_if(!read_fits(content), "truncated", Cbor::Bool(true))
                            + entry_if(
                            !read_fits(content),
                            "total_bytes",
                            Cbor::Integer(as_i64(file_bytes as int)),
                        ),
                    ),
                    display: StateView {
                        stats: stats_of(shown),
                        ..plain_state(plan.args, ToolUseStatus::Success, "ok"@)
                    },
                },
            )
        },
    }
}

/// What is said of a file that is too large to read.
pub open spec fn too_large(file_bytes: usize) -> Seq<char> {
    "file is too large to read: "@ + decimal_of(file_bytes as nat) + " bytes (limit: "@
        + decimal_of(MAX_READ_BYTES as nat) + ")"@
}

/// The slices of a file that a call asks for.
fn read_slices(plan: &ReadPlan, bytes: &Vec<u8>) -> (r: Result<ReadSlice, ToolFailure>)
    requires
        plan@.ranges.len() > 0,
    ensures
        match r {
            Err(f) => slices_read(plan@, bytes@) == Err::<Seq<char>, FailureView>(f@),
            Ok(slice) => {
                let list = byte_lines(bytes@);
                &&& slices_read(plan@, bytes@) == Ok::<Seq<char>, FailureView>(slice.content@)
                &&& slice.valid_utf8 == (forall|i: int|
                    0 <= i < list.len() ==> valid_utf8((#[trigger] list[i]).bytes))
                &&& slice.total_lines == list.len()
            },
        },
{
    let ghost list = byte_lines(bytes@);
    let ghost all = plan.ranges@.map_values(|range: LineRange| slice_content(bytes@, range));
    let mut chunks: Vec<String> = Vec::new();
    let mut size: usize = 0;
    let mut line_count: usize = 0;
    let mut total_lines: usize = 0;
    let mut all_valid: bool = true;
    let mut i: usize = 0;
    assert(views(chunks@) =~= all.take(0));
    while i < plan.ranges.len()
        invariant
            i <= plan.ranges@.len(),
            list == byte_lines(bytes@),
            all == plan.ranges@.map_values(|range: LineRange| slice_content(bytes@, range)),
            past_end(plan.ranges@.take(i as int), list.len()) is None,
            size == sat(slices_size(list, plan.ranges@.take(i as int)) as int),
            plan.ranges@.len() == 1 || size <= MAX_READ_BYTES ==> views(chunks@) == all.take(
                i as int,
            ),
            i > 0 ==> total_lines == list.len() && all_valid == (forall|i: int|
                0 <= i < list.len() ==> valid_utf8((#[trigger] list[i]).bytes)),
        decreases plan.ranges.len() - i,
    {
        let range = plan.ranges[i];
        let ghost here = plan.ranges@.take(i + 1);
        assert(here.drop_last() =~= plan.ranges@.take(i as int));
        assert(here.last() == range);
        let (slice, taken_bytes) = sized_slice(bytes, range.start_line, range.line_count);
        total_lines = slice.total_lines;
        all_valid = slice.valid_utf8;
        if total_lines != 0 && range.start_line > total_lines {
            proof {
                lemma_past_end(plan.ranges@, list.len(), i + 1);
            }
            let mut message = "start_line ".to_owned();
            message.append(decimal(range.start_line as u64).as_str());
            message.append(" is past end of file (total_lines: ");
            message.append(decimal(total_lines as u64).as_str());
            message.append(")");
            return Err(ToolFailure::new(message).with_args(plan.args.clone()));
        }
        size = size.saturating_add(taken_bytes);
        line_count = line_count.saturating_add(slice.line_count);
        if plan.ranges.len() == 1 || size <= MAX_READ_BYTES {
            assert(slice.content@ == all[i as int]);
            push_text(&mut chunks, slice.content);
            assert(views(chunks@) =~= all.take(i + 1));
        }
        i += 1;
    }
    assert(plan.ranges@.take(i as int) =~= plan.ranges@);
    assert(all.take(i as int) =~= all);
    if plan.ranges.len() > 1 && size > MAX_READ_BYTES {
        return Err(
            ToolFailure::new(
                "ranges overlap too much: together they hold more than 10485760 bytes".to_owned(),
            ).with_args(plan.args.clone()),
        );
    }
    Ok(ReadSlice { content: join(&chunks, "\n\n"), line_count, valid_utf8: all_valid, total_lines })
}

/// The outcome of a read call, from the size that the file is said to have and
/// its content, or why either could not be had.
pub fn read_file(
    arguments: &CborValue,
    size: &Result<usize, String>,
    content: &Result<Vec<u8>, String>,
) -> (outcome: Result<ToolOutput, ToolFailure>)
    ensures
        outcome_view(outcome) == match read_planned(arguments@) {
            Err(f) => Err(f),
            Ok(plan) => match size {
                Err(message) => Err(failure_with_args(message@, plan.args)),
                Ok(size) => if *size > MAX_READ_BYTES {
                    Err(failure_with_args(too_large(*size), plan.args))
                } else {
                    match content {
                        Err(message) => Err(failure_with_args(message@, plan.args)),
                        Ok(bytes) => read_outcome(plan, *size, bytes@),
                    }
                },
            },
        },
{
    broadcast use group_cbor_views;

    proof {
        lemma_plan_asks(arguments@);
    }
    let plan = match plan_read(arguments) {
        Ok(plan) => plan,
        Err(f) => {
            return Err(f);
        },
    };
    let file_bytes: usize = match size {
        Ok(size) => *size,
        Err(message) => {
            return Err(ToolFailure::new(message.clone()).with_args(plan.args));
        },
    };
    if file_bytes > MAX_READ_BYTES {
        let mut message = "file is too large to read: ".to_owned();
        message.append(decimal(file_bytes as u64).as_str());
        message.append(" bytes (limit: ");
        message.append(decimal(MAX_READ_BYTES as u64).as_str());
        message.append(")");
        return Err(ToolFailure::new(message).with_args(plan.args));
    }
    let bytes = match content {
        Ok(bytes) => bytes,
        Err(message) => {
            return Err(ToolFailure::new(message.clone()).with_args(plan.args));
        },
    };
    let sliced = match read_slices(&plan, bytes) {
        Ok(sliced) => sliced,
        Err(f) => {
            return Err(f);
        },
    };
    let total_lines = sliced.total_lines;
    let truncated = truncate_read_content(sliced.content.as_str());
    let mut display = ok_display(plan.args.as_str());
    display.stats = text_stats(truncated.content.as_str());
    let ghost shown = truncated.content@;
    let mut entries: Vec<(CborValue, CborValue)> = Vec::new();
    push_entry(&mut entries, "line-numbered content", CborValue::Text(truncated.content));
    push_entry(&mut entries, "total_lines", CborValue::Integer(signed_count(total_lines as u64)));
    let ghost base = entry_views(entries@);
    assert(base =~= seq![
        entry("line-numbered content", Cbor::Text(shown)),
        entry("total_lines", Cbor::Integer(as_i64(total_lines as int))),
    ]);
    if !sliced.valid_utf8 {
        push_entry(&mut entries, "valid_utf8", CborValue::Bool(false));
    }
    assert(entry_views(entries@) =~= base + entry_if(
        !sliced.valid_utf8,
        "valid_utf8",
        Cbor::Bool(false),
    ));
    let ghost second = entry_views(entries@);
    if truncated.was_truncated {
        push_entry(&mut entries, "truncated", CborValue::Bool(true));
    }
    assert(entry_views(entries@) =~= second + entry_if(
        truncated.was_truncated,
        "truncated",
        Cbor::Bool(true),
    ));
    let ghost third = entry_views(entries@);
    if truncated.was_truncated {
        push_entry(
            &mut entries,
            "total_bytes",
            CborValue::Integer(signed_count(file_bytes as u64)),
        );
    }
    assert(entry_views(entries@) =~= third + entry_if(
        truncated.was_truncated,
        "total_bytes",
        Cbor::Integer(as_i64(file_bytes as int)),
    ));
    Ok(ToolOutput { result: CborValue::Dict(entries), display })
}

/// A count in 64 bits with a sign.
fn signed_count(n: u64) -> (value: i128)
    ensures
        value == as_i64(n as int),
{
    let wide: i128 = n as i128;
    if wide <= 9223372036854775807i128 {
        wide
    } else {
        wide - 18446744073709551616i128
    }
}

/// The lines of a text from one on, with their numbers, as they are shown.
pub open spec fn numbered(list: Seq<Seq<char>>, from: int, to: int) -> Seq<Seq<char>> {
    Seq::new((to - from) as nat, |i: int| decimal_of((from + i + 1) as nat) + " "@ + list[from + i])
}

/// The lines of a text from one on, with their numbers.
pub fn slice_lines(input: &str, start_line: usize, line_count: Option<usize>) -> (r: ReadSlice)
    ensures
        ({
            let list = lines_of(input@);
            let take = match line_count {
                Some(n) => n,
                None => usize::MAX,
            };
            let from = slice_from(start_line, list.len());
            let to = slice_to(start_line, take, list.len());
            &&& r.content@ == join_of(numbered(list, from, to), "\n"@)
            &&& r.line_count == to - from
            &&& r.valid_utf8
            &&& r.total_lines == list.len()
        }),
{
    let list = lines(input);
    let total: usize = list.len();
    assert(lines_of(input@).len() == total);
    let wanted: usize = if start_line == 0 {
        0
    } else {
        start_line - 1
    };
    let from: usize = if wanted < total {
        wanted
    } else {
        total
    };
    let take: usize = match line_count {
        Some(n) => n,
        None => usize::MAX,
    };
    let end: usize = from.saturating_add(take);
    let to: usize = if end < total {
        end
    } else {
        total
    };
    let ghost all = numbered(lines_of(input@), from as int, to as int);
    let mut shown: Vec<String> = Vec::new();
    let mut i: usize = from;
    assert(views(shown@) =~= all.take(0));
    while i < to
        invariant
            from <= i <= to <= total == list@.len(),
            views(list@) == lines_of(input@),
            all == numbered(lines_of(input@), from as int, to as int),
            views(shown@) == all.take(i - from),
        decreases to - i,
    {
        let mut line = decimal((i + 1) as u64);
        line.append(" ");
        line.append(list[i].as_str());
        assert(lines_of(input@)[i as int] == list@[i as int]@);
        assert(line@ == all[i - from]);
        push_text(&mut shown, line);
        i += 1;
        assert(views(shown@) =~= all.take(i - from));
    }
    assert(all.take(to - from) =~= all);
    ReadSlice {
        content: join(&shown, "\n"),
        line_count: to - from,
        valid_utf8: true,
        total_lines: total,
    }
}

} // verus!
