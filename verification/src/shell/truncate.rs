//! Output truncation shared by every tool.

use vstd::prelude::*;

use crate::text::{byte_len, chars_of, join, join_of, lemma_utf8_len_concat, lemma_utf8_len_empty,
    lines, lines_of, split_at_char, split_once_char, text_of, utf8_len, views};

verus! {

/// Maximum lines before truncation kicks in.
pub const MAX_OUTPUT_LINES: usize = 2000;

/// Number of leading lines kept when line-count truncation kicks in.
pub const TRUNCATED_OUTPUT_HEAD_LINES: usize = 1000;

/// Number of trailing lines kept when line-count truncation kicks in.
pub const TRUNCATED_OUTPUT_TAIL_LINES: usize = 1000;

/// Maximum bytes before truncation kicks in.
pub const MAX_OUTPUT_BYTES: usize = 51200;

/// Result of a truncation.
#[derive(Debug)]
pub struct Truncated {
    pub content: String,
    pub was_truncated: bool,
    pub total_lines: usize,
    pub total_bytes: usize,
}

/// Whether every character is an ASCII digit.
pub open spec fn all_digits(text: Seq<char>) -> bool {
    forall|i: int| 0 <= i < text.len() ==> '0' <= #[trigger] text[i] <= '9'
}

/// The part of a rendered line that comes before its content: what stands
/// before the first space, or the whole line where it is only a number.
pub open spec fn line_prefix(line: Seq<char>) -> Seq<char> {
    match split_at_char(line, ' ') {
        Some((prefix, _)) => prefix,
        None => if all_digits(line) {
            line
        } else {
            seq![]
        },
    }
}

/// A rendered line reduced to its prefix and a marker. A marker list that the
/// prefix already ends with grows by one.
pub open spec fn marked(line: Seq<char>, marker: Seq<char>) -> Seq<char> {
    let prefix = line_prefix(line);
    match split_at_char(prefix, '(') {
        Some((base, existing)) if existing.len() > 0 && existing.last() == ')' => base + "("@
            + existing.drop_last() + ","@ + marker + ")"@,
        _ => prefix + "("@ + marker + ")"@,
    }
}

/// The lines to render: all of them, or the first and last thousand with a gap
/// (`None`) between them.
pub open spec fn selected(lines: Seq<Seq<char>>, total_lines: nat) -> Seq<Option<Seq<char>>> {
    let some = |line: Seq<char>| Some(line);
    if total_lines > MAX_OUTPUT_LINES {
        let head = if lines.len() < TRUNCATED_OUTPUT_HEAD_LINES {
            lines.len() as int
        } else {
            TRUNCATED_OUTPUT_HEAD_LINES as int
        };
        let tail = if lines.len() < TRUNCATED_OUTPUT_TAIL_LINES {
            0
        } else {
            lines.len() - TRUNCATED_OUTPUT_TAIL_LINES
        };
        lines.take(head).map_values(some) + seq![None] + lines.skip(tail).map_values(some)
    } else {
        lines.map_values(some)
    }
}

/// Lines rendered so far, their bytes with separators, and whether a line was
/// reduced to its marker.
pub struct Rendering {
    pub lines: Seq<Seq<char>>,
    pub bytes: nat,
    pub cut: bool,
}

/// One more selected line. A line that would pass the byte limit is reduced to
/// its marker.
pub open spec fn render_step(r: Rendering, line: Option<Seq<char>>) -> Rendering {
    let separator: nat = if r.lines.len() == 0 {
        0
    } else {
        1
    };
    match line {
        None => Rendering {
            lines: r.lines.push("..."@),
            bytes: r.bytes + separator + 3,
            cut: r.cut,
        },
        Some(line) => if MAX_OUTPUT_BYTES < utf8_len(line) || MAX_OUTPUT_BYTES < r.bytes + separator
            + utf8_len(line) {
            let mark = marked(line, "truncated"@);
            Rendering {
                lines: r.lines.push(mark),
                bytes: r.bytes + separator + utf8_len(mark),
                cut: true,
            }
        } else {
            Rendering {
                lines: r.lines.push(line),
                bytes: r.bytes + separator + utf8_len(line),
                cut: r.cut,
            }
        },
    }
}

/// The selected lines, rendered in order.
pub open spec fn rendering(selected: Seq<Option<Seq<char>>>) -> Rendering
    decreases selected.len(),
{
    if selected.len() == 0 {
        Rendering { lines: seq![], bytes: 0, cut: false }
    } else {
        render_step(rendering(selected.drop_last()), selected.last())
    }
}

/// The content that truncation leaves of lines with given totals.
pub open spec fn truncated_content(lines: Seq<Seq<char>>, total_lines: nat) -> Seq<char> {
    join_of(rendering(selected(lines, total_lines)).lines, "\n"@)
}

/// Whether truncation leaves anything out of lines with given totals.
pub open spec fn is_truncated(
    lines: Seq<Seq<char>>,
    total_lines: nat,
    total_bytes: nat,
) -> bool {
    ||| total_lines > MAX_OUTPUT_LINES
    ||| total_bytes > MAX_OUTPUT_BYTES
    ||| rendering(selected(lines, total_lines)).cut
}

/// What truncation makes of lines with given totals.
pub open spec fn truncates(
    r: Truncated,
    lines: Seq<Seq<char>>,
    total_lines: nat,
    total_bytes: nat,
) -> bool {
    &&& r.content@ == truncated_content(lines, total_lines)
    &&& r.was_truncated == is_truncated(lines, total_lines, total_bytes)
    &&& r.total_lines == total_lines
    &&& r.total_bytes == total_bytes
}

/// Adds a marker to a rendered line's prefix and drops its content.
pub fn mark_line(line: &str, marker: &str) -> (marked_line: String)
    ensures
        marked_line@ == marked(line@, marker@),
{
    let prefix: String = match split_once_char(line, ' ') {
        Some((prefix, _)) => prefix,
        None => if only_digits(line) {
            line.to_owned()
        } else {
            let empty = String::new();
            assert(empty@ =~= seq![]);
            empty
        },
    };
    match split_once_char(prefix.as_str(), '(') {
        Some((base, existing)) => {
            let chars = chars_of(existing.as_str());
            let n: usize = chars.len();
            if n > 0 && chars[n - 1] == ')' {
                let kept = text_of(&chars, 0, n - 1);
                assert(kept@ =~= existing@.drop_last());
                let mut out = base;
                out.append("(");
                out.append(kept.as_str());
                out.append(",");
                out.append(marker);
                out.append(")");
                return out;
            }
        },
        None => {},
    }
    let mut out = prefix;
    out.append("(");
    out.append(marker);
    out.append(")");
    out
}

/// Whether every character is an ASCII digit.
fn only_digits(text: &str) -> (b: bool)
    ensures
        b == all_digits(text@),
{
    let chars = chars_of(text);
    let mut i: usize = 0;
    while i < chars.len()
        invariant
            i <= chars@.len(),
            chars@ == text@,
            forall|j: int| 0 <= j < i ==> '0' <= #[trigger] text@[j] <= '9',
        decreases chars.len() - i,
    {
        if chars[i] < '0' || chars[i] > '9' {
            return false;
        }
        i += 1;
    }
    true
}

/// Truncates rendered lines whose totals are known.
pub fn truncate_line_oriented_lines(
    lines: &Vec<String>,
    total_lines: usize,
    total_bytes: usize,
) -> (r: Truncated)
    ensures
        truncates(r, views(lines@), total_lines as nat, total_bytes as nat),
{
    let line_count_truncated = MAX_OUTPUT_LINES < total_lines;
    let n: usize = lines.len();
    let ghost texts = views(lines@);
    let ghost wanted = selected(texts, total_lines as nat);
    let mut rendered: Vec<String> = Vec::new();
    let mut rendered_bytes: usize = 0;
    let mut was_truncated = line_count_truncated || MAX_OUTPUT_BYTES < total_bytes;
    let head: usize = if line_count_truncated && n > TRUNCATED_OUTPUT_HEAD_LINES {
        TRUNCATED_OUTPUT_HEAD_LINES
    } else {
        n
    };
    let tail: usize = if n < TRUNCATED_OUTPUT_TAIL_LINES {
        0
    } else {
        n - TRUNCATED_OUTPUT_TAIL_LINES
    };
    let ghost over = line_count_truncated || MAX_OUTPUT_BYTES < total_bytes;
    let mut i: usize = 0;
    assert(views(rendered@) =~= rendering(wanted.take(0)).lines);
    while i < head
        invariant
            i <= head <= n == lines@.len(),
            texts == views(lines@),
            head <= wanted.len(),
            forall|j: int| 0 <= j < head ==> #[trigger] wanted[j] == Some(texts[j]),
            views(rendered@) == rendering(wanted.take(i as int)).lines,
            saturated(rendered_bytes, rendering(wanted.take(i as int)).bytes),
            was_truncated == (over || rendering(wanted.take(i as int)).cut),
        decreases head - i,
    {
        assert(wanted.take(i + 1).drop_last() =~= wanted.take(i as int));
        assert(wanted.take(i + 1).last() == Some(texts[i as int]));
        let cut = render_one(&mut rendered, &mut rendered_bytes, lines[i].as_str());
        was_truncated = was_truncated || cut;
        i += 1;
    }
    if line_count_truncated {
        assert(wanted.take(head + 1).drop_last() =~= wanted.take(head as int));
        assert(wanted.take(head + 1).last() is None);
        let separator: usize = if rendered.is_empty() {
            0
        } else {
            1
        };
        let ghost before = rendered@;
        rendered.push("...".to_owned());
        assert(views(rendered@) =~= views(before).push("..."@));
        rendered_bytes = rendered_bytes.saturating_add(separator + 3);
        let mut k: usize = tail;
        while k < n
            invariant
                tail <= k <= n == lines@.len(),
                texts == views(lines@),
                wanted.len() == head + 1 + (n - tail),
                head <= n,
                forall|j: int|
                    head < j < wanted.len() ==> #[trigger] wanted[j] == Some(
                        texts[j - head - 1 + tail],
                    ),
                views(rendered@) == rendering(wanted.take(head + 1 + (k - tail))).lines,
                saturated(rendered_bytes, rendering(wanted.take(head + 1 + (k - tail))).bytes),
                was_truncated == (over || rendering(wanted.take(head + 1 + (k - tail))).cut),
            decreases n - k,
        {
            let ghost at = head + 1 + (k - tail);
            assert(wanted.take(at + 1).drop_last() =~= wanted.take(at));
            assert(wanted.take(at + 1).last() == Some(texts[k as int]));
            let cut = render_one(&mut rendered, &mut rendered_bytes, lines[k].as_str());
            was_truncated = was_truncated || cut;
            k += 1;
        }
        assert(wanted.take(head + 1 + (k - tail)) =~= wanted);
    } else {
        assert(wanted.take(head as int) =~= wanted);
    }
    Truncated { content: join(&rendered, "\n"), was_truncated, total_lines, total_bytes }
}

/// A count kept in machine arithmetic, which stops at the largest value.
spec fn saturated(count: usize, exact: nat) -> bool {
    count == if exact <= usize::MAX {
        exact
    } else {
        usize::MAX as nat
    }
}

/// Renders one line; says whether it was reduced to its marker.
fn render_one(rendered: &mut Vec<String>, rendered_bytes: &mut usize, line: &str) -> (cut: bool)
    ensures
        forall|r: Rendering|
            {
                let after = #[trigger] render_step(r, Some(line@));
                r.lines == views(old(rendered)@) && saturated(*old(rendered_bytes), r.bytes) ==> {
                    &&& views(final(rendered)@) == after.lines
                    &&& saturated(*final(rendered_bytes), after.bytes)
                    &&& after.cut == (r.cut || cut)
                }
            },
{
    let separator: usize = if rendered.is_empty() {
        0
    } else {
        1
    };
    let ghost before = rendered@;
    let size = byte_len(line);
    if MAX_OUTPUT_BYTES < size || MAX_OUTPUT_BYTES < rendered_bytes.saturating_add(
        separator + size,
    ) {
        let mark = mark_line(line, "truncated");
        let mark_size = byte_len(mark.as_str());
        rendered.push(mark);
        assert(views(rendered@) =~= views(before).push(mark@));
        *rendered_bytes = rendered_bytes.saturating_add(separator).saturating_add(mark_size);
        true
    } else {
        rendered.push(line.to_owned());
        assert(views(rendered@) =~= views(before).push(line@));
        *rendered_bytes = rendered_bytes.saturating_add(separator + size);
        false
    }
}

/// Truncates line-oriented output without adding prose notices.
///
/// When there are too many lines, the first and last thousand are kept with a
/// literal `...` between them. A line that is too long by itself, or that
/// would pass the byte limit, is replaced by a marker such as `out(truncated)`,
/// so that no misleading partial content is shown.
pub fn truncate_line_oriented(input: &str) -> (r: Truncated)
    ensures
        truncates(r, lines_of(input@), lines_of(input@).len(), utf8_len(input@)),
{
    let list = lines(input);
    let total: usize = list.len();
    truncate_line_oriented_lines(&list, total, byte_len(input))
}

/// Truncates from the head (keeps first and last lines with a separator).
pub fn truncate_head(input: &str) -> (r: Truncated)
    ensures
        truncates(r, lines_of(input@), lines_of(input@).len(), utf8_len(input@)),
{
    truncate_line_oriented(input)
}

/// Truncates from the tail (for callers that only need line-oriented
/// truncation).
pub fn truncate_tail(input: &str) -> (r: Truncated)
    ensures
        truncates(r, lines_of(input@), lines_of(input@).len(), utf8_len(input@)),
{
    truncate_line_oriented(input)
}

/// A single line, or its marker where it takes more than `max` bytes.
pub open spec fn truncated_line(line: Seq<char>, max: nat) -> Seq<char> {
    if utf8_len(line) <= max {
        line
    } else {
        marked(line, "truncated"@)
    }
}

/// Truncates a single line by marker, dropping its content.
pub fn truncate_line(line: &str, max: usize) -> (r: String)
    ensures
        r@ == truncated_line(line@, max as nat),
{
    if byte_len(line) <= max {
        return line.to_owned();
    }
    mark_line(line, "truncated")
}

/// As many lines are rendered as were selected, and the bytes counted are
/// those of the joined lines.
pub proof fn lemma_rendering(wanted: Seq<Option<Seq<char>>>)
    ensures
        rendering(wanted).lines.len() == wanted.len(),
        rendering(wanted).bytes == utf8_len(join_of(rendering(wanted).lines, "\n"@)),
    decreases wanted.len(),
{
    lemma_utf8_len_empty(Seq::<char>::empty());
    if wanted.len() > 0 {
        reveal_strlit("...");
        reveal_strlit("\n");
        lemma_rendering(wanted.drop_last());
        let r = rendering(wanted);
        let before = rendering(wanted.drop_last());
        assert(r.lines.drop_last() =~= before.lines);
        let joined = join_of(before.lines, "\n"@);
        lemma_utf8_len_concat(joined + "\n"@, r.lines.last());
        lemma_utf8_len_concat(joined, "\n"@);
        vstd::utf8::is_ascii_chars_encode_utf8("..."@);
        vstd::utf8::is_ascii_chars_encode_utf8("\n"@);
    }
}

/// Lines that fit together in the byte limit are all rendered as they are.
pub proof fn lemma_rendering_fits(lines: Seq<Seq<char>>)
    requires
        utf8_len(join_of(lines, "\n"@)) <= MAX_OUTPUT_BYTES,
    ensures
        rendering(lines.map_values(|line: Seq<char>| Some(line))).lines == lines,
        !rendering(lines.map_values(|line: Seq<char>| Some(line))).cut,
    decreases lines.len(),
{
    let wanted = lines.map_values(|line: Seq<char>| Some(line));
    if lines.len() == 0 {
        assert(rendering(wanted).lines =~= lines);
    } else {
        let shorter = lines.drop_last();
        let joined = join_of(shorter, "\n"@);
        reveal_strlit("\n");
        vstd::utf8::is_ascii_chars_encode_utf8("\n"@);
        if lines.len() > 1 {
            lemma_utf8_len_concat(joined + "\n"@, lines.last());
            lemma_utf8_len_concat(joined, "\n"@);
        } else {
            lemma_utf8_len_empty(Seq::<char>::empty());
        }
        lemma_rendering_fits(shorter);
        assert(wanted.drop_last() =~= shorter.map_values(|line: Seq<char>| Some(line)));
        lemma_rendering(wanted.drop_last());
        assert(rendering(wanted).lines =~= lines);
    }
}

/// Output within both limits comes back unchanged: its lines, joined.
pub proof fn law_small_output_is_kept(lines: Seq<Seq<char>>, total_bytes: nat)
    requires
        lines.len() <= MAX_OUTPUT_LINES,
        utf8_len(join_of(lines, "\n"@)) <= total_bytes <= MAX_OUTPUT_BYTES,
    ensures
        truncated_content(lines, lines.len()) == join_of(lines, "\n"@),
        !is_truncated(lines, lines.len(), total_bytes),
{
    lemma_rendering_fits(lines);
}

/// However long the output is, at most 2001 lines of it are rendered: the
/// thousand at each end and the gap.
pub proof fn law_rendered_lines_are_bounded(lines: Seq<Seq<char>>, total_lines: nat)
    requires
        lines.len() <= total_lines,
    ensures
        rendering(selected(lines, total_lines)).lines.len() <= MAX_OUTPUT_LINES + 1,
{
    lemma_rendering(selected(lines, total_lines));
}

} // verus!
