//! Laws of texts.

use vstd::prelude::*;

use crate::number::{digits_value, is_digit};
use crate::text::{
    decimal_of, is_space, join_of, lemma_position, lines_of, position, signed_decimal_of,
    trim_end_of, trim_of, trim_start_of, without_cr,
};

verus! {

/// A number in base ten is written in digits that stand for it.
pub proof fn law_decimal_reads_back(n: nat)
    ensures
        digits_value(decimal_of(n)) == n,
        decimal_of(n).len() > 0,
        forall|i: int| 0 <= i < decimal_of(n).len() ==> is_digit(#[trigger] decimal_of(n)[i]),
        n > 0 ==> decimal_of(n)[0] != '0',
    decreases n,
{
    let text = decimal_of(n);
    if n < 10 {
        let c = (('0' as u32 + n) as u32) as char;
        assert(text =~= seq![c]);
        assert(text.drop_last() =~= seq![]);
        assert(digits_value(text.drop_last()) == 0);
        assert(text.last() == c);
    } else {
        law_decimal_reads_back(n / 10);
        let front = decimal_of(n / 10);
        let c = (('0' as u32 + n % 10) as u32) as char;
        assert(text =~= front.push(c));
        assert(text.drop_last() =~= front);
        assert(text.last() == c);
        assert forall|i: int| 0 <= i < text.len() implies is_digit(#[trigger] text[i]) by {
            if i < front.len() {
                assert(text[i] == front[i]);
            }
        }
        assert(text[0] == front[0]);
    }
}

/// Numbers that differ are written differently.
pub proof fn law_decimals_differ(a: nat, b: nat)
    requires
        a != b,
    ensures
        decimal_of(a) != decimal_of(b),
        signed_decimal_of(a as int) != signed_decimal_of(b as int),
        signed_decimal_of(-(a as int)) != signed_decimal_of(-(b as int)),
{
    law_decimal_reads_back(a);
    law_decimal_reads_back(b);
    if a > 0 && b > 0 {
        let x = seq!['-'] + decimal_of(a);
        let y = seq!['-'] + decimal_of(b);
        assert(x.skip(1) =~= decimal_of(a));
        assert(y.skip(1) =~= decimal_of(b));
    } else if a > 0 {
        assert((seq!['-'] + decimal_of(a))[0] == '-');
        assert(is_digit(decimal_of(0)[0]));
    } else {
        assert((seq!['-'] + decimal_of(b))[0] == '-');
        assert(is_digit(decimal_of(0)[0]));
    }
}

/// Whether a text is white space alone.
pub open spec fn is_blank(text: Seq<char>) -> bool {
    forall|i: int| 0 <= i < text.len() ==> is_space(#[trigger] text[i])
}

proof fn lemma_trim_start(text: Seq<char>)
    ensures
        trim_start_of(text).len() <= text.len(),
        text.skip(text.len() - trim_start_of(text).len()) == trim_start_of(text),
        is_blank(text.take(text.len() - trim_start_of(text).len())),
        trim_start_of(text).len() > 0 ==> !is_space(trim_start_of(text)[0]),
    decreases text.len(),
{
    let rest = trim_start_of(text);
    if text.len() > 0 && is_space(text[0]) {
        let inner = text.drop_first();
        lemma_trim_start(inner);
        let n = inner.len() - rest.len();
        assert(text.skip(n + 1) =~= inner.skip(n));
        assert forall|i: int| 0 <= i < n + 1 implies is_space(#[trigger] text.take(n + 1)[i]) by {
            if i > 0 {
                assert(inner.take(n)[i - 1] == text[i]);
            }
        }
    } else {
        assert(text.skip(0) =~= text);
    }
}

proof fn lemma_trim_end(text: Seq<char>)
    ensures
        trim_end_of(text).len() <= text.len(),
        text.take(trim_end_of(text).len() as int) == trim_end_of(text),
        is_blank(text.skip(trim_end_of(text).len() as int)),
        trim_end_of(text).len() > 0 ==> !is_space(trim_end_of(text).last()),
    decreases text.len(),
{
    let rest = trim_end_of(text);
    if text.len() > 0 && is_space(text.last()) {
        let inner = text.drop_last();
        lemma_trim_end(inner);
        let n = rest.len() as int;
        assert(text.take(n) =~= inner.take(n));
        assert forall|i: int| 0 <= i < text.len() - n implies is_space(
            #[trigger] text.skip(n)[i],
        ) by {
            if i < inner.len() - n {
                assert(inner.skip(n)[i] == text[n + i]);
            }
        }
    } else {
        assert(text.take(text.len() as int) =~= text);
    }
}

/// A text without the white space at its ends is the text with only white space
/// before and behind it, and has none at its ends.
pub proof fn law_trim_takes_white_space_alone(text: Seq<char>)
    ensures
        exists|before: Seq<char>, behind: Seq<char>|
            text == before + trim_of(text) + behind && #[trigger] is_blank(before)
                && #[trigger] is_blank(behind),
        trim_of(text).len() > 0 ==> !is_space(trim_of(text)[0]) && !is_space(trim_of(text).last()),
{
    let middle = trim_start_of(text);
    let trimmed = trim_of(text);
    lemma_trim_start(text);
    lemma_trim_end(middle);
    let before = text.take(text.len() - middle.len());
    let behind = middle.skip(trimmed.len() as int);
    assert(text =~= before + middle);
    assert(middle =~= trimmed + behind);
    assert(text =~= before + trimmed + behind);
    assert(is_blank(before) && is_blank(behind));
}

/// Whether a text is one line: it breaks nowhere, and ends with nothing that would
/// be taken for the start of a break.
pub open spec fn is_line(text: Seq<char>) -> bool {
    !text.contains('\n') && (text.len() > 0 ==> text.last() != '\r')
}

/// Lines that are put together with breaks between them are the lines of what comes
/// out, where the last of them is not empty.
pub proof fn law_lines_come_back(lines: Seq<Seq<char>>)
    requires
        forall|i: int| 0 <= i < lines.len() ==> is_line(#[trigger] lines[i]),
        lines.len() > 0 ==> lines.last().len() > 0,
    ensures
        lines_of(join_of(lines, "\n"@)) == lines,
    decreases lines.len(),
{
    reveal_strlit("\n");
    if lines.len() == 0 {
        assert(lines_of(join_of(lines, "\n"@)) =~= lines);
    } else if lines.len() == 1 {
        let text = lines[0];
        assert(is_line(lines[0]));
        lemma_position(text, '\n');
        if position(text, '\n') < text.len() {
            assert(text[position(text, '\n')] == '\n');
            assert(text.contains('\n'));
        }
        assert(lines_of(text) =~= lines);
    } else {
        let first = lines[0];
        let rest = lines.drop_first();
        assert(is_line(lines[0]));
        assert forall|i: int| 0 <= i < rest.len() implies is_line(#[trigger] rest[i]) by {
            assert(rest[i] == lines[i + 1]);
        }
        law_lines_come_back(rest);
        crate::text::lemma_join_front(first, rest, "\n"@);
        assert(seq![first] + rest =~= lines);
        let tail = join_of(rest, "\n"@);
        let text = join_of(lines, "\n"@);
        assert(text =~= first + "\n"@ + tail);
        let p = first.len() as int;
        assert(text[p] == '\n');
        assert forall|i: int| 0 <= i < p implies text[i] != '\n' by {
            assert(text[i] == first[i]);
            assert(!first.contains('\n'));
        }
        crate::text::lemma_position_unique(text, '\n', p);
        assert(text.take(p) =~= first);
        assert(text.skip(p + 1) =~= tail);
        assert(without_cr(first) == first);
        assert(lines_of(text) =~= seq![first] + rest);
    }
}

} // verus!
