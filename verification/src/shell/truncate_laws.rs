//! Laws of what is left of output that is too long.

use vstd::prelude::*;

use crate::shell::truncate::{lemma_rendering, marked, rendering, selected};
use crate::text::{lemma_position_unique, split_at_char, utf8_len};

verus! {

/// Of output with too many lines the first thousand and the last thousand are
/// left, in order, with a gap between them; of other output every line is.
pub proof fn law_both_ends_are_left(lines: Seq<Seq<char>>, total: nat, i: int)
    requires
        lines.len() >= 2000,
        0 <= i < 1000,
    ensures
        total > 2000 ==> {
            let left = selected(lines, total);
            &&& left.len() == 2001
            &&& left[i] == Some(lines[i])
            &&& left[1000] is None
            &&& left[2000 - i] == Some(lines[lines.len() - 1 - i])
        },
        total <= 2000 ==> selected(lines, total).len() == lines.len() && selected(lines, total)[i]
            == Some(lines[i]),
{
}

/// Every line that is left is shown in its place: whole, or reduced to its number
/// where it has to be cut. A gap is shown as dots. Nothing is cut unless that is said.
pub proof fn law_left_lines_are_shown(wanted: Seq<Option<Seq<char>>>, i: int)
    requires
        0 <= i < wanted.len(),
    ensures
        rendering(wanted).lines.len() == wanted.len(),
        match wanted[i] {
            None => rendering(wanted).lines[i] == "..."@,
            Some(line) => rendering(wanted).lines[i] == line || rendering(wanted).lines[i] == marked(
                line,
                "truncated"@,
            ),
        },
        !rendering(wanted).cut ==> (wanted[i] matches Some(line) ==> rendering(wanted).lines[i]
            == line),
        wanted[0] matches Some(line) ==> (utf8_len(line) <= 51200 ==> rendering(wanted).lines[0]
            == line),
    decreases wanted.len(),
{
    let shorter = wanted.drop_last();
    lemma_rendering(wanted);
    lemma_rendering(shorter);
    assert(rendering(wanted).lines.drop_last() =~= rendering(shorter).lines);
    if i < wanted.len() - 1 {
        law_left_lines_are_shown(shorter, i);
        assert(wanted[i] == shorter[i] && wanted[0] == shorter[0]);
        assert(rendering(wanted).lines[i] == rendering(shorter).lines[i]);
        assert(rendering(wanted).lines[0] == rendering(shorter).lines[0]);
    } else if shorter.len() > 0 {
        law_left_lines_are_shown(shorter, 0);
        assert(wanted[0] == shorter[0]);
        assert(rendering(wanted).lines[0] == rendering(shorter).lines[0]);
    } else {
        assert(rendering(shorter).bytes == 0);
    }
}

/// A line that is cut keeps what stands before its content, with a marker behind it.
pub proof fn law_cut_line_keeps_its_number(
    number: Seq<char>,
    content: Seq<char>,
    marker: Seq<char>,
)
    requires
        !number.contains(' '),
        !number.contains('('),
    ensures
        marked(number + " "@ + content, marker) == number + "("@ + marker + ")"@,
{
    reveal_strlit(" ");
    let line = number + " "@ + content;
    assert forall|j: int| 0 <= j < number.len() implies line[j] != ' ' by {
        assert(number.contains(number[j]));
    }
    lemma_position_unique(line, ' ', number.len() as int);
    assert(line.take(number.len() as int) =~= number);
    assert forall|j: int| 0 <= j < number.len() implies number[j] != '(' by {
        assert(number.contains(number[j]));
    }
    lemma_position_unique(number, '(', number.len() as int);
    assert(split_at_char(number, '(') is None);
}

} // verus!
