//! Laws of line diffs: what a hunk keeps of both texts, and how it is shown.

use vstd::prelude::*;

use crate::shell::capture::sat;
use crate::shell::diff::{
    all_changes, count_kind, diff_line, hunk_of, modified, new_segments, old_segments, paired,
    pairing, segments_text_of, summary_of, unified_line, unified_lines, unified_of, without_eol,
    word_diff, ChangeKind, ChangeView, DiffLineView, HunkView, PairedView, RunView, SegmentView,
};
use crate::text::decimal_of;

verus! {

/// The lines of all changes but those of one kind, without their endings.
pub open spec fn lines_but(changes: Seq<ChangeView>, left_out: ChangeKind) -> Seq<Seq<char>>
    decreases changes.len(),
{
    if changes.len() == 0 {
        seq![]
    } else if changes.last().kind == left_out {
        lines_but(changes.drop_last(), left_out)
    } else {
        lines_but(changes.drop_last(), left_out).push(without_eol(changes.last().text))
    }
}

/// The text of all changes but those of one kind.
pub open spec fn text_but(changes: Seq<ChangeView>, left_out: ChangeKind) -> Seq<char>
    decreases changes.len(),
{
    if changes.len() == 0 {
        seq![]
    } else if changes.last().kind == left_out {
        text_but(changes.drop_last(), left_out)
    } else {
        text_but(changes.drop_last(), left_out) + changes.last().text
    }
}

/// The lines of the old text among paired lines.
pub open spec fn old_lines(lines: Seq<PairedView>) -> Seq<Seq<char>>
    decreases lines.len(),
{
    if lines.len() == 0 {
        seq![]
    } else {
        let before = old_lines(lines.drop_last());
        match lines.last() {
            PairedView::Equal { text } => before.push(text),
            PairedView::Remove { text } => before.push(text),
            PairedView::Add { .. } => before,
            PairedView::Pair { old, .. } => before.push(old),
        }
    }
}

/// The lines of the new text among paired lines.
pub open spec fn new_lines(lines: Seq<PairedView>) -> Seq<Seq<char>>
    decreases lines.len(),
{
    if lines.len() == 0 {
        seq![]
    } else {
        let before = new_lines(lines.drop_last());
        match lines.last() {
            PairedView::Equal { text } => before.push(text),
            PairedView::Remove { .. } => before,
            PairedView::Add { text } => before.push(text),
            PairedView::Pair { new, .. } => before.push(new),
        }
    }
}

/// How many lines of a hunk are in the new text and not in the old one.
pub open spec fn lines_added(lines: Seq<DiffLineView>) -> nat
    decreases lines.len(),
{
    if lines.len() == 0 {
        0
    } else {
        lines_added(lines.drop_last()) + if lines.last() is Add || lines.last() is Modify {
            1nat
        } else {
            0nat
        }
    }
}

/// How many lines of a hunk are in the old text and not in the new one.
pub open spec fn lines_removed(lines: Seq<DiffLineView>) -> nat
    decreases lines.len(),
{
    if lines.len() == 0 {
        0
    } else {
        lines_removed(lines.drop_last()) + if lines.last() is Remove || lines.last() is Modify {
            1nat
        } else {
            0nat
        }
    }
}

/// The lines added in all hunks.
pub open spec fn all_added(hunks: Seq<HunkView>) -> nat
    decreases hunks.len(),
{
    if hunks.len() == 0 {
        0
    } else {
        all_added(hunks.drop_last()) + lines_added(hunks.last().lines)
    }
}

/// The lines removed in all hunks.
pub open spec fn all_removed(hunks: Seq<HunkView>) -> nat
    decreases hunks.len(),
{
    if hunks.len() == 0 {
        0
    } else {
        all_removed(hunks.drop_last()) + lines_removed(hunks.last().lines)
    }
}

/// A line that is put behind the lines is behind those of its texts.
proof fn lemma_sides_pushed(lines: Seq<PairedView>, line: PairedView)
    ensures
        old_lines(lines.push(line)) == match line {
            PairedView::Equal { text } => old_lines(lines).push(text),
            PairedView::Remove { text } => old_lines(lines).push(text),
            PairedView::Add { .. } => old_lines(lines),
            PairedView::Pair { old, .. } => old_lines(lines).push(old),
        },
        new_lines(lines.push(line)) == match line {
            PairedView::Equal { text } => new_lines(lines).push(text),
            PairedView::Remove { .. } => new_lines(lines),
            PairedView::Add { text } => new_lines(lines).push(text),
            PairedView::Pair { new, .. } => new_lines(lines).push(new),
        },
{
    assert(lines.push(line).drop_last() =~= lines);
}

/// The lines so far, with the removed line that waits behind those of the old text,
/// are those of both texts.
proof fn lemma_waiting(changes: Seq<ChangeView>)
    ensures
        new_lines(pairing(changes).0) == lines_but(changes, ChangeKind::Delete),
        lines_but(changes, ChangeKind::Insert) == match pairing(changes).1 {
            Some(text) => old_lines(pairing(changes).0).push(text),
            None => old_lines(pairing(changes).0),
        },
    decreases changes.len(),
{
    if changes.len() > 0 {
        lemma_waiting(changes.drop_last());
        let (lines, waiting) = pairing(changes.drop_last());
        let text = without_eol(changes.last().text);
        let settled = match waiting {
            Some(text) => lines.push(PairedView::Remove { text }),
            None => lines,
        };
        if let Some(old) = waiting {
            lemma_sides_pushed(lines, PairedView::Remove { text: old });
            lemma_sides_pushed(lines, PairedView::Pair { old, new: text });
        }
        lemma_sides_pushed(settled, PairedView::Equal { text });
        lemma_sides_pushed(lines, PairedView::Add { text });
        match changes.last().kind {
            ChangeKind::Equal => {
                assert(pairing(changes).0 == settled.push(PairedView::Equal { text }));
            },
            ChangeKind::Delete => {
                assert(pairing(changes).0 == settled);
            },
            ChangeKind::Insert => {},
        }
    }
}

/// A hunk loses no line of either text, and adds none: its lines are those of the
/// changes, each once and in order.
pub proof fn law_hunk_has_both_texts(changes: Seq<ChangeView>)
    ensures
        old_lines(paired(changes)) == lines_but(changes, ChangeKind::Insert),
        new_lines(paired(changes)) == lines_but(changes, ChangeKind::Delete),
{
    lemma_waiting(changes);
    let (lines, waiting) = pairing(changes);
    if let Some(text) = waiting {
        lemma_sides_pushed(lines, PairedView::Remove { text });
    }
}

/// A line that was removed and the line that was added right behind it are one
/// modified line.
pub proof fn law_changed_line_is_one_line(
    changes: Seq<ChangeView>,
    old: ChangeView,
    new: ChangeView,
)
    requires
        old.kind == ChangeKind::Delete,
        new.kind == ChangeKind::Insert,
    ensures
        ({
            let lines = paired(changes.push(old).push(new));
            &&& lines.len() > 0
            &&& lines.last() == (PairedView::Pair {
                old: without_eol(old.text),
                new: without_eol(new.text),
            })
            &&& lines.drop_last() == paired(changes)
        }),
{
    let all = changes.push(old).push(new);
    assert(all.drop_last() =~= changes.push(old));
    assert(changes.push(old).drop_last() =~= changes);
    assert(pairing(changes.push(old)) == (paired(changes), Some(without_eol(old.text))));
    assert(pairing(all) == (
        paired(changes).push(
            PairedView::Pair { old: without_eol(old.text), new: without_eol(new.text) },
        ),
        None::<Seq<char>>,
    ));
    assert(paired(all).drop_last() =~= paired(changes));
}

/// A line is kept but for its ending.
pub proof fn law_only_the_ending_goes(line: Seq<char>)
    ensures
        line.len() > 0 && line.last() != '\r' ==> without_eol(line + "\n"@) == line,
        without_eol(line + "\r\n"@) == line,
        line.len() == 0 || line.last() != '\n' ==> without_eol(line) == line,
{
    reveal_strlit("\n");
    reveal_strlit("\r\n");
    let unix = line + "\n"@;
    assert(unix.take(unix.len() - 1) =~= line);
    let dos = line + "\r\n"@;
    assert(dos.take(dos.len() - 2) =~= line);
}

/// A modified line shows the words of both lines: without what was added it is the
/// old line, and without what was removed the new one.
pub proof fn law_words_make_up_both_lines(changes: Seq<ChangeView>)
    ensures
        modified(changes) matches DiffLineView::Modify { old, new } ==> {
            &&& segments_text_of(old) == text_but(changes, ChangeKind::Insert)
            &&& segments_text_of(new) == text_but(changes, ChangeKind::Delete)
            &&& forall|i: int| 0 <= i < old.len() ==> !((#[trigger] old[i]) is Add)
            &&& forall|i: int| 0 <= i < new.len() ==> !((#[trigger] new[i]) is Remove)
        },
        modified(changes) is Modify,
    decreases changes.len(),
{
    if changes.len() > 0 {
        let before = changes.drop_last();
        law_words_make_up_both_lines(before);
        let text = changes.last().text;
        let old = old_segments(before);
        let new = new_segments(before);
        assert(old.push(SegmentView::Equal { text }).drop_last() =~= old);
        assert(old.push(SegmentView::Remove { text }).drop_last() =~= old);
        assert(new.push(SegmentView::Equal { text }).drop_last() =~= new);
        assert(new.push(SegmentView::Add { text }).drop_last() =~= new);
    }
}

/// A word is marked as what it is.
pub proof fn law_changed_words_are_marked(changes: Seq<ChangeView>, word: ChangeView)
    ensures
        modified(changes) matches DiffLineView::Modify { old, new } ==> (modified(
            changes.push(word),
        ) matches DiffLineView::Modify { old: old_after, new: new_after } && match word.kind {
            ChangeKind::Equal => old_after == old.push(SegmentView::Equal { text: word.text })
                && new_after == new.push(SegmentView::Equal { text: word.text }),
            ChangeKind::Delete => old_after == old.push(SegmentView::Remove { text: word.text })
                && new_after == new,
            ChangeKind::Insert => old_after == old && new_after == new.push(
                SegmentView::Add { text: word.text },
            ),
        }),
{
    assert(changes.push(word).drop_last() =~= changes);
}

/// Paired lines as they are shown.
spec fn shown(lines: Seq<PairedView>) -> Seq<DiffLineView> {
    lines.map_values(|l: PairedView| diff_line(l))
}

/// How many changes of a kind there are, and how many lines they make.
proof fn lemma_counts(changes: Seq<ChangeView>)
    ensures
        lines_added(shown(pairing(changes).0)) == count_kind(changes, ChangeKind::Insert),
        count_kind(changes, ChangeKind::Delete) == lines_removed(shown(pairing(changes).0)) + (
        if pairing(changes).1 is Some {
            1nat
        } else {
            0nat
        }),
    decreases changes.len(),
{
    if changes.len() > 0 {
        lemma_counts(changes.drop_last());
        let (lines, waiting) = pairing(changes.drop_last());
        let text = without_eol(changes.last().text);
        let settled = match waiting {
            Some(text) => lines.push(PairedView::Remove { text }),
            None => lines,
        };
        if let Some(old) = waiting {
            lemma_shown_pushed(lines, PairedView::Remove { text: old });
            lemma_shown_pushed(lines, PairedView::Pair { old, new: text });
        }
        lemma_shown_pushed(lines, PairedView::Add { text });
        lemma_shown_pushed(settled, PairedView::Equal { text });
        match changes.last().kind {
            ChangeKind::Equal => {
                assert(pairing(changes).0 == settled.push(PairedView::Equal { text }));
            },
            ChangeKind::Delete => {
                assert(pairing(changes).0 == settled);
            },
            ChangeKind::Insert => {},
        }
    } else {
        assert(shown(pairing(changes).0) =~= seq![]);
    }
}

/// A line that is put behind the lines is counted with them.
proof fn lemma_shown_pushed(lines: Seq<PairedView>, line: PairedView)
    ensures
        lines_added(shown(lines.push(line))) == lines_added(shown(lines)) + (if line is Add
            || line is Pair {
            1nat
        } else {
            0nat
        }),
        lines_removed(shown(lines.push(line))) == lines_removed(shown(lines)) + (if line is Remove
            || line is Pair {
            1nat
        } else {
            0nat
        }),
{
    assert(shown(lines.push(line)) =~= shown(lines).push(diff_line(line)));
    assert(shown(lines.push(line)).drop_last() =~= shown(lines));
    assert(shown(lines.push(line)).last() == diff_line(line));
}

/// The counts of a difference are those of the lines that its hunks show.
pub proof fn law_counts_are_those_of_the_hunks(groups: Seq<Seq<RunView>>)
    ensures
        summary_of(groups).added == sat(all_added(summary_of(groups).hunks) as int),
        summary_of(groups).removed == sat(all_removed(summary_of(groups).hunks) as int),
    decreases groups.len(),
{
    if groups.len() > 0 {
        let before = summary_of(groups.drop_last());
        let runs = groups.last();
        law_counts_are_those_of_the_hunks(groups.drop_last());
        if runs.len() > 0 {
            let changes = all_changes(runs);
            let hunk = hunk_of(runs);
            assert(before.hunks.push(hunk).drop_last() =~= before.hunks);
            lemma_counts(changes);
            assert(hunk.lines =~= shown(paired(changes)));
            let (lines, waiting) = pairing(changes);
            if let Some(text) = waiting {
                lemma_shown_pushed(lines, PairedView::Remove { text });
            }
        }
    }
}

/// A hunk starts at the line, counted from one, at which its first run starts,
/// and spans the lines up to the end of its last run.
pub proof fn law_hunk_is_where_its_changes_are(runs: Seq<RunView>)
    requires
        runs.len() > 0,
        runs[0].old_start <= runs.last().old_end < u32::MAX,
        runs[0].new_start <= runs.last().new_end < u32::MAX,
    ensures
        hunk_of(runs).old_start == runs[0].old_start + 1,
        hunk_of(runs).new_start == runs[0].new_start + 1,
        hunk_of(runs).old_start + hunk_of(runs).old_count == runs.last().old_end + 1,
        hunk_of(runs).new_start + hunk_of(runs).new_count == runs.last().new_end + 1,
{
}

/// A hunk shows each of its lines as what it is.
pub proof fn law_lines_are_shown_as_they_are(runs: Seq<RunView>, i: int)
    requires
        0 <= i < paired(all_changes(runs)).len(),
    ensures
        hunk_of(runs).lines.len() == paired(all_changes(runs)).len(),
        match paired(all_changes(runs))[i] {
            PairedView::Equal { text } => hunk_of(runs).lines[i] == (DiffLineView::Equal { text }),
            PairedView::Remove { text } => hunk_of(runs).lines[i] == (DiffLineView::Remove {
                text,
            }),
            PairedView::Add { text } => hunk_of(runs).lines[i] == (DiffLineView::Add { text }),
            PairedView::Pair { old, new } => hunk_of(runs).lines[i] matches DiffLineView::Modify {
                old: before,
                new: after,
            } && segments_text_of(before) == text_but(word_diff(old, new), ChangeKind::Insert)
                && segments_text_of(after) == text_but(word_diff(old, new), ChangeKind::Delete),
        },
{
    if let PairedView::Pair { old, new } = paired(all_changes(runs))[i] {
        law_words_make_up_both_lines(word_diff(old, new));
    }
}

/// A unified diff is made of its lines one by one, wherever it is cut.
proof fn lemma_lines_add_up(a: Seq<DiffLineView>, b: Seq<DiffLineView>)
    ensures
        unified_lines(a + b) == unified_lines(a) + unified_lines(b),
    decreases b.len(),
{
    if b.len() == 0 {
        assert(a + b =~= a);
        assert(unified_lines(a) + unified_lines(b) =~= unified_lines(a));
    } else {
        lemma_lines_add_up(a, b.drop_last());
        assert((a + b).drop_last() =~= a + b.drop_last());
        assert(unified_lines(a + b) =~= unified_lines(a) + unified_lines(b));
    }
}

/// Every line of a hunk stands in the unified diff once and in its place: one of
/// both texts behind a space, one of the old text behind a minus sign, one of the
/// new text behind a plus sign, a modified one as the old line and then the new.
pub proof fn law_every_line_is_shown(before: Seq<DiffLineView>, line: DiffLineView, after: Seq<
    DiffLineView,
>)
    ensures
        unified_lines(before + seq![line] + after) == unified_lines(before) + match line {
            DiffLineView::Equal { text } => " "@ + text + "\n"@,
            DiffLineView::Remove { text } => "-"@ + text + "\n"@,
            DiffLineView::Add { text } => "+"@ + text + "\n"@,
            DiffLineView::Modify { old, new } => "-"@ + segments_text_of(old) + "\n"@ + "+"@
                + segments_text_of(new) + "\n"@,
        } + unified_lines(after),
{
    lemma_lines_add_up(before + seq![line], after);
    lemma_lines_add_up(before, seq![line]);
    let one = seq![line];
    assert(one.drop_last() =~= seq![]);
    assert(unified_lines(one.drop_last()) =~= seq![]);
    assert(unified_lines(one) =~= unified_line(line));
}

/// Every hunk stands in the unified diff, behind a heading that tells its place in
/// both texts.
pub proof fn law_every_hunk_is_shown(hunks: Seq<HunkView>, hunk: HunkView)
    ensures
        ({
            let shown = "@@ -"@ + decimal_of(hunk.old_start as nat) + ","@ + decimal_of(
                hunk.old_count as nat,
            ) + " +"@ + decimal_of(hunk.new_start as nat) + ","@ + decimal_of(
                hunk.new_count as nat,
            ) + " @@\n"@ + unified_lines(hunk.lines);
            unified_of(hunks.push(hunk)) == if hunks.len() == 0 {
                shown
            } else {
                unified_of(hunks) + "\n"@ + shown
            }
        }),
{
    let all = hunks.push(hunk);
    assert(all.drop_last() =~= hunks);
    let shown = "@@ -"@ + decimal_of(hunk.old_start as nat) + ","@ + decimal_of(
        hunk.old_count as nat,
    ) + " +"@ + decimal_of(hunk.new_start as nat) + ","@ + decimal_of(hunk.new_count as nat)
        + " @@\n"@ + unified_lines(hunk.lines);
    if hunks.len() == 0 {
        assert(unified_of(all) =~= shown);
    } else {
        assert(unified_of(all) =~= unified_of(hunks) + "\n"@ + shown);
    }
}

} // verus!
