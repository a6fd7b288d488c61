//! Line diffs of file contents, with the words that changed inside a line.

use vstd::prelude::*;

use crate::shell::capture::sat;
use crate::text::{chars_of, decimal, decimal_of, text_of};

verus! {

/// Number of unchanged lines kept around each hunk's edits.
pub const DIFF_CONTEXT_LINES: usize = 3;

/// What a diff says of a piece of text.
#[derive(Clone, Copy, Debug, PartialEq, Eq, Structural)]
pub enum ChangeKind {
    Equal,
    Delete,
    Insert,
}

/// A piece of text and what the diff says of it.
#[derive(Debug)]
pub struct Change {
    pub kind: ChangeKind,
    pub text: String,
}

/// A run of changes of one sort, with its line ranges in both texts.
#[derive(Debug)]
pub struct ChangeRun {
    pub old_start: usize,
    pub old_end: usize,
    pub new_start: usize,
    pub new_end: usize,
    pub changes: Vec<Change>,
}

/// A change, as mathematics.
pub struct ChangeView {
    pub kind: ChangeKind,
    pub text: Seq<char>,
}

/// A run of changes, as mathematics.
pub struct RunView {
    pub old_start: usize,
    pub old_end: usize,
    pub new_start: usize,
    pub new_end: usize,
    pub changes: Seq<ChangeView>,
}

impl View for Change {
    type V = ChangeView;

    open spec fn view(&self) -> ChangeView {
        ChangeView { kind: self.kind, text: self.text@ }
    }
}

/// The views of a list of changes.
pub open spec fn change_views(changes: Seq<Change>) -> Seq<ChangeView> {
    changes.map_values(|c: Change| c@)
}

impl View for ChangeRun {
    type V = RunView;

    open spec fn view(&self) -> RunView {
        RunView {
            old_start: self.old_start,
            old_end: self.old_end,
            new_start: self.new_start,
            new_end: self.new_end,
            changes: change_views(self.changes@),
        }
    }
}

/// The views of a list of runs.
pub open spec fn run_views(runs: Seq<ChangeRun>) -> Seq<RunView> {
    runs.map_values(|r: ChangeRun| r@)
}

/// The views of a list of groups of runs.
pub open spec fn group_views(groups: Seq<Vec<ChangeRun>>) -> Seq<Seq<RunView>> {
    groups.map_values(|g: Vec<ChangeRun>| run_views(g@))
}

/// The groups of line changes between two texts, with so many unchanged lines
/// around each, as the `similar` crate finds them.
pub uninterp spec fn line_diff(old: Seq<char>, new: Seq<char>, context: nat) -> Seq<Seq<RunView>>;

/// The word changes between two texts, as the `similar` crate finds them.
pub uninterp spec fn word_diff(old: Seq<char>, new: Seq<char>) -> Seq<ChangeView>;

/// `TextDiff::from_lines` of the `similar` crate, its `grouped_ops` and, of
/// each of those, `iter_changes`. Which lines it pairs is not stated here, only
/// that the texts and the context decide it, that no group is empty, that there
/// is none where the texts are the same, and that there is one where they differ.
/// That last is stated of texts whose lines the crate can number in 32 bits. It
/// doubles the context.
#[verifier::external_body]
pub(crate) fn line_changes(old: &str, new: &str, context: usize) -> (groups: Vec<Vec<ChangeRun>>)
    requires
        context <= usize::MAX / 2,
    ensures
        group_views(groups@) == line_diff(old@, new@, context as nat),
        forall|i: int| 0 <= i < groups@.len() ==> (#[trigger] groups@[i])@.len() > 0,
        old@ == new@ ==> groups@.len() == 0,
        old@ != new@ && old@.len() + new@.len() <= u32::MAX ==> groups@.len() > 0,
{
    let diff = similar::TextDiff::from_lines(old, new);
    let run = |op: &similar::DiffOp| ChangeRun {
        old_start: op.old_range().start,
        old_end: op.old_range().end,
        new_start: op.new_range().start,
        new_end: op.new_range().end,
        changes: diff.iter_changes(op).map(|c| Change {
            kind: match c.tag() {
                similar::ChangeTag::Equal => ChangeKind::Equal,
                similar::ChangeTag::Delete => ChangeKind::Delete,
                similar::ChangeTag::Insert => ChangeKind::Insert,
            }, text: c.value().to_owned() }).collect(),
    };
    diff.grouped_ops(context).iter().map(|group| group.iter().map(run).collect()).collect()
}

/// `TextDiff::from_words` of the `similar` crate and its `iter_all_changes` (the
/// crate's `text/mod.rs`). Which words it pairs is not stated here, only that the
/// texts decide it: no deadline is set, so the clock has no part in it.
#[verifier::external_body]
pub(crate) fn word_changes(old: &str, new: &str) -> (changes: Vec<Change>)
    ensures
        change_views(changes@) == word_diff(old@, new@),
{
    similar::TextDiff::from_words(old, new).iter_all_changes().map(|c| Change {
        kind: match c.tag() {
            similar::ChangeTag::Equal => ChangeKind::Equal,
            similar::ChangeTag::Delete => ChangeKind::Delete,
            similar::ChangeTag::Insert => ChangeKind::Insert,
        }, text: c.value().to_owned() }).collect()
}

/// A part of a modified line.
#[derive(Debug)]
pub enum DiffSegment {
    Equal { text: String },
    Remove { text: String },
    Add { text: String },
}

/// A line of a hunk.
#[derive(Debug)]
pub enum DiffLine {
    Equal { text: String },
    Remove { text: String },
    Add { text: String },
    Modify { old: Vec<DiffSegment>, new: Vec<DiffSegment> },
}

/// Lines that changed together, with those around them.
#[derive(Debug)]
pub struct DiffHunk {
    pub old_start: u32,
    pub old_count: u32,
    pub new_start: u32,
    pub new_count: u32,
    pub lines: Vec<DiffLine>,
}

/// The difference between two file contents.
#[derive(Debug)]
pub struct DiffSummary {
    pub added: usize,
    pub removed: usize,
    pub hunks: Vec<DiffHunk>,
}

/// A part of a modified line, as mathematics.
pub enum SegmentView {
    Equal { text: Seq<char> },
    Remove { text: Seq<char> },
    Add { text: Seq<char> },
}

/// A line of a hunk, as mathematics.
pub enum DiffLineView {
    Equal { text: Seq<char> },
    Remove { text: Seq<char> },
    Add { text: Seq<char> },
    Modify { old: Seq<SegmentView>, new: Seq<SegmentView> },
}

/// A hunk, as mathematics.
pub struct HunkView {
    pub old_start: u32,
    pub old_count: u32,
    pub new_start: u32,
    pub new_count: u32,
    pub lines: Seq<DiffLineView>,
}

/// A difference, as mathematics.
pub struct SummaryView {
    pub added: usize,
    pub removed: usize,
    pub hunks: Seq<HunkView>,
}

impl View for DiffSegment {
    type V = SegmentView;

    open spec fn view(&self) -> SegmentView {
        match self {
            DiffSegment::Equal { text } => SegmentView::Equal { text: text@ },
            DiffSegment::Remove { text } => SegmentView::Remove { text: text@ },
            DiffSegment::Add { text } => SegmentView::Add { text: text@ },
        }
    }
}

/// The views of a list of segments.
pub open spec fn segment_views(segments: Seq<DiffSegment>) -> Seq<SegmentView> {
    segments.map_values(|s: DiffSegment| s@)
}

impl View for DiffLine {
    type V = DiffLineView;

    open spec fn view(&self) -> DiffLineView {
        match self {
            DiffLine::Equal { text } => DiffLineView::Equal { text: text@ },
            DiffLine::Remove { text } => DiffLineView::Remove { text: text@ },
            DiffLine::Add { text } => DiffLineView::Add { text: text@ },
            DiffLine::Modify { old, new } => DiffLineView::Modify {
                old: segment_views(old@),
                new: segment_views(new@),
            },
        }
    }
}

/// The views of a list of lines.
pub open spec fn diff_line_views(lines: Seq<DiffLine>) -> Seq<DiffLineView> {
    lines.map_values(|l: DiffLine| l@)
}

impl View for DiffHunk {
    type V = HunkView;

    open spec fn view(&self) -> HunkView {
        HunkView {
            old_start: self.old_start,
            old_count: self.old_count,
            new_start: self.new_start,
            new_count: self.new_count,
            lines: diff_line_views(self.lines@),
        }
    }
}

/// The views of a list of hunks.
pub open spec fn hunk_views(hunks: Seq<DiffHunk>) -> Seq<HunkView> {
    hunks.map_values(|h: DiffHunk| h@)
}

impl View for DiffSummary {
    type V = SummaryView;

    open spec fn view(&self) -> SummaryView {
        SummaryView { added: self.added, removed: self.removed, hunks: hunk_views(self.hunks@) }
    }
}

/// A line without its ending.
pub open spec fn without_eol(line: Seq<char>) -> Seq<char> {
    let n = line.len() as int;
    if n >= 2 && line[n - 2] == '\r' && line[n - 1] == '\n' {
        line.take(n - 2)
    } else if n >= 1 && line[n - 1] == '\n' {
        line.take(n - 1)
    } else {
        line
    }
}

/// Removes a line's ending.
pub fn strip_eol(s: &str) -> (line: String)
    ensures
        line@ == without_eol(s@),
{
    let chars = chars_of(s);
    let n: usize = chars.len();
    let end: usize = if n >= 2 && chars[n - 2] == '\r' && chars[n - 1] == '\n' {
        n - 2
    } else if n >= 1 && chars[n - 1] == '\n' {
        n - 1
    } else {
        n
    };
    let line = text_of(&chars, 0, end);
    assert(line@ =~= without_eol(s@));
    line
}

/// A line of a hunk before the words inside modified lines are compared.
#[derive(Debug)]
pub enum PairedLine {
    Equal { text: String },
    Remove { text: String },
    Add { text: String },
    /// A removed line with the line added in its place.
    Pair { old: String, new: String },
}

/// A paired line, as mathematics.
pub enum PairedView {
    Equal { text: Seq<char> },
    Remove { text: Seq<char> },
    Add { text: Seq<char> },
    Pair { old: Seq<char>, new: Seq<char> },
}

impl View for PairedLine {
    type V = PairedView;

    open spec fn view(&self) -> PairedView {
        match self {
            PairedLine::Equal { text } => PairedView::Equal { text: text@ },
            PairedLine::Remove { text } => PairedView::Remove { text: text@ },
            PairedLine::Add { text } => PairedView::Add { text: text@ },
            PairedLine::Pair { old, new } => PairedView::Pair { old: old@, new: new@ },
        }
    }
}

/// The views of a list of paired lines.
pub open spec fn paired_views(lines: Seq<PairedLine>) -> Seq<PairedView> {
    lines.map_values(|l: PairedLine| l@)
}

/// The lines so far, with the removed line that waits for the next change as a
/// plain removal.
pub open spec fn settled(lines: Seq<PairedView>, waiting: Option<Seq<char>>) -> Seq<PairedView> {
    match waiting {
        Some(text) => lines.push(PairedView::Remove { text }),
        None => lines,
    }
}

/// The changes as lines, and the removed line that waits for the next change:
/// a line added right after it makes a pair with it.
pub open spec fn pairing(changes: Seq<ChangeView>) -> (Seq<PairedView>, Option<Seq<char>>)
    decreases changes.len(),
{
    if changes.len() == 0 {
        (seq![], None)
    } else {
        let (lines, waiting) = pairing(changes.drop_last());
        let text = without_eol(changes.last().text);
        match changes.last().kind {
            ChangeKind::Equal => (settled(lines, waiting).push(PairedView::Equal { text }), None),
            ChangeKind::Delete => (settled(lines, waiting), Some(text)),
            ChangeKind::Insert => match waiting {
                Some(old) => (lines.push(PairedView::Pair { old, new: text }), None),
                None => (lines.push(PairedView::Add { text }), None),
            },
        }
    }
}

/// The changes as lines.
pub open spec fn paired(changes: Seq<ChangeView>) -> Seq<PairedView> {
    settled(pairing(changes).0, pairing(changes).1)
}

/// The changes of all runs of a group, in order.
pub open spec fn all_changes(runs: Seq<RunView>) -> Seq<ChangeView>
    decreases runs.len(),
{
    if runs.len() == 0 {
        seq![]
    } else {
        all_changes(runs.drop_last()) + runs.last().changes
    }
}

/// How many of the changes are of one kind.
pub open spec fn count_kind(changes: Seq<ChangeView>, kind: ChangeKind) -> nat
    decreases changes.len(),
{
    if changes.len() == 0 {
        0
    } else {
        count_kind(changes.drop_last(), kind) + if changes.last().kind == kind {
            1nat
        } else {
            0nat
        }
    }
}

/// Puts a line behind the lines.
fn push_paired(lines: &mut Vec<PairedLine>, line: PairedLine)
    ensures
        paired_views(final(lines)@) == paired_views(old(lines)@).push(line@),
{
    let ghost before = lines@;
    lines.push(line);
    assert(paired_views(lines@) =~= paired_views(before).push(line@));
}

/// Settles the removed line that waits.
fn settle(lines: &mut Vec<PairedLine>, waiting: &mut Option<String>)
    ensures
        paired_views(final(lines)@) == settled(
            paired_views(old(lines)@),
            crate::text::opt_view(*old(waiting)),
        ),
        *final(waiting) is None,
{
    if let Some(text) = waiting.take() {
        push_paired(lines, PairedLine::Remove { text });
    }
}

/// The changes of a group as lines: an addition right after a removal makes a
/// pair with it, and every other change stands alone.
pub fn pair_changes(runs: &Vec<ChangeRun>) -> (lines: Vec<PairedLine>)
    ensures
        paired_views(lines@) == paired(all_changes(run_views(runs@))),
{
    let mut lines: Vec<PairedLine> = Vec::new();
    let mut waiting: Option<String> = None;
    let ghost all = run_views(runs@);
    let mut i: usize = 0;
    assert(paired_views(lines@) =~= seq![]);
    assert(all.take(0) =~= seq![]);
    while i < runs.len()
        invariant
            i <= runs@.len(),
            all == run_views(runs@),
            pairing(all_changes(all.take(i as int))) == (
                paired_views(lines@),
                crate::text::opt_view(waiting),
            ),
        decreases runs.len() - i,
    {
        let changes = &runs[i].changes;
        let ghost start = all_changes(all.take(i as int));
        let ghost added = change_views(changes@);
        let mut k: usize = 0;
        assert(start + added.take(0) =~= start);
        while k < changes.len()
            invariant
                k <= changes@.len(),
                added == change_views(changes@),
                pairing(start + added.take(k as int)) == (
                    paired_views(lines@),
                    crate::text::opt_view(waiting),
                ),
            decreases changes.len() - k,
        {
            let change = &changes[k];
            let text = strip_eol(change.text.as_str());
            assert((start + added.take(k + 1)).drop_last() =~= start + added.take(k as int));
            assert((start + added.take(k + 1)).last() == change@);
            match change.kind {
                ChangeKind::Equal => {
                    settle(&mut lines, &mut waiting);
                    push_paired(&mut lines, PairedLine::Equal { text });
                },
                ChangeKind::Delete => {
                    settle(&mut lines, &mut waiting);
                    waiting = Some(text);
                },
                ChangeKind::Insert => {
                    match waiting.take() {
                        Some(old) => push_paired(&mut lines, PairedLine::Pair { old, new: text }),
                        None => push_paired(&mut lines, PairedLine::Add { text }),
                    }
                },
            }
            k += 1;
        }
        assert(added.take(k as int) =~= added);
        assert(all.take(i + 1).drop_last() =~= all.take(i as int));
        assert(all.take(i + 1).last() == runs@[i as int]@);
        i += 1;
    }
    assert(all.take(i as int) =~= all);
    settle(&mut lines, &mut waiting);
    lines
}

/// The parts of the old line: what the words say is equal or removed.
pub open spec fn old_segments(changes: Seq<ChangeView>) -> Seq<SegmentView>
    decreases changes.len(),
{
    if changes.len() == 0 {
        seq![]
    } else {
        let before = old_segments(changes.drop_last());
        match changes.last().kind {
            ChangeKind::Equal => before.push(SegmentView::Equal { text: changes.last().text }),
            ChangeKind::Delete => before.push(SegmentView::Remove { text: changes.last().text }),
            ChangeKind::Insert => before,
        }
    }
}

/// The parts of the new line: what the words say is equal or added.
pub open spec fn new_segments(changes: Seq<ChangeView>) -> Seq<SegmentView>
    decreases changes.len(),
{
    if changes.len() == 0 {
        seq![]
    } else {
        let before = new_segments(changes.drop_last());
        match changes.last().kind {
            ChangeKind::Equal => before.push(SegmentView::Equal { text: changes.last().text }),
            ChangeKind::Insert => before.push(SegmentView::Add { text: changes.last().text }),
            ChangeKind::Delete => before,
        }
    }
}

/// A modified line made of word changes.
pub open spec fn modified(changes: Seq<ChangeView>) -> DiffLineView {
    DiffLineView::Modify { old: old_segments(changes), new: new_segments(changes) }
}

/// Puts a segment behind the segments.
fn push_segment(segments: &mut Vec<DiffSegment>, segment: DiffSegment)
    ensures
        segment_views(final(segments)@) == segment_views(old(segments)@).push(segment@),
{
    let ghost before = segments@;
    segments.push(segment);
    assert(segment_views(segments@) =~= segment_views(before).push(segment@));
}

/// A modified line made of word changes.
pub fn modify_line(changes: &Vec<Change>) -> (line: DiffLine)
    ensures
        line@ == modified(change_views(changes@)),
{
    let mut old: Vec<DiffSegment> = Vec::new();
    let mut new: Vec<DiffSegment> = Vec::new();
    let ghost all = change_views(changes@);
    let mut i: usize = 0;
    assert(segment_views(old@) =~= seq![]);
    assert(segment_views(new@) =~= seq![]);
    while i < changes.len()
        invariant
            i <= changes@.len(),
            all == change_views(changes@),
            segment_views(old@) == old_segments(all.take(i as int)),
            segment_views(new@) == new_segments(all.take(i as int)),
        decreases changes.len() - i,
    {
        assert(all.take(i + 1).drop_last() =~= all.take(i as int));
        assert(all.take(i + 1).last() == changes@[i as int]@);
        let change = &changes[i];
        match change.kind {
            ChangeKind::Equal => {
                push_segment(&mut old, DiffSegment::Equal { text: change.text.clone() });
                push_segment(&mut new, DiffSegment::Equal { text: change.text.clone() });
            },
            ChangeKind::Delete => {
                push_segment(&mut old, DiffSegment::Remove { text: change.text.clone() });
            },
            ChangeKind::Insert => {
                push_segment(&mut new, DiffSegment::Add { text: change.text.clone() });
            },
        }
        i += 1;
    }
    assert(all.take(i as int) =~= all);
    DiffLine::Modify { old, new }
}

/// A removed line and the line added in its place, compared word by word.
pub fn make_modify(old: &str, new: &str) -> (line: DiffLine)
    ensures
        line@ == modified(word_diff(old@, new@)),
{
    modify_line(&word_changes(old, new))
}

/// A paired line as a line of a hunk.
pub open spec fn diff_line(line: PairedView) -> DiffLineView {
    match line {
        PairedView::Equal { text } => DiffLineView::Equal { text },
        PairedView::Remove { text } => DiffLineView::Remove { text },
        PairedView::Add { text } => DiffLineView::Add { text },
        PairedView::Pair { old, new } => modified(word_diff(old, new)),
    }
}

/// A number of lines or a line number, in 32 bits.
pub open spec fn low32(n: int) -> u32 {
    (n % 0x1_0000_0000) as u32
}

/// The hunk of a group of runs. Lines are numbered from one.
pub open spec fn hunk_of(runs: Seq<RunView>) -> HunkView
    recommends
        runs.len() > 0,
{
    HunkView {
        old_start: low32(runs[0].old_start + 1),
        old_count: low32(runs.last().old_end - runs[0].old_start),
        new_start: low32(runs[0].new_start + 1),
        new_count: low32(runs.last().new_end - runs[0].new_start),
        lines: paired(all_changes(runs)).map_values(|l: PairedView| diff_line(l)),
    }
}

/// The difference that groups of runs make: a hunk for every group with
/// something in it, and counts of the lines added and removed.
pub open spec fn summary_of(groups: Seq<Seq<RunView>>) -> SummaryView
    decreases groups.len(),
{
    if groups.len() == 0 {
        SummaryView { added: 0, removed: 0, hunks: seq![] }
    } else {
        let before = summary_of(groups.drop_last());
        let runs = groups.last();
        if runs.len() == 0 {
            before
        } else {
            SummaryView {
                added: sat(before.added + count_kind(all_changes(runs), ChangeKind::Insert)),
                removed: sat(before.removed + count_kind(all_changes(runs), ChangeKind::Delete)),
                hunks: before.hunks.push(hunk_of(runs)),
            }
        }
    }
}

/// How many of a group's changes are of one kind.
fn count_changes(runs: &Vec<ChangeRun>, kind: ChangeKind) -> (n: usize)
    ensures
        n == sat(count_kind(all_changes(run_views(runs@)), kind) as int),
{
    let ghost all = run_views(runs@);
    let mut n: usize = 0;
    let mut i: usize = 0;
    while i < runs.len()
        invariant
            i <= runs@.len(),
            all == run_views(runs@),
            n == sat(count_kind(all_changes(all.take(i as int)), kind) as int),
        decreases runs.len() - i,
    {
        let changes = &runs[i].changes;
        let ghost start = all_changes(all.take(i as int));
        let ghost added = change_views(changes@);
        let mut k: usize = 0;
        assert(start + added.take(0) =~= start);
        while k < changes.len()
            invariant
                k <= changes@.len(),
                added == change_views(changes@),
                n == sat(count_kind(start + added.take(k as int), kind) as int),
            decreases changes.len() - k,
        {
            assert((start + added.take(k + 1)).drop_last() =~= start + added.take(k as int));
            assert((start + added.take(k + 1)).last() == changes@[k as int]@);
            if changes[k].kind == kind {
                n = n.saturating_add(1);
            }
            k += 1;
        }
        assert(added.take(k as int) =~= added);
        assert(all.take(i + 1).drop_last() =~= all.take(i as int));
        assert(all.take(i + 1).last() == runs@[i as int]@);
        i += 1;
    }
    assert(all.take(i as int) =~= all);
    n
}

/// The low 32 bits of a difference.
fn low_difference(a: usize, b: usize) -> (n: u32)
    ensures
        n == low32(a - b),
{
    let d: i128 = a as i128 - b as i128;
    let low: i128 = d % 4294967296i128;
    if low < 0 {
        (low + 4294967296i128) as u32
    } else {
        low as u32
    }
}

/// The hunk of a group of runs.
pub fn make_hunk(runs: &Vec<ChangeRun>) -> (hunk: DiffHunk)
    requires
        runs@.len() > 0,
    ensures
        hunk@ == hunk_of(run_views(runs@)),
{
    let first = &runs[0];
    let last = &runs[runs.len() - 1];
    let ghost all = run_views(runs@);
    assert(all[0] == first@);
    assert(all.last() == last@);
    let lines = pair_changes(runs);
    let ghost pairs = paired_views(lines@);
    let mut out: Vec<DiffLine> = Vec::new();
    let mut i: usize = 0;
    assert(diff_line_views(out@) =~= pairs.take(0).map_values(|l: PairedView| diff_line(l)));
    while i < lines.len()
        invariant
            i <= lines@.len(),
            pairs == paired_views(lines@),
            diff_line_views(out@) == pairs.take(i as int).map_values(
                |l: PairedView| diff_line(l),
            ),
        decreases lines.len() - i,
    {
        let line = match &lines[i] {
            PairedLine::Equal { text } => DiffLine::Equal { text: text.clone() },
            PairedLine::Remove { text } => DiffLine::Remove { text: text.clone() },
            PairedLine::Add { text } => DiffLine::Add { text: text.clone() },
            PairedLine::Pair { old, new } => make_modify(old.as_str(), new.as_str()),
        };
        let ghost before = out@;
        out.push(line);
        assert(line@ == diff_line(pairs[i as int]));
        assert(diff_line_views(out@) =~= diff_line_views(before).push(line@));
        i += 1;
        assert(diff_line_views(out@) =~= pairs.take(i as int).map_values(
            |l: PairedView| diff_line(l),
        ));
    }
    assert(pairs.take(i as int) =~= pairs);
    let old_start: u32 = low_difference(first.old_start, 0).wrapping_add(1);
    let new_start: u32 = low_difference(first.new_start, 0).wrapping_add(1);
    DiffHunk {
        old_start,
        old_count: low_difference(last.old_end, first.old_start),
        new_start,
        new_count: low_difference(last.new_end, first.new_start),
        lines: out,
    }
}

/// The difference that groups of runs make.
pub fn summarize(groups: &Vec<Vec<ChangeRun>>) -> (summary: DiffSummary)
    ensures
        summary@ == summary_of(group_views(groups@)),
{
    let mut added: usize = 0;
    let mut removed: usize = 0;
    let mut hunks: Vec<DiffHunk> = Vec::new();
    let ghost all = group_views(groups@);
    let mut i: usize = 0;
    assert(all.take(0) =~= seq![]);
    assert(hunk_views(hunks@) =~= seq![]);
    while i < groups.len()
        invariant
            i <= groups@.len(),
            all == group_views(groups@),
            summary_of(all.take(i as int)) == (SummaryView {
                added,
                removed,
                hunks: hunk_views(hunks@),
            }),
        decreases groups.len() - i,
    {
        assert(all.take(i + 1).drop_last() =~= all.take(i as int));
        assert(all.take(i + 1).last() == run_views(groups@[i as int]@));
        let runs = &groups[i];
        if !runs.is_empty() {
            added = added.saturating_add(count_changes(runs, ChangeKind::Insert));
            removed = removed.saturating_add(count_changes(runs, ChangeKind::Delete));
            let hunk = make_hunk(runs);
            let ghost before = hunks@;
            hunks.push(hunk);
            assert(hunk_views(hunks@) =~= hunk_views(before).push(hunk@));
        }
        i += 1;
    }
    assert(all.take(i as int) =~= all);
    DiffSummary { added, removed, hunks }
}

/// The difference between two file contents.
pub fn compute_diff(old: &str, new: &str) -> (summary: DiffSummary)
    ensures
        summary@ == summary_of(line_diff(old@, new@, DIFF_CONTEXT_LINES as nat)),
        old@ == new@ ==> summary@.hunks.len() == 0,
        old@ != new@ && old@.len() + new@.len() <= u32::MAX ==> summary@.hunks.len() > 0,
{
    let groups = line_changes(old, new, DIFF_CONTEXT_LINES);
    proof {
        let all = group_views(groups@);
        assert forall|i: int| 0 <= i < all.len() implies (#[trigger] all[i]).len() > 0 by {
            assert(groups@[i]@.len() > 0);
        }
        lemma_hunk_per_group(all);
    }
    summarize(&groups)
}

/// There is a hunk for each group that is not empty.
proof fn lemma_hunk_per_group(groups: Seq<Seq<RunView>>)
    requires
        forall|i: int| 0 <= i < groups.len() ==> (#[trigger] groups[i]).len() > 0,
    ensures
        summary_of(groups).hunks.len() == groups.len(),
    decreases groups.len(),
{
    if groups.len() > 0 {
        let before = groups.drop_last();
        assert forall|i: int| 0 <= i < before.len() implies (#[trigger] before[i]).len() > 0 by {
            assert(before[i] == groups[i]);
        }
        lemma_hunk_per_group(before);
    }
}

/// The text of segments, one after another.
pub open spec fn segments_text_of(segments: Seq<SegmentView>) -> Seq<char>
    decreases segments.len(),
{
    if segments.len() == 0 {
        seq![]
    } else {
        segments_text_of(segments.drop_last()) + match segments.last() {
            SegmentView::Equal { text } => text,
            SegmentView::Remove { text } => text,
            SegmentView::Add { text } => text,
        }
    }
}

/// The text of segments, one after another.
pub fn segments_text(segments: &Vec<DiffSegment>) -> (text: String)
    ensures
        text@ == segments_text_of(segment_views(segments@)),
{
    let mut out = String::new();
    let ghost all = segment_views(segments@);
    let mut i: usize = 0;
    assert(out@ =~= seq![]);
    while i < segments.len()
        invariant
            i <= segments@.len(),
            all == segment_views(segments@),
            out@ == segments_text_of(all.take(i as int)),
        decreases segments.len() - i,
    {
        assert(all.take(i + 1).drop_last() =~= all.take(i as int));
        assert(all.take(i + 1).last() == segments@[i as int]@);
        match &segments[i] {
            DiffSegment::Equal { text } => out.append(text.as_str()),
            DiffSegment::Remove { text } => out.append(text.as_str()),
            DiffSegment::Add { text } => out.append(text.as_str()),
        }
        i += 1;
    }
    assert(all.take(i as int) =~= all);
    out
}

/// A line of a unified diff; a modified line gives two.
pub open spec fn unified_line(line: DiffLineView) -> Seq<char> {
    match line {
        DiffLineView::Equal { text } => " "@ + text + "\n"@,
        DiffLineView::Remove { text } => "-"@ + text + "\n"@,
        DiffLineView::Add { text } => "+"@ + text + "\n"@,
        DiffLineView::Modify { old, new } => "-"@ + segments_text_of(old) + "\n"@ + "+"@
            + segments_text_of(new) + "\n"@,
    }
}

/// The lines of a hunk in a unified diff.
pub open spec fn unified_lines(lines: Seq<DiffLineView>) -> Seq<char>
    decreases lines.len(),
{
    if lines.len() == 0 {
        seq![]
    } else {
        unified_lines(lines.drop_last()) + unified_line(lines.last())
    }
}

/// The heading of a hunk.
pub open spec fn hunk_heading(hunk: HunkView) -> Seq<char> {
    "@@ -"@ + decimal_of(hunk.old_start as nat) + ","@ + decimal_of(hunk.old_count as nat) + " +"@
        + decimal_of(hunk.new_start as nat) + ","@ + decimal_of(hunk.new_count as nat) + " @@\n"@
}

/// Hunks as a unified diff, with an empty line between any two.
pub open spec fn unified_of(hunks: Seq<HunkView>) -> Seq<char>
    decreases hunks.len(),
{
    if hunks.len() == 0 {
        seq![]
    } else {
        let before = if hunks.len() == 1 {
            seq![]
        } else {
            unified_of(hunks.drop_last()) + "\n"@
        };
        before + hunk_heading(hunks.last()) + unified_lines(hunks.last().lines)
    }
}

/// One line of a unified diff.
fn unified_line_text(line: &DiffLine) -> (text: String)
    ensures
        text@ == unified_line(line@),
{
    match line {
        DiffLine::Equal { text } => signed_line(" ", text.as_str()),
        DiffLine::Remove { text } => signed_line("-", text.as_str()),
        DiffLine::Add { text } => signed_line("+", text.as_str()),
        DiffLine::Modify { old, new } => {
            let mut out = signed_line("-", segments_text(old).as_str());
            out.append("+");
            out.append(segments_text(new).as_str());
            out.append("\n");
            out
        },
    }
}

/// A line of a unified diff with its sign.
fn signed_line(sign: &str, text: &str) -> (line: String)
    ensures
        line@ == sign@ + text@ + "\n"@,
{
    let mut line = sign.to_owned();
    line.append(text);
    line.append("\n");
    line
}

/// The difference as a unified diff, where there is one.
pub fn unified_diff(summary: &DiffSummary) -> (text: Option<String>)
    ensures
        match text {
            Some(text) => summary@.hunks.len() > 0 && text@ == unified_of(summary@.hunks),
            None => summary@.hunks.len() == 0,
        },
{
    if summary.hunks.is_empty() {
        return None;
    }
    let mut out = String::new();
    let ghost all = hunk_views(summary.hunks@);
    let mut i: usize = 0;
    assert(out@ =~= seq![]);
    while i < summary.hunks.len()
        invariant
            i <= summary.hunks@.len(),
            all == hunk_views(summary.hunks@),
            out@ == unified_of(all.take(i as int)),
        decreases summary.hunks.len() - i,
    {
        let hunk = &summary.hunks[i];
        assert(all.take(i + 1).drop_last() =~= all.take(i as int));
        assert(all.take(i + 1).last() == hunk@);
        if i > 0 {
            out.append("\n");
        }
        let ghost before = out@;
        out.append("@@ -");
        out.append(decimal(hunk.old_start as u64).as_str());
        out.append(",");
        out.append(decimal(hunk.old_count as u64).as_str());
        out.append(" +");
        out.append(decimal(hunk.new_start as u64).as_str());
        out.append(",");
        out.append(decimal(hunk.new_count as u64).as_str());
        out.append(" @@\n");
        let ghost headed = out@;
        assert(headed =~= before + hunk_heading(hunk@));
        let ghost lines = diff_line_views(hunk.lines@);
        let mut k: usize = 0;
        assert(headed + unified_lines(lines.take(0)) =~= headed);
        while k < hunk.lines.len()
            invariant
                k <= hunk.lines@.len(),
                lines == diff_line_views(hunk.lines@),
                out@ == headed + unified_lines(lines.take(k as int)),
            decreases hunk.lines.len() - k,
        {
            assert(lines.take(k + 1).drop_last() =~= lines.take(k as int));
            assert(lines.take(k + 1).last() == hunk.lines@[k as int]@);
            out.append(unified_line_text(&hunk.lines[k]).as_str());
            k += 1;
            assert(out@ =~= headed + unified_lines(lines.take(k as int)));
        }
        assert(lines.take(k as int) =~= lines);
        if i == 0 {
            assert(before =~= seq![]);
        }
        assert(out@ =~= unified_of(all.take(i + 1)));
        i += 1;
    }
    assert(all.take(i as int) =~= all);
    Some(out)
}

/// Copies of segments.
fn copy_segments(segments: &Vec<DiffSegment>) -> (copies: Vec<DiffSegment>)
    ensures
        segment_views(copies@) == segment_views(segments@),
{
    let mut out: Vec<DiffSegment> = Vec::new();
    let mut i: usize = 0;
    assert(segment_views(out@) =~= segment_views(segments@).take(0));
    while i < segments.len()
        invariant
            i <= segments@.len(),
            segment_views(out@) == segment_views(segments@).take(i as int),
        decreases segments.len() - i,
    {
        let segment = match &segments[i] {
            DiffSegment::Equal { text } => DiffSegment::Equal { text: text.clone() },
            DiffSegment::Remove { text } => DiffSegment::Remove { text: text.clone() },
            DiffSegment::Add { text } => DiffSegment::Add { text: text.clone() },
        };
        push_segment(&mut out, segment);
        i += 1;
        assert(segment_views(out@) =~= segment_views(segments@).take(i as int));
    }
    assert(segment_views(segments@).take(i as int) =~= segment_views(segments@));
    out
}

impl DiffLine {
    /// A copy of the line.
    pub fn copy(&self) -> (line: DiffLine)
        ensures
            line@ == self@,
    {
        match self {
            DiffLine::Equal { text } => DiffLine::Equal { text: text.clone() },
            DiffLine::Remove { text } => DiffLine::Remove { text: text.clone() },
            DiffLine::Add { text } => DiffLine::Add { text: text.clone() },
            DiffLine::Modify { old, new } => DiffLine::Modify {
                old: copy_segments(old),
                new: copy_segments(new),
            },
        }
    }
}

impl DiffHunk {
    /// A copy of the hunk.
    pub fn copy(&self) -> (hunk: DiffHunk)
        ensures
            hunk@ == self@,
    {
        let mut out: Vec<DiffLine> = Vec::new();
        let mut i: usize = 0;
        assert(diff_line_views(out@) =~= self@.lines.take(0));
        while i < self.lines.len()
            invariant
                i <= self.lines@.len(),
                diff_line_views(out@) == self@.lines.take(i as int),
            decreases self.lines.len() - i,
        {
            let ghost before = out@;
            let line = self.lines[i].copy();
            out.push(line);
            assert(diff_line_views(out@) =~= diff_line_views(before).push(line@));
            i += 1;
            assert(diff_line_views(out@) =~= self@.lines.take(i as int));
        }
        assert(self@.lines.take(i as int) =~= self@.lines);
        DiffHunk {
            old_start: self.old_start,
            old_count: self.old_count,
            new_start: self.new_start,
            new_count: self.new_count,
            lines: out,
        }
    }
}

impl DiffSummary {
    /// A copy of the difference.
    pub fn copy(&self) -> (summary: DiffSummary)
        ensures
            summary@ == self@,
    {
        let mut out: Vec<DiffHunk> = Vec::new();
        let mut i: usize = 0;
        assert(hunk_views(out@) =~= self@.hunks.take(0));
        while i < self.hunks.len()
            invariant
                i <= self.hunks@.len(),
                hunk_views(out@) == self@.hunks.take(i as int),
            decreases self.hunks.len() - i,
        {
            let ghost before = out@;
            let hunk = self.hunks[i].copy();
            out.push(hunk);
            assert(hunk_views(out@) =~= hunk_views(before).push(hunk@));
            i += 1;
            assert(hunk_views(out@) =~= self@.hunks.take(i as int));
        }
        assert(self@.hunks.take(i as int) =~= self@.hunks);
        DiffSummary { added: self.added, removed: self.removed, hunks: out }
    }
}

} // verus!
