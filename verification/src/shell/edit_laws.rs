//! Laws of the `edit` and `write` tools.

use vstd::prelude::*;

use crate::shell::edit::{
    all_edits, apart, edit_planned, edit_result, edited, first_match, law_edits_never_overlap,
    matches_in, offset_of, one_edit, placed, sorted_changes, spliced, starts_of, starts_upto,
    write_planned, write_result, Change,
};
use crate::shell::diff::{unified_of, SummaryView};
use crate::text::stands_at;
use crate::value::{field, int_field, lemma_first_entry, text_field, Cbor};

verus! {

/// Whether an edit asks for one text in place of another and for nothing else.
pub open spec fn is_plain_edit(edit: Cbor, old_text: Seq<char>, new_text: Seq<char>) -> bool {
    &&& text_field(edit, "oldText"@) == Some(old_text)
    &&& text_field(edit, "newText"@) == Some(new_text)
    &&& int_field(edit, "max_matches"@) is None
    &&& int_field(edit, "start_line"@) is None
    &&& int_field(edit, "end_line"@) is None
}

/// Where the lines of a text start.
proof fn lemma_starts_in_text(text: Seq<char>, n: int)
    requires
        0 <= n <= text.len(),
    ensures
        1 <= starts_upto(text, n).len() <= n + 1,
        starts_upto(text, n)[0] == 0,
        forall|i: int|
            0 <= i < starts_upto(text, n).len() ==> 0 <= #[trigger] starts_upto(text, n)[i] <= n,
    decreases n,
{
    if n > 0 {
        lemma_starts_in_text(text, n - 1);
    }
}

/// The first place of a pattern.
proof fn lemma_first_match(text: Seq<char>, pattern: Seq<char>, from: int, to: int, p: int)
    requires
        0 <= from <= p,
        p + pattern.len() <= to <= text.len(),
        pattern.len() > 0,
        stands_at(text, pattern, p),
        forall|q: int| from <= q < p ==> !stands_at(text, pattern, q),
    ensures
        first_match(text, pattern, from, to) == Some(p),
    decreases p - from,
{
    if from < p {
        lemma_first_match(text, pattern, from + 1, to, p);
    }
}

proof fn lemma_no_match(text: Seq<char>, pattern: Seq<char>, from: int, to: int)
    requires
        0 <= from,
        to <= text.len(),
        forall|q: int| from <= q && q + pattern.len() <= to ==> !stands_at(text, pattern, q),
    ensures
        first_match(text, pattern, from, to) is None,
    decreases to - from,
{
    if from + pattern.len() <= to && pattern.len() > 0 {
        assert(!stands_at(text, pattern, from));
        lemma_no_match(text, pattern, from + 1, to);
    }
}

/// An edit that names a text and another puts the other in the place where the text
/// stands first, word for word, and leaves everything around it as it was.
pub proof fn law_edit_replaces_word_for_word(
    text: Seq<char>,
    edit: Cbor,
    old_text: Seq<char>,
    new_text: Seq<char>,
    p: int,
)
    requires
        text.len() + 2 <= usize::MAX,
        is_plain_edit(edit, old_text, new_text),
        old_text.len() > 0,
        stands_at(text, old_text, p),
        forall|q: int| 0 <= q < p ==> !stands_at(text, old_text, q),
    ensures
        edited(text, seq![edit]) == Ok::<(Seq<char>, nat), Seq<char>>(
            (text.take(p) + new_text + text.skip(p + old_text.len()), 1nat),
        ),
{
    lemma_starts_in_text(text, text.len() as int);
    let end = starts_of(text).len() as int + 1;
    assert(offset_of(text, 1) == 0);
    assert(offset_of(text, end) == text.len());
    lemma_first_match(text, old_text, 0, text.len() as int, p);
    let change = Change { start: p, end: p + old_text.len(), text: new_text };
    assert(matches_in(
        text,
        old_text,
        p + old_text.len(),
        text.len() as int,
        0,
    ) =~= seq![]);
    assert(matches_in(text, old_text, 0, text.len() as int, 1) =~= seq![p]) by {
        reveal_with_fuel(matches_in, 2);
    }
    assert(one_edit(text, edit) is Ok);
    assert(one_edit(text, edit)->Ok_0 =~= seq![change]);
    lemma_one_change(text, edit, change);
}

/// What a single replacement makes of a text.
proof fn lemma_one_change(text: Seq<char>, edit: Cbor, change: Change)
    requires
        one_edit(text, edit) == Ok::<Seq<Change>, Seq<char>>(seq![change]),
    ensures
        edited(text, seq![edit]) == Ok::<(Seq<char>, nat), Seq<char>>(
            (text.take(change.start) + change.text + text.skip(change.end), 1nat),
        ),
{
    let edits = seq![edit];
    let none = Seq::<Change>::empty();
    assert(edits.drop_last() =~= seq![]);
    assert(all_edits(text, edits.drop_last()) == Ok::<Seq<Change>, Seq<char>>(none)) by {
        assert(edits.drop_last().len() == 0);
    }
    assert(none + seq![change] =~= seq![change]);
    assert(all_edits(text, edits) == Ok::<Seq<Change>, Seq<char>>(seq![change]));
    assert(seq![change].drop_last() =~= none);
    assert(sorted_changes(none) =~= none);
    assert(placed(none, change) =~= seq![change]);
    assert(sorted_changes(seq![change]) =~= seq![change]);
    assert(spliced(text.take(change.start), none) == text.take(change.start));
    assert(apart(seq![change]));
}

/// An edit whose text stands nowhere changes nothing, and says so.
pub proof fn law_edit_without_a_match_changes_nothing(
    text: Seq<char>,
    edit: Cbor,
    old_text: Seq<char>,
    new_text: Seq<char>,
)
    requires
        text.len() + 2 <= usize::MAX,
        is_plain_edit(edit, old_text, new_text),
        old_text.len() > 0,
        forall|q: int| !stands_at(text, old_text, q),
    ensures
        edited(text, seq![edit]) == Ok::<(Seq<char>, nat), Seq<char>>((text, 0nat)),
{
    lemma_starts_in_text(text, text.len() as int);
    let end = starts_of(text).len() as int + 1;
    assert(offset_of(text, 1) == 0);
    assert(offset_of(text, end) == text.len());
    lemma_no_match(text, old_text, 0, text.len() as int);
    let none = Seq::<Change>::empty();
    assert(matches_in(text, old_text, 0, text.len() as int, 1) =~= seq![]);
    assert(one_edit(text, edit)->Ok_0 =~= none);
    let edits = seq![edit];
    assert(edits.drop_last() =~= seq![]);
    assert(all_edits(text, edits.drop_last()) == Ok::<Seq<Change>, Seq<char>>(none)) by {
        assert(edits.drop_last().len() == 0);
    }
    assert(none + none =~= none);
    assert(sorted_changes(none) =~= none);
}

/// Pieces of a text with something between any two.
pub open spec fn interleaved(pieces: Seq<Seq<char>>, between: Seq<Seq<char>>) -> Seq<char>
    decreases between.len(),
{
    if between.len() == 0 {
        pieces[0]
    } else {
        interleaved(pieces.drop_last(), between.drop_last()) + between.last() + pieces.last()
    }
}

/// Whether a text becomes another by putting some texts in the place of others.
pub open spec fn becomes(
    text: Seq<char>,
    result: Seq<char>,
    pieces: Seq<Seq<char>>,
    old_texts: Seq<Seq<char>>,
    new_texts: Seq<Seq<char>>,
) -> bool {
    &&& pieces.len() == old_texts.len() + 1
    &&& old_texts.len() == new_texts.len()
    &&& text == interleaved(pieces, old_texts)
    &&& result == interleaved(pieces, new_texts)
}

/// The texts that replacements take away.
pub open spec fn taken_texts(text: Seq<char>, changes: Seq<Change>) -> Seq<Seq<char>> {
    changes.map_values(|c: Change| text.subrange(c.start, c.end))
}

/// The texts that replacements put in.
pub open spec fn put_texts(changes: Seq<Change>) -> Seq<Seq<char>> {
    changes.map_values(|c: Change| c.text)
}

/// Replacements that lie apart change what they take away and nothing else.
pub proof fn law_only_what_is_replaced_changes(text: Seq<char>, sorted: Seq<Change>)
    requires
        apart(sorted),
        forall|k: int|
            0 <= k < sorted.len() ==> 0 <= (#[trigger] sorted[k]).start <= sorted[k].end
                <= text.len(),
    ensures
        exists|pieces: Seq<Seq<char>>|
            becomes(
                text,
                spliced(text, sorted),
                pieces,
                taken_texts(text, sorted),
                put_texts(sorted),
            ),
    decreases sorted.len(),
{
    if sorted.len() == 0 {
        assert(becomes(
            text,
            spliced(text, sorted),
            seq![text],
            taken_texts(text, sorted),
            put_texts(sorted),
        ));
    } else {
        let last = sorted.last();
        let before = sorted.drop_last();
        let head = text.take(last.start);
        let tail = text.skip(last.end);
        assert forall|k: int| 0 <= k < before.len() implies 0 <= (#[trigger] before[k]).start
            <= before[k].end <= head.len() by {
            assert(before[k] == sorted[k]);
            law_edits_never_overlap(sorted, k, sorted.len() - 1);
        }
        assert forall|i: int| 0 <= i < before.len() - 1 implies (#[trigger] before[i]).end
            <= before[i + 1].start by {
            assert(before[i] == sorted[i] && before[i + 1] == sorted[i + 1]);
        }
        law_only_what_is_replaced_changes(head, before);
        let inner = choose|pieces: Seq<Seq<char>>|
            becomes(
                head,
                spliced(head, before),
                pieces,
                taken_texts(head, before),
                put_texts(before),
            );
        let pieces = inner.push(tail);
        assert(pieces.drop_last() =~= inner);
        assert(taken_texts(text, sorted).drop_last() =~= taken_texts(head, before)) by {
            assert forall|k: int| 0 <= k < before.len() implies taken_texts(
                text,
                sorted,
            ).drop_last()[k] == taken_texts(head, before)[k] by {
                assert(before[k] == sorted[k]);
                assert(head.subrange(before[k].start, before[k].end) =~= text.subrange(
                    before[k].start,
                    before[k].end,
                ));
            }
        }
        assert(put_texts(sorted).drop_last() =~= put_texts(before));
        assert(taken_texts(text, sorted).last() == text.subrange(last.start, last.end));
        assert(put_texts(sorted).last() == last.text);
        assert(text =~= head + text.subrange(last.start, last.end) + tail);
        assert(becomes(
            text,
            spliced(text, sorted),
            pieces,
            taken_texts(text, sorted),
            put_texts(sorted),
        ));
    }
}

/// The places that are found are places where the pattern stands.
proof fn lemma_matches_stand(
    text: Seq<char>,
    pattern: Seq<char>,
    from: int,
    to: int,
    max: nat,
)
    requires
        0 <= from,
        to <= text.len(),
    ensures
        matches_in(text, pattern, from, to, max).len() <= max,
        forall|k: int|
            0 <= k < matches_in(text, pattern, from, to, max).len() ==> stands_at(
                text,
                pattern,
                #[trigger] matches_in(text, pattern, from, to, max)[k],
            ) && from <= matches_in(text, pattern, from, to, max)[k] && matches_in(
                text,
                pattern,
                from,
                to,
                max,
            )[k] + pattern.len() <= to,
    decreases max,
{
    if max > 0 {
        lemma_first_stands(text, pattern, from, to);
        if let Some(p) = first_match(text, pattern, from, to) {
            let rest = matches_in(text, pattern, p + pattern.len(), to, (max - 1) as nat);
            lemma_matches_stand(text, pattern, p + pattern.len(), to, (max - 1) as nat);
            let all = matches_in(text, pattern, from, to, max);
            assert(all == seq![p] + rest);
            assert forall|k: int| 0 <= k < all.len() implies stands_at(
                text,
                pattern,
                #[trigger] all[k],
            ) && from <= all[k] && all[k] + pattern.len() <= to by {
                if k > 0 {
                    assert(all[k] == rest[k - 1]);
                }
            }
        }
    }
}

proof fn lemma_first_stands(text: Seq<char>, pattern: Seq<char>, from: int, to: int)
    requires
        0 <= from,
        to <= text.len(),
    ensures
        first_match(text, pattern, from, to) matches Some(p) ==> stands_at(text, pattern, p)
            && from <= p && p + pattern.len() <= to && forall|q: int|
            from <= q < p ==> !stands_at(text, pattern, q),
        first_match(text, pattern, from, to) is None && pattern.len() > 0 ==> forall|q: int|
            from <= q && q + pattern.len() <= to ==> !stands_at(text, pattern, q),
    decreases to - from,
{
    if from + pattern.len() <= to && pattern.len() > 0 && !stands_at(text, pattern, from) {
        lemma_first_stands(text, pattern, from + 1, to);
    }
}

/// Whether a replacement is one that an edit asks for: the text that it names
/// stands there, between the lines that it names, and the text that it names is
/// put there.
pub open spec fn is_asked_by(text: Seq<char>, change: Change, edit: Cbor) -> bool {
    &&& 0 <= change.start <= change.end <= text.len()
    &&& text_field(edit, "oldText"@) == Some(text.subrange(change.start, change.end))
    &&& text_field(edit, "newText"@) == Some(change.text)
    &&& int_field(edit, "start_line"@) matches Some(n) ==> offset_of(text, n as int)
        <= change.start
    &&& int_field(edit, "end_line"@) matches Some(n) ==> change.end <= offset_of(text, n as int)
}

/// Whether every replacement is one that some edit asks for.
pub open spec fn are_asked(text: Seq<char>, changes: Seq<Change>, edits: Seq<Cbor>) -> bool {
    forall|k: int|
        0 <= k < changes.len() ==> exists|e: int|
            0 <= e < edits.len() && is_asked_by(text, #[trigger] changes[k], #[trigger] edits[e])
}

proof fn lemma_offset_in_text(text: Seq<char>, line: int)
    ensures
        0 <= offset_of(text, line) <= text.len(),
{
    lemma_starts_in_text(text, text.len() as int);
}

proof fn lemma_one_edit_is_asked(text: Seq<char>, edit: Cbor)
    requires
        one_edit(text, edit) is Ok,
    ensures
        forall|k: int|
            0 <= k < one_edit(text, edit)->Ok_0.len() ==> is_asked_by(
                text,
                #[trigger] one_edit(text, edit)->Ok_0[k],
                edit,
            ),
        int_field(edit, "max_matches"@) matches Some(n) ==> one_edit(text, edit)->Ok_0.len() <= n,
        int_field(edit, "max_matches"@) is None ==> one_edit(text, edit)->Ok_0.len() <= 1,
{
    let pattern = text_field(edit, "oldText"@)->0;
    let new_text = text_field(edit, "newText"@)->0;
    let max = crate::shell::edit::edit_count(edit, "max_matches"@, 1)->Ok_0 as nat;
    let start = crate::shell::edit::edit_line(edit, "start_line"@, 1)->Ok_0 as int;
    let end = crate::shell::edit::edit_line(
        edit,
        "end_line"@,
        crate::shell::capture::sat(starts_of(text).len() as int + 1),
    )->Ok_0 as int;
    let from = offset_of(text, start);
    let to = offset_of(text, end);
    lemma_offset_in_text(text, start);
    lemma_offset_in_text(text, end);
    let found = matches_in(text, pattern, from, to, max);
    lemma_matches_stand(text, pattern, from, to, max);
    let changes = one_edit(text, edit)->Ok_0;
    assert forall|k: int| 0 <= k < changes.len() implies is_asked_by(
        text,
        #[trigger] changes[k],
        edit,
    ) by {
        assert(changes[k] == Change {
            start: found[k],
            end: found[k] + pattern.len(),
            text: new_text,
        });
        assert(stands_at(text, pattern, found[k]));
    }
}

/// Whether a place lies in a replacement.
pub open spec fn is_replaced(changes: Seq<Change>, q: int) -> bool {
    exists|k: int| 0 <= k < changes.len() && (#[trigger] changes[k]).start <= q < changes[k].end
}

proof fn lemma_matches_cover(text: Seq<char>, pattern: Seq<char>, from: int, to: int, max: nat, q: int)
    requires
        0 <= from <= q,
        q + pattern.len() <= to <= text.len(),
        pattern.len() > 0,
        stands_at(text, pattern, q),
        matches_in(text, pattern, from, to, max).len() < max,
    ensures
        exists|k: int|
            0 <= k < matches_in(text, pattern, from, to, max).len() && #[trigger] matches_in(
                text,
                pattern,
                from,
                to,
                max,
            )[k] <= q < matches_in(text, pattern, from, to, max)[k] + pattern.len(),
    decreases max,
{
    lemma_first_stands(text, pattern, from, to);
    let all = matches_in(text, pattern, from, to, max);
    let p = first_match(text, pattern, from, to)->0;
    let rest = matches_in(text, pattern, p + pattern.len(), to, (max - 1) as nat);
    assert(all == seq![p] + rest);
    if q < p + pattern.len() {
        assert(all[0] == p);
    } else {
        lemma_matches_cover(text, pattern, p + pattern.len(), to, (max - 1) as nat, q);
        let k = choose|k: int|
            0 <= k < rest.len() && #[trigger] rest[k] <= q < rest[k] + pattern.len();
        assert(all[k + 1] == rest[k]);
    }
}

/// An edit replaces its text wherever it stands in the lines that it names, from the
/// left, unless it has replaced it as often as it may.
pub proof fn law_edit_misses_nothing(text: Seq<char>, edit: Cbor, old_text: Seq<char>, max: i64, q: int)
    requires
        text.len() + 2 <= usize::MAX,
        one_edit(text, edit) is Ok,
        text_field(edit, "oldText"@) == Some(old_text),
        int_field(edit, "max_matches"@) == Some(max),
        one_edit(text, edit)->Ok_0.len() < max,
        stands_at(text, old_text, q),
        int_field(edit, "start_line"@) matches Some(n) ==> offset_of(text, n as int) <= q,
        int_field(edit, "end_line"@) matches Some(n) ==> q + old_text.len() <= offset_of(
            text,
            n as int,
        ),
    ensures
        is_replaced(one_edit(text, edit)->Ok_0, q),
{
    lemma_starts_in_text(text, text.len() as int);
    let start = crate::shell::edit::edit_line(edit, "start_line"@, 1)->Ok_0 as int;
    let end = crate::shell::edit::edit_line(
        edit,
        "end_line"@,
        crate::shell::capture::sat(starts_of(text).len() as int + 1),
    )->Ok_0 as int;
    let from = offset_of(text, start);
    let to = offset_of(text, end);
    lemma_offset_in_text(text, start);
    lemma_offset_in_text(text, end);
    let found = matches_in(text, old_text, from, to, max as nat);
    let changes = one_edit(text, edit)->Ok_0;
    assert(changes.len() == found.len());
    lemma_matches_cover(text, old_text, from, to, max as nat, q);
    let k = choose|k: int|
        0 <= k < found.len() && #[trigger] found[k] <= q < found[k] + old_text.len();
    assert(changes[k].start <= q < changes[k].end);
}

proof fn lemma_all_are_asked(text: Seq<char>, edits: Seq<Cbor>)
    requires
        all_edits(text, edits) is Ok,
    ensures
        are_asked(text, all_edits(text, edits)->Ok_0, edits),
    decreases edits.len(),
{
    if edits.len() > 0 {
        let front = edits.drop_last();
        lemma_all_are_asked(text, front);
        lemma_one_edit_is_asked(text, edits.last());
        let before = all_edits(text, front)->Ok_0;
        let more = one_edit(text, edits.last())->Ok_0;
        let all = all_edits(text, edits)->Ok_0;
        assert(all == before + more);
        assert forall|k: int| 0 <= k < all.len() implies exists|e: int|
            0 <= e < edits.len() && is_asked_by(text, #[trigger] all[k], #[trigger] edits[e]) by {
            if k < before.len() {
                assert(all[k] == before[k]);
                let e = choose|e: int|
                    0 <= e < front.len() && is_asked_by(text, before[k], #[trigger] front[e]);
                assert(front[e] == edits[e]);
                assert(is_asked_by(text, all[k], edits[e]));
            } else {
                assert(all[k] == more[k - before.len()]);
                assert(is_asked_by(text, all[k], edits[edits.len() - 1]));
            }
        }
    }
}

proof fn lemma_placed_keeps(sorted: Seq<Change>, change: Change)
    ensures
        placed(sorted, change).to_multiset() == sorted.to_multiset().insert(change),
        placed(sorted, change).len() == sorted.len() + 1,
    decreases sorted.len(),
{
    broadcast use vstd::seq_lib::group_to_multiset_ensures;

    if sorted.len() > 0 && sorted.last().start > change.start {
        let front = sorted.drop_last();
        lemma_placed_keeps(front, change);
        assert(sorted =~= front.push(sorted.last()));
        assert(placed(sorted, change).to_multiset() =~= sorted.to_multiset().insert(change));
    }
}

proof fn lemma_sorted_keeps(changes: Seq<Change>)
    ensures
        sorted_changes(changes).to_multiset() == changes.to_multiset(),
        sorted_changes(changes).len() == changes.len(),
    decreases changes.len(),
{
    broadcast use vstd::seq_lib::group_to_multiset_ensures;

    if changes.len() > 0 {
        let front = changes.drop_last();
        lemma_sorted_keeps(front);
        lemma_placed_keeps(sorted_changes(front), changes.last());
        assert(changes =~= front.push(changes.last()));
    } else {
        assert(sorted_changes(changes) =~= changes);
    }
}

/// A text that is edited becomes its result by putting new texts in the place of
/// old ones, as many as are counted, and nothing else changes. Each of them is one
/// that an edit names: it takes away the text that the edit names, in the lines that
/// it names, and puts in the text that it names, word for word.
pub proof fn law_edits_are_made_word_for_word(text: Seq<char>, edits: Seq<Cbor>)
    requires
        edited(text, edits) is Ok,
    ensures
        ({
            let (result, count) = edited(text, edits)->Ok_0;
            exists|changes: Seq<Change>, pieces: Seq<Seq<char>>|
                #![trigger becomes(text, result, pieces, taken_texts(text, changes), put_texts(changes))]
                {
                    &&& changes.len() == count
                    &&& are_asked(text, changes, edits)
                    &&& becomes(
                        text,
                        result,
                        pieces,
                        taken_texts(text, changes),
                        put_texts(changes),
                    )
                }
        }),
{
    let changes = all_edits(text, edits)->Ok_0;
    let sorted = sorted_changes(changes);
    lemma_all_are_asked(text, edits);
    lemma_sorted_keeps(changes);
    assert forall|k: int| 0 <= k < sorted.len() implies exists|e: int|
        0 <= e < edits.len() && is_asked_by(text, #[trigger] sorted[k], #[trigger] edits[e]) by {
        broadcast use vstd::seq_lib::group_to_multiset_ensures;

        assert(sorted.to_multiset().count(sorted[k]) > 0) by {
            assert(sorted.contains(sorted[k]));
        }
        assert(changes.to_multiset().count(sorted[k]) > 0);
        assert(changes.contains(sorted[k]));
        let j = choose|j: int| 0 <= j < changes.len() && changes[j] == sorted[k];
        let e = choose|e: int|
            0 <= e < edits.len() && is_asked_by(text, changes[j], #[trigger] edits[e]);
        assert(is_asked_by(text, sorted[k], edits[e]));
    }
    assert forall|k: int| 0 <= k < sorted.len() implies 0 <= (#[trigger] sorted[k]).start
        <= sorted[k].end <= text.len() by {
        let e = choose|e: int|
            0 <= e < edits.len() && is_asked_by(text, sorted[k], #[trigger] edits[e]);
    }
    law_only_what_is_replaced_changes(text, sorted);
    let pieces = choose|pieces: Seq<Seq<char>>|
        becomes(
            text,
            spliced(text, sorted),
            pieces,
            taken_texts(text, sorted),
            put_texts(sorted),
        );
    assert(becomes(
        text,
        edited(text, edits)->Ok_0.0,
        pieces,
        taken_texts(text, sorted),
        put_texts(sorted),
    ));
}

/// How many lines end in a text.
pub open spec fn breaks_in(text: Seq<char>) -> nat
    decreases text.len(),
{
    if text.len() == 0 {
        0
    } else if text.last() == '\n' {
        breaks_in(text.drop_last()) + 1
    } else {
        breaks_in(text.drop_last())
    }
}

proof fn lemma_starts_count_breaks(text: Seq<char>, n: int)
    requires
        0 <= n <= text.len(),
    ensures
        n < text.len() || text.len() == 0 || text.last() != '\n' ==> starts_upto(text, n).len()
            == breaks_in(text.take(n)) + 1,
        forall|i: int|
            0 <= i < starts_upto(text, n).len() ==> breaks_in(
                text.take(#[trigger] starts_upto(text, n)[i]),
            ) == i,
        forall|i: int|
            0 < i < starts_upto(text, n).len() ==> 0 < #[trigger] starts_upto(text, n)[i] <= n
                && text[starts_upto(text, n)[i] - 1] == '\n',
        starts_upto(text, n)[0] == 0,
        starts_upto(text, n).len() >= 1,
    decreases n,
{
    if n > 0 {
        lemma_starts_count_breaks(text, n - 1);
        assert(text.take(n).drop_last() =~= text.take(n - 1));
        assert(text.take(n).last() == text[n - 1]);
    } else {
        assert(text.take(0) =~= seq![]);
    }
}

/// A line starts where as many lines have ended as stand before it: at the start of
/// the text, or behind a line break.
pub proof fn law_lines_are_counted_from_one(text: Seq<char>, line: int)
    requires
        1 <= line,
    ensures
        0 <= offset_of(text, line) <= text.len(),
        offset_of(text, line) < text.len() ==> breaks_in(text.take(offset_of(text, line))) == line
            - 1,
        0 < offset_of(text, line) < text.len() ==> text[offset_of(text, line) - 1] == '\n',
        offset_of(text, 1) == 0,
{
    lemma_starts_in_text(text, text.len() as int);
    lemma_starts_count_breaks(text, text.len() as int);
}

/// A call edits the file that it names with the edits that it names, or is refused.
pub proof fn law_call_edits_its_file(
    arguments: Cbor,
    text: Seq<char>,
    path: Seq<char>,
    edits: Seq<Cbor>,
    why: Seq<char>,
)
    requires
        text_field(arguments, "path"@) == Some(path),
        field(arguments, "edits"@) == Some(Cbor::Array(edits)),
    ensures
        match edited(text, edits) {
            Ok((result, count)) => edit_planned(arguments, Ok(text)) matches Ok(
                (named, made, told),
            ) && named == path && made == result && told == count,
            Err(words) => edit_planned(arguments, Ok(text)) matches Err(f) && f.message == words,
        },
        edit_planned(arguments, Err(why)) matches Err(f) && f.message == why,
{
}

/// The result of an edit names the file, says how many replacements were made,
/// and shows the difference where there is one.
pub proof fn law_edit_tells_what_it_did(path: Seq<char>, count: nat, diff: SummaryView)
    requires
        count <= i64::MAX,
    ensures
        text_field(edit_result(path, count, diff), "path"@) == Some(path),
        int_field(edit_result(path, count, diff), "replacements"@) == Some(count as i64),
        field(edit_result(path, count, diff), "changed"@) == Some(
            Cbor::Bool(diff.hunks.len() > 0),
        ),
        diff.hunks.len() > 0 ==> text_field(edit_result(path, count, diff), "diff"@) == Some(
            unified_of(diff.hunks),
        ),
{
    reveal_strlit("path");
    reveal_strlit("replacements");
    reveal_strlit("changed");
    reveal_strlit("diff");
    assert("path"@.len() == 4 && "replacements"@.len() == 12 && "changed"@.len() == 7
        && "diff"@.len() == 4 && "path"@[0] == 'p' && "diff"@[0] == 'd');
    let entries = edit_result(path, count, diff)->Dict_0;
    lemma_first_entry(entries, "path"@, 0);
    lemma_first_entry(entries, "replacements"@, 1);
    lemma_first_entry(entries, "changed"@, 2);
    lemma_first_entry(entries, "diff"@, 3);
}

/// A call that writes a file writes the content that it names, word for word, and
/// says how many bytes that are and whether the file is new.
pub proof fn law_write_writes_what_it_is_given(
    arguments: Cbor,
    path: Seq<char>,
    content: Seq<char>,
    bytes: nat,
    created: bool,
    diff: SummaryView,
)
    requires
        bytes <= i64::MAX,
    ensures
        text_field(arguments, "path"@) == Some(path) && text_field(arguments, "content"@) == Some(
            content,
        ) ==> (write_planned(arguments) matches Ok((named, written)) && named == path && written
            == content),
        text_field(arguments, "path"@) is None || text_field(arguments, "content"@) is None
            ==> write_planned(arguments) is Err,
        text_field(write_result(path, bytes, created, diff), "path"@) == Some(path),
        int_field(write_result(path, bytes, created, diff), "bytes_written"@) == Some(
            bytes as i64,
        ),
        field(write_result(path, bytes, created, diff), "created"@) == Some(Cbor::Bool(created)),
        field(write_result(path, bytes, created, diff), "changed"@) == Some(
            Cbor::Bool(diff.hunks.len() > 0),
        ),
{
    reveal_strlit("path");
    reveal_strlit("bytes_written");
    reveal_strlit("created");
    reveal_strlit("changed");
    assert("path"@.len() == 4 && "bytes_written"@.len() == 13 && "created"@.len() == 7
        && "changed"@.len() == 7 && "created"@[1] == 'r' && "changed"@[1] == 'h');
    let entries = write_result(path, bytes, created, diff)->Dict_0;
    lemma_first_entry(entries, "path"@, 0);
    lemma_first_entry(entries, "bytes_written"@, 1);
    lemma_first_entry(entries, "created"@, 2);
    lemma_first_entry(entries, "changed"@, 3);
}

} // verus!
