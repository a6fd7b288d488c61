//! Laws of the `find` tool.

use vstd::prelude::*;

use crate::shell::find::{
    file_paths, find_planned, find_result, flagged, glob_match, law_sorted_items_are_in_order,
    lower_keys,
    matching, paths_of, slashed, sorted_items, sorted_paths, with_keys, FindPlanView, WalkEntry,
};
use crate::shell::truncate::{MAX_OUTPUT_BYTES, MAX_OUTPUT_LINES};
use crate::text::{decimal_of, join_of, utf8_len};
use crate::text_laws::{is_line, law_lines_come_back};
use crate::value::{int_field, lemma_first_entry, text_field, Cbor};

verus! {

/// Whether something that was walked over is a file whose path matches a pattern.
pub open spec fn is_found(entry: WalkEntry, pattern: Seq<char>) -> bool {
    entry.is_file && glob_match(pattern, entry.path@)
}

proof fn lemma_files(found: Seq<WalkEntry>, path: Seq<char>)
    ensures
        file_paths(found).contains(path) == (exists|i: int|
            0 <= i < found.len() && (#[trigger] found[i]).is_file && found[i].path@ == path),
    decreases found.len(),
{
    if found.len() > 0 {
        let front = found.drop_last();
        lemma_files(front, path);
        let all = file_paths(found);
        if all.contains(path) {
            let k = choose|k: int| 0 <= k < all.len() && all[k] == path;
            if k < file_paths(front).len() {
                assert(file_paths(front)[k] == path);
                let i = choose|i: int|
                    0 <= i < front.len() && (#[trigger] front[i]).is_file && front[i].path@ == path;
                assert(found[i] == front[i]);
            } else {
                assert(found[found.len() - 1].is_file);
            }
        }
        if exists|i: int|
            0 <= i < found.len() && (#[trigger] found[i]).is_file && found[i].path@ == path {
            let i = choose|i: int|
                0 <= i < found.len() && (#[trigger] found[i]).is_file && found[i].path@ == path;
            if i < front.len() {
                assert(front[i] == found[i]);
                let k = choose|k: int| 0 <= k < file_paths(front).len() && file_paths(front)[k] == path;
                assert(all[k] == path);
            } else {
                assert(all[all.len() - 1] == path);
            }
        }
    } else {
        assert(!file_paths(found).contains(path));
    }
}

proof fn lemma_matching(paths: Seq<Seq<char>>, pattern: Seq<char>, shown: Seq<char>)
    ensures
        matching(paths, pattern).contains(shown) == (exists|i: int|
            0 <= i < paths.len() && glob_match(pattern, #[trigger] paths[i]) && slashed(paths[i])
                == shown),
    decreases paths.len(),
{
    if paths.len() > 0 {
        let front = paths.drop_last();
        lemma_matching(front, pattern, shown);
        let all = matching(paths, pattern);
        let before = matching(front, pattern);
        if all.contains(shown) {
            let k = choose|k: int| 0 <= k < all.len() && all[k] == shown;
            if k < before.len() {
                assert(before[k] == shown);
                let i = choose|i: int|
                    0 <= i < front.len() && glob_match(pattern, #[trigger] front[i]) && slashed(
                        front[i],
                    ) == shown;
                assert(paths[i] == front[i]);
            } else {
                assert(glob_match(pattern, paths[paths.len() - 1]));
            }
        }
        if exists|i: int|
            0 <= i < paths.len() && glob_match(pattern, #[trigger] paths[i]) && slashed(paths[i])
                == shown {
            let i = choose|i: int|
                0 <= i < paths.len() && glob_match(pattern, #[trigger] paths[i]) && slashed(
                    paths[i],
                ) == shown;
            if i < front.len() {
                assert(front[i] == paths[i]);
                let k = choose|k: int| 0 <= k < before.len() && before[k] == shown;
                assert(all[k] == shown);
            } else {
                assert(all[all.len() - 1] == shown);
            }
        }
    } else {
        assert(!matching(paths, pattern).contains(shown));
    }
}

proof fn lemma_sorted_holds_the_same(paths: Seq<Seq<char>>, shown: Seq<char>)
    ensures
        sorted_paths(paths).contains(shown) == paths.contains(shown),
        sorted_paths(paths).len() == paths.len(),
{
    broadcast use vstd::seq_lib::group_to_multiset_ensures;

    let keys = lower_keys(paths);
    let items = with_keys(paths, keys);
    law_sorted_items_are_in_order(items);
    let sorted = sorted_items(items);
    assert(sorted.len() == items.len()) by {
        assert(sorted.to_multiset().len() == items.to_multiset().len());
    }
    if paths.contains(shown) {
        let i = choose|i: int| 0 <= i < paths.len() && paths[i] == shown;
        assert(items.contains(items[i]));
        assert(items.to_multiset().count(items[i]) > 0);
        assert(sorted.contains(items[i]));
        let k = choose|k: int| 0 <= k < sorted.len() && sorted[k] == items[i];
        assert(paths_of(sorted)[k] == shown);
    }
    if sorted_paths(paths).contains(shown) {
        let k = choose|k: int| 0 <= k < sorted.len() && paths_of(sorted)[k] == shown;
        assert(sorted.contains(sorted[k]));
        assert(sorted.to_multiset().count(sorted[k]) > 0);
        assert(items.contains(sorted[k]));
        let i = choose|i: int| 0 <= i < items.len() && items[i] == sorted[k];
        assert(paths[i] == shown);
    }
}

/// The files that are found are those that were walked over, are files and match the
/// pattern, and no others; each is shown by its path, with slashes for backslashes.
pub proof fn law_matching_files_are_found(
    found: Seq<WalkEntry>,
    pattern: Seq<char>,
    shown: Seq<char>,
)
    ensures
        sorted_paths(matching(file_paths(found), pattern)).contains(shown) == (exists|i: int|
            0 <= i < found.len() && is_found(#[trigger] found[i], pattern) && slashed(
                found[i].path@,
            ) == shown),
{
    let paths = file_paths(found);
    lemma_sorted_holds_the_same(matching(paths, pattern), shown);
    lemma_matching(paths, pattern, shown);
    if exists|i: int|
        0 <= i < paths.len() && glob_match(pattern, #[trigger] paths[i]) && slashed(paths[i])
            == shown {
        let i = choose|i: int|
            0 <= i < paths.len() && glob_match(pattern, #[trigger] paths[i]) && slashed(paths[i])
                == shown;
        lemma_files(found, paths[i]);
        assert(paths.contains(paths[i]));
        let j = choose|j: int|
            0 <= j < found.len() && (#[trigger] found[j]).is_file && found[j].path@ == paths[i];
        assert(is_found(found[j], pattern));
    }
    if exists|i: int|
        0 <= i < found.len() && is_found(#[trigger] found[i], pattern) && slashed(found[i].path@)
            == shown {
        let i = choose|i: int|
            0 <= i < found.len() && is_found(#[trigger] found[i], pattern) && slashed(
                found[i].path@,
            ) == shown;
        lemma_files(found, found[i].path@);
        let k = choose|k: int| 0 <= k < paths.len() && paths[k] == found[i].path@;
        assert(glob_match(pattern, paths[k]));
    }
}

/// A path is shown as it is, but for its backslashes.
pub proof fn law_path_is_shown_with_slashes(path: Seq<char>)
    ensures
        slashed(path).len() == path.len(),
        forall|i: int|
            0 <= i < path.len() ==> #[trigger] slashed(path)[i] == if path[i] == '\\' {
                '/'
            } else {
                path[i]
            },
        !path.contains('\\') ==> slashed(path) == path,
{
    if !path.contains('\\') {
        assert forall|i: int| 0 <= i < path.len() implies slashed(path)[i] == path[i] by {
            assert(path[i] != '\\');
        }
        assert(slashed(path) =~= path);
    }
}

/// The result of a search for files holds every one that was found, one below the
/// other, how many they are and what was asked for; of more than the limit, the first
/// are shown, and that is said.
pub proof fn law_search_tells_the_files(plan: FindPlanView, found: Seq<Seq<char>>)
    requires
        found.len() <= i64::MAX,
        forall|k: int|
            0 <= k < found.len() ==> is_line(#[trigger] found[k]) && found[k].len() > 0,
        plan.limit >= 1,
        plan.limit <= MAX_OUTPUT_LINES,
        utf8_len(join_of(found.take(shown_count(found, plan.limit)), "\n"@)) <= MAX_OUTPUT_BYTES,
    ensures
        ({
            let told = find_result(plan, found).result;
            let n = shown_count(found, plan.limit);
            &&& text_field(told, "path"@) == Some(plan.path)
            &&& text_field(told, "pattern"@) == Some(plan.pattern)
            &&& int_field(told, "matches"@) == Some(found.len() as i64)
            &&& 0 < found.len() <= plan.limit ==> text_field(told, "output"@) == Some(
                join_of(found, "\n"@),
            )
            &&& found.len() == 0 ==> text_field(told, "output"@) == Some(
                "no files found matching pattern"@,
            )
            &&& found.len() > plan.limit ==> (text_field(told, "output"@) matches Some(output) && (
            join_of(found.take(n), "\n"@) + "\n\n["@ + decimal_of(plan.limit as nat)
                + " results limit reached."@).is_prefix_of(output))
        }),
        find_result(plan, found).display.args == plan.args,
{
    reveal_strlit("path");
    reveal_strlit("pattern");
    reveal_strlit("matches");
    reveal_strlit("output");
    assert("path"@.len() == 4 && "pattern"@.len() == 7 && "matches"@.len() == 7 && "output"@.len()
        == 6 && "pattern"@[0] == 'p' && "matches"@[0] == 'm');
    let entries = find_result(plan, found).result->Dict_0;
    lemma_first_entry(entries, "path"@, 0);
    lemma_first_entry(entries, "pattern"@, 1);
    lemma_first_entry(entries, "matches"@, 2);
    lemma_first_entry(entries, "output"@, 3);
    if found.len() > 0 {
        let n = shown_count(found, plan.limit);
        let list = found.take(n);
        assert(crate::shell::find::first_of(found, plan.limit) =~= list);
        assert forall|k: int| 0 <= k < list.len() implies is_line(#[trigger] list[k]) && list[k].len()
            > 0 by {
            assert(list[k] == found[k]);
        }
        assert(list.last() == list[n - 1]);
        law_lines_come_back(list);
        let text = join_of(list, "\n"@);
        crate::shell::truncate::law_small_output_is_kept(list, utf8_len(text));
        let notices = crate::shell::find::find_notices(plan.limit, found.len() > plan.limit, false);
        let output = crate::shell::find::find_output(found, plan.limit);
        assert(output == text + crate::shell::find::notice_text(notices));
        if found.len() <= plan.limit {
            assert(notices =~= seq![]);
            assert(list =~= found);
            assert(output =~= text);
        } else {
            reveal_strlit(" results limit reached. Use limit=");
            reveal_strlit(" results limit reached.");
            let start = text + "\n\n["@ + decimal_of(plan.limit as nat) + " results limit reached."@;
            assert(join_of(notices, " "@) == notices[0]);
            assert(start =~= output.subrange(0, start.len() as int));
        }
    }
}

/// How many files are shown.
pub open spec fn shown_count(found: Seq<Seq<char>>, limit: u64) -> int {
    if found.len() <= limit {
        found.len() as int
    } else {
        limit as int
    }
}

/// A search for files is for the pattern in the directory that are named, and has a
/// limit that it can be given.
pub proof fn law_search_is_for_what_is_named(arguments: Cbor, pattern: Seq<char>)
    ensures
        text_field(arguments, "pattern"@) == Some(pattern) ==> (find_planned(arguments) matches Ok(
            plan,
        ) && {
            &&& plan.pattern == pattern
            &&& plan.path == match text_field(arguments, "path"@) {
                Some(path) => path,
                None => "."@,
            }
            &&& int_field(arguments, "limit"@) matches Some(n) ==> (1 <= n <= 2000 ==> plan.limit
                == n)
            &&& 1 <= plan.limit <= 2000
        }),
        text_field(arguments, "pattern"@) is None ==> find_planned(arguments) is Err,
{
}

/// The paths that are chosen, and no others, are shown, with slashes.
pub proof fn law_chosen_paths_are_shown(paths: Seq<Seq<char>>, flags: Seq<bool>, shown: Seq<char>)
    requires
        flags.len() == paths.len(),
    ensures
        flagged(paths, flags).len() <= paths.len(),
        flagged(paths, flags).contains(shown) <==> exists|i: int|
            0 <= i < paths.len() && flags[i] && slashed(#[trigger] paths[i]) == shown,
    decreases paths.len(),
{
    if paths.len() > 0 {
        let front = paths.drop_last();
        let n = paths.len() - 1;
        law_chosen_paths_are_shown(front, flags.drop_last(), shown);
        lemma_flagged_front(front, flags);
        let before = flagged(front, flags);
        if before.contains(shown) {
            let i = choose|i: int|
                0 <= i < front.len() && flags.drop_last()[i] && slashed(#[trigger] front[i])
                    == shown;
            assert(paths[i] == front[i]);
            let j = choose|j: int| 0 <= j < before.len() && before[j] == shown;
            assert(flagged(paths, flags)[j] == shown);
        }
        if flags[n] && slashed(paths[n]) == shown {
            assert(flagged(paths, flags)[before.len() as int] == shown);
        }
        assert forall|i: int|
            0 <= i < paths.len() && flags[i] && slashed(#[trigger] paths[i])
                == shown implies flagged(paths, flags).contains(shown) by {
            if i < n {
                assert(front[i] == paths[i] && flags.drop_last()[i]);
                assert(before.contains(shown));
            }
        }
        if flagged(paths, flags).contains(shown) && !before.contains(shown) {
            let j = choose|j: int|
                0 <= j < flagged(paths, flags).len() && flagged(paths, flags)[j] == shown;
            assert(flags[n]);
            if j < before.len() {
                assert(before[j] == shown);
            }
            assert(slashed(paths[n]) == shown);
        }
    }
}

/// What stands behind the paths does not choose among them.
proof fn lemma_flagged_front(paths: Seq<Seq<char>>, flags: Seq<bool>)
    requires
        flags.len() == paths.len() + 1,
    ensures
        flagged(paths, flags) == flagged(paths, flags.drop_last()),
{
    lemma_flagged_same(paths, flags, flags.drop_last());
}

/// Only as many flags count as there are paths.
proof fn lemma_flagged_same(paths: Seq<Seq<char>>, flags: Seq<bool>, others: Seq<bool>)
    requires
        forall|i: int| 0 <= i < paths.len() ==> flags[i] == others[i],
    ensures
        flagged(paths, flags) == flagged(paths, others),
    decreases paths.len(),
{
    if paths.len() > 0 {
        lemma_flagged_same(paths.drop_last(), flags, others);
    }
}

} // verus!
