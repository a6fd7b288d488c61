//! The `find` tool: files below a directory whose path matches a pattern.

use vstd::prelude::*;

use crate::path::{lemma_text_order, text_before, text_less};
use crate::shell::command::as_i64;
use crate::shell::display::{failure, failure_with_args, ok_display, outcome_view, plain_state,
    stats_of, text_stats, FailureView, OutputView, StateView, ToolFailure, ToolOutput,
    ToolUseStatus};
use crate::shell::truncate::{is_truncated, truncate_head, truncated_content};
use crate::text::{chars_of, debug_of, debug_text, decimal, decimal_of, join, join_of, lines_of,
    lowercase, lowercase_of, opt_view, push_text, utf8_len, views};
use crate::value::{
    argument_error, argument_text, cbor_map_int, cbor_map_text, entry, entry_views,
    group_cbor_views, int_field, push_entry, text_field, Cbor, CborValue,
};

verus! {

/// How many files are shown where the call says nothing.
pub const DEFAULT_FIND_LIMIT: u64 = 1000;

/// The largest limit of a search.
pub const MAX_SEARCH_LIMIT: u64 = 2000;

/// Why `globset` cannot read a pattern; nothing where it can.
pub uninterp spec fn glob_parse_error(pattern: Seq<char>) -> Option<Seq<char>>;

/// Why `globset` cannot build a matcher of a pattern; nothing where it can.
pub uninterp spec fn glob_build_error(pattern: Seq<char>) -> Option<Seq<char>>;

/// Whether a path matches a pattern, as `globset` has it.
pub uninterp spec fn glob_match(pattern: Seq<char>, path: Seq<char>) -> bool;

/// `Glob::new` of the `globset` crate (its `glob.rs`): the words of its error,
/// where it has one. Which patterns it can read is not stated here, only that
/// the pattern decides it.
#[verifier::external_body]
fn parse_glob(pattern: &str) -> (error: Option<String>)
    ensures
        opt_view(error) == glob_parse_error(pattern@),
{
    globset::Glob::new(pattern).err().map(|e| e.to_string())
}

/// `GlobSet::is_match` of the `globset` crate (its `lib.rs`), on each path in
/// turn, after `GlobSetBuilder::build` of a pattern that it can read. Which paths
/// match is not stated here, only that on Unix the pattern and the path decide
/// it, one path apart from the others.
#[verifier::external_body]
fn match_glob(pattern: &str, paths: &Vec<String>) -> (matched: Result<Vec<bool>, String>)
    requires
        glob_parse_error(pattern@) is None,
    ensures
        match matched {
            Ok(flags) => glob_build_error(pattern@) is None && flags@.len() == paths@.len()
                && forall|i: int|
                0 <= i < paths@.len() ==> #[trigger] flags@[i] == glob_match(
                    pattern@,
                    paths@[i]@,
                ),
            Err(message) => glob_build_error(pattern@) == Some(message@),
        },
{
    let mut builder = globset::GlobSetBuilder::new();
    builder.add(globset::Glob::new(pattern).map_err(|e| e.to_string())?);
    let set = builder.build().map_err(|e| e.to_string())?;
    Ok(paths.iter().map(|path| set.is_match(path)).collect())
}

/// A path with slashes for backslashes.
pub open spec fn slashed(path: Seq<char>) -> Seq<char> {
    path.map_values(
        |c: char|
            if c == '\\' {
                '/'
            } else {
                c
            },
    )
}

/// Writes a path with slashes for backslashes.
pub fn path_to_slash(path: &str) -> (slash: String)
    ensures
        slash@ == slashed(path@),
{
    let chars = chars_of(path);
    let mut slash = String::new();
    let mut i: usize = 0;
    assert(slash@ =~= slashed(path@).take(0));
    while i < chars.len()
        invariant
            i <= chars@.len(),
            chars@ == path@,
            slash@ == slashed(path@).take(i as int),
        decreases chars.len() - i,
    {
        slash.push(
            if chars[i] == '\\' {
                '/'
            } else {
                chars[i]
            },
        );
        i += 1;
        assert(slash@ =~= slashed(path@).take(i as int));
    }
    assert(slash@ =~= slashed(path@));
    slash
}

/// What was found at a place below the directory.
#[derive(Debug)]
pub struct WalkEntry {
    /// The path below the directory.
    pub path: String,
    pub is_file: bool,
}

/// The paths of the files among what was found.
pub open spec fn file_paths(found: Seq<WalkEntry>) -> Seq<Seq<char>>
    decreases found.len(),
{
    if found.len() == 0 {
        seq![]
    } else if found.last().is_file {
        file_paths(found.drop_last()).push(found.last().path@)
    } else {
        file_paths(found.drop_last())
    }
}

/// The paths that match a pattern, with slashes.
pub open spec fn matching(paths: Seq<Seq<char>>, pattern: Seq<char>) -> Seq<Seq<char>>
    decreases paths.len(),
{
    if paths.len() == 0 {
        seq![]
    } else if glob_match(pattern, paths.last()) {
        matching(paths.drop_last(), pattern).push(slashed(paths.last()))
    } else {
        matching(paths.drop_last(), pattern)
    }
}

/// The paths that are marked, with slashes.
pub open spec fn flagged(paths: Seq<Seq<char>>, flags: Seq<bool>) -> Seq<Seq<char>>
    decreases paths.len(),
{
    if paths.len() == 0 {
        seq![]
    } else if flags[paths.len() - 1] {
        flagged(paths.drop_last(), flags).push(slashed(paths.last()))
    } else {
        flagged(paths.drop_last(), flags)
    }
}

/// The paths that are marked because they match are the paths that match.
proof fn lemma_flagged(paths: Seq<Seq<char>>, flags: Seq<bool>, pattern: Seq<char>)
    requires
        paths.len() <= flags.len(),
        forall|i: int|
            0 <= i < paths.len() ==> #[trigger] flags[i] == glob_match(pattern, paths[i]),
    ensures
        flagged(paths, flags) == matching(paths, pattern),
    decreases paths.len(),
{
    if paths.len() > 0 {
        assert(flags[paths.len() - 1] == glob_match(pattern, paths[paths.len() - 1]));
        let shorter = paths.drop_last();
        assert forall|i: int| 0 <= i < shorter.len() implies #[trigger] flags[i] == glob_match(
            pattern,
            shorter[i],
        ) by {
            assert(shorter[i] == paths[i]);
        }
        lemma_flagged(shorter, flags, pattern);
    }
}

/// An item put in its place among others, in the order of their keys: it comes
/// behind those with the same one. An item is a path with its key.
pub open spec fn placed(sorted: Seq<(Seq<char>, Seq<char>)>, item: (Seq<char>, Seq<char>)) -> Seq<
    (Seq<char>, Seq<char>),
>
    decreases sorted.len(),
{
    if sorted.len() == 0 || !text_before(item.1, sorted.last().1) {
        sorted.push(item)
    } else {
        placed(sorted.drop_last(), item).push(sorted.last())
    }
}

/// Items in the order of their keys.
pub open spec fn sorted_items(items: Seq<(Seq<char>, Seq<char>)>) -> Seq<(Seq<char>, Seq<char>)>
    decreases items.len(),
{
    if items.len() == 0 {
        seq![]
    } else {
        placed(sorted_items(items.drop_last()), items.last())
    }
}

/// The paths of some items.
pub open spec fn paths_of(items: Seq<(Seq<char>, Seq<char>)>) -> Seq<Seq<char>> {
    items.map_values(|item: (Seq<char>, Seq<char>)| item.0)
}

/// Paths with their keys.
pub open spec fn with_keys(paths: Seq<Seq<char>>, keys: Seq<Seq<char>>) -> Seq<
    (Seq<char>, Seq<char>),
> {
    Seq::new(paths.len(), |i: int| (paths[i], keys[i]))
}

/// Paths in lower case.
pub open spec fn lower_keys(paths: Seq<Seq<char>>) -> Seq<Seq<char>> {
    paths.map_values(|path: Seq<char>| lowercase_of(path))
}

/// Paths in the order of their lower case.
pub open spec fn sorted_paths(paths: Seq<Seq<char>>) -> Seq<Seq<char>> {
    paths_of(sorted_items(with_keys(paths, lower_keys(paths))))
}

/// Whether items are in the order of their keys.
pub open spec fn in_order(items: Seq<(Seq<char>, Seq<char>)>) -> bool {
    forall|i: int, j: int|
        0 <= i < j < items.len() ==> !text_before(
            (#[trigger] items[j]).1,
            (#[trigger] items[i]).1,
        )
}

proof fn lemma_placed(sorted: Seq<(Seq<char>, Seq<char>)>, item: (Seq<char>, Seq<char>), p: int)
    requires
        0 <= p <= sorted.len(),
        p > 0 ==> !text_before(item.1, sorted[p - 1].1),
        forall|i: int| p <= i < sorted.len() ==> text_before(item.1, (#[trigger] sorted[i]).1),
    ensures
        placed(sorted, item) == sorted.insert(p, item),
    decreases sorted.len(),
{
    if p == sorted.len() {
        assert(sorted.insert(p, item) =~= sorted.push(item));
    } else {
        let shorter = sorted.drop_last();
        assert(text_before(item.1, sorted[sorted.len() - 1].1));
        assert forall|i: int| p <= i < shorter.len() implies text_before(
            item.1,
            (#[trigger] shorter[i]).1,
        ) by {
            assert(shorter[i] == sorted[i]);
        }
        lemma_placed(shorter, item, p);
        assert(sorted.insert(p, item) =~= shorter.insert(p, item).push(sorted.last()));
    }
}

proof fn lemma_insert_keeps_order(
    sorted: Seq<(Seq<char>, Seq<char>)>,
    item: (Seq<char>, Seq<char>),
    p: int,
)
    requires
        in_order(sorted),
        0 <= p <= sorted.len(),
        p > 0 ==> !text_before(item.1, sorted[p - 1].1),
        forall|i: int| p <= i < sorted.len() ==> text_before(item.1, (#[trigger] sorted[i]).1),
    ensures
        in_order(sorted.insert(p, item)),
{
    let after = sorted.insert(p, item);
    let key = item.1;
    assert forall|i: int, j: int| 0 <= i < j < after.len() implies !text_before(
        (#[trigger] after[j]).1,
        (#[trigger] after[i]).1,
    ) by {
        if i < p {
            assert(after[i] == sorted[i]);
            if j == p {
                let a = sorted[i].1;
                let b = sorted[p - 1].1;
                lemma_text_order(key, a, b);
                lemma_text_order(b, a, key);
                lemma_text_order(a, b, key);
                if i < p - 1 {
                    assert(!text_before(b, a));
                    if text_before(key, a) {
                        if a == b {
                        } else {
                            assert(text_before(a, b));
                            lemma_text_order(key, a, b);
                        }
                    }
                }
            } else if j > p {
                assert(after[j] == sorted[j - 1]);
            } else {
                assert(after[j] == sorted[j]);
            }
        } else if i == p {
            assert(after[j] == sorted[j - 1]);
            lemma_text_order(key, sorted[j - 1].1, key);
        } else {
            assert(after[i] == sorted[i - 1]);
            assert(after[j] == sorted[j - 1]);
        }
    }
}

/// Puts paths in the order of their keys; those with the same key keep their
/// order.
pub fn sort_by_keys(paths: Vec<String>, keys: Vec<String>) -> (sorted: Vec<String>)
    requires
        paths@.len() == keys@.len(),
    ensures
        views(sorted@) == paths_of(sorted_items(with_keys(views(paths@), views(keys@)))),
{
    let ghost items = with_keys(views(paths@), views(keys@));
    let mut sorted: Vec<String> = Vec::new();
    let mut sorted_keys: Vec<String> = Vec::new();
    let mut i: usize = 0;
    assert(items.take(0) =~= seq![]);
    while i < paths.len()
        invariant
            i <= paths@.len() == keys@.len(),
            items == with_keys(views(paths@), views(keys@)),
            sorted@.len() == sorted_keys@.len(),
            with_keys(views(sorted@), views(sorted_keys@)) == sorted_items(items.take(i as int)),
            in_order(with_keys(views(sorted@), views(sorted_keys@))),
        decreases paths.len() - i,
    {
        let ghost view = with_keys(views(sorted@), views(sorted_keys@));
        let path = paths[i].clone();
        let key = keys[i].clone();
        let ghost item = (path@, key@);
        assert(items.take(i + 1).drop_last() =~= items.take(i as int));
        assert(items.take(i + 1).last() == item);
        let mut lo: usize = 0;
        let mut hi: usize = sorted.len();
        while lo < hi
            invariant
                lo <= hi <= sorted_keys@.len() == view.len(),
                sorted@.len() == sorted_keys@.len(),
                view == with_keys(views(sorted@), views(sorted_keys@)),
                in_order(view),
                lo > 0 ==> !text_before(key@, view[lo - 1].1),
                forall|k: int| hi <= k < view.len() ==> text_before(key@, (#[trigger] view[k]).1),
            decreases hi - lo,
        {
            let mid: usize = lo + (hi - lo) / 2;
            assert(view[mid as int].1 == sorted_keys@[mid as int]@);
            if text_less(key.as_str(), sorted_keys[mid].as_str()) {
                assert forall|k: int| mid <= k < view.len() implies text_before(
                    key@,
                    (#[trigger] view[k]).1,
                ) by {
                    if mid < k < hi {
                        let a = view[mid as int].1;
                        let b = view[k].1;
                        assert(!text_before(b, a));
                        lemma_text_order(a, b, key@);
                        lemma_text_order(key@, a, b);
                    }
                }
                hi = mid;
            } else {
                lo = mid + 1;
            }
        }
        proof {
            lemma_placed(view, item, lo as int);
            lemma_insert_keeps_order(view, item, lo as int);
        }
        sorted.insert(lo, path);
        sorted_keys.insert(lo, key);
        assert(with_keys(views(sorted@), views(sorted_keys@)) =~= view.insert(lo as int, item));
        i += 1;
    }
    assert(items.take(i as int) =~= items);
    assert(views(sorted@) =~= paths_of(with_keys(views(sorted@), views(sorted_keys@))));
    sorted
}

/// Puts paths in the order of their lower case.
fn sort_paths(paths: Vec<String>) -> (sorted: Vec<String>)
    ensures
        views(sorted@) == sorted_paths(views(paths@)),
{
    let ghost all = lower_keys(views(paths@));
    let mut keys: Vec<String> = Vec::new();
    let mut i: usize = 0;
    assert(views(keys@) =~= all.take(0));
    while i < paths.len()
        invariant
            i <= paths@.len(),
            all == lower_keys(views(paths@)),
            views(keys@) == all.take(i as int),
        decreases paths.len() - i,
    {
        let key = lowercase(paths[i].as_str());
        push_text(&mut keys, key);
        assert(views(paths@)[i as int] == paths@[i as int]@);
        i += 1;
        assert(views(keys@) =~= all.take(i as int));
    }
    assert(all.take(i as int) =~= all);
    assert(views(keys@).len() == keys@.len());
    sort_by_keys(paths, keys)
}

/// Items are sorted into the order of their keys, and none is lost.
pub proof fn law_sorted_items_are_in_order(items: Seq<(Seq<char>, Seq<char>)>)
    ensures
        in_order(sorted_items(items)),
        sorted_items(items).to_multiset() == items.to_multiset(),
    decreases items.len(),
{
    broadcast use vstd::seq_lib::group_to_multiset_ensures;

    if items.len() > 0 {
        let before = sorted_items(items.drop_last());
        law_sorted_items_are_in_order(items.drop_last());
        let item = items.last();
        let p = place_of(before, item);
        lemma_place_of(before, item);
        lemma_placed(before, item, p);
        lemma_insert_keeps_order(before, item, p);
        assert(items =~= items.drop_last().push(item));
        assert(before.insert(p, item).to_multiset() =~= before.to_multiset().insert(item));
        assert(items.to_multiset() =~= items.drop_last().to_multiset().insert(item));
    }
}

/// The files that are found are shown in the order of their lower case, and none
/// is lost.
pub proof fn law_found_files_are_in_order(paths: Seq<Seq<char>>)
    ensures
        ({
            let items = with_keys(paths, lower_keys(paths));
            &&& sorted_paths(paths) == paths_of(sorted_items(items))
            &&& in_order(sorted_items(items))
            &&& sorted_items(items).to_multiset() == items.to_multiset()
        }),
{
    law_sorted_items_are_in_order(with_keys(paths, lower_keys(paths)));
}

spec fn place_of(sorted: Seq<(Seq<char>, Seq<char>)>, item: (Seq<char>, Seq<char>)) -> int
    decreases sorted.len(),
{
    if sorted.len() == 0 || !text_before(item.1, sorted.last().1) {
        sorted.len() as int
    } else {
        place_of(sorted.drop_last(), item)
    }
}

proof fn lemma_place_of(sorted: Seq<(Seq<char>, Seq<char>)>, item: (Seq<char>, Seq<char>))
    ensures
        0 <= place_of(sorted, item) <= sorted.len(),
        place_of(sorted, item) > 0 ==> !text_before(
            item.1,
            sorted[place_of(sorted, item) - 1].1,
        ),
        forall|i: int|
            place_of(sorted, item) <= i < sorted.len() ==> text_before(
                item.1,
                (#[trigger] sorted[i]).1,
            ),
    decreases sorted.len(),
{
    if sorted.len() > 0 && text_before(item.1, sorted.last().1) {
        let shorter = sorted.drop_last();
        lemma_place_of(shorter, item);
        assert forall|i: int| place_of(sorted, item) <= i < sorted.len() implies text_before(
            item.1,
            (#[trigger] sorted[i]).1,
        ) by {
            if i < shorter.len() {
                assert(shorter[i] == sorted[i]);
            }
        }
    }
}

/// What a find call asks for.
#[derive(Debug)]
pub struct FindPlan {
    pub pattern: String,
    pub path: String,
    pub limit: u64,
    /// The call's label.
    pub args: String,
}

/// What a find call asks for, as mathematics.
pub struct FindPlanView {
    pub pattern: Seq<char>,
    pub path: Seq<char>,
    pub limit: u64,
    pub args: Seq<char>,
}

impl View for FindPlan {
    type V = FindPlanView;

    open spec fn view(&self) -> FindPlanView {
        FindPlanView {
            pattern: self.pattern@,
            path: self.path@,
            limit: self.limit,
            args: self.args@,
        }
    }
}

/// A limit that a call names, at least one and at most the largest.
pub open spec fn limit_of(value: Option<i64>, default: u64) -> u64 {
    match value {
        None => default,
        Some(n) => if n < 1 {
            1
        } else if n > MAX_SEARCH_LIMIT {
            MAX_SEARCH_LIMIT
        } else {
            n as u64
        },
    }
}

/// A limit that a call names, at least one and at most the largest.
pub fn call_limit(value: Option<i64>, default: u64) -> (limit: u64)
    ensures
        limit == limit_of(value, default),
{
    match value {
        None => default,
        Some(n) => {
            if n < 1 {
                1
            } else if n > 2000 {
                MAX_SEARCH_LIMIT
            } else {
                n as u64
            }
        },
    }
}

/// What a find call asks for, or why it is refused.
pub open spec fn find_planned(arguments: Cbor) -> Result<FindPlanView, FailureView> {
    match text_field(arguments, "pattern"@) {
        None => Err(failure(argument_error("pattern"@, "a string"@))),
        Some(pattern) => {
            let path = match text_field(arguments, "path"@) {
                Some(path) => path,
                None => "."@,
            };
            Ok(
                FindPlanView {
                    pattern,
                    path,
                    limit: limit_of(int_field(arguments, "limit"@), DEFAULT_FIND_LIMIT),
                    args: pattern + " in "@ + path,
                },
            )
        },
    }
}

/// What a find call asks for, or why it is refused.
pub fn plan_find(arguments: &CborValue) -> (plan: Result<FindPlan, ToolFailure>)
    ensures
        match plan {
            Ok(plan) => find_planned(arguments@) == Ok::<FindPlanView, FailureView>(plan@),
            Err(f) => find_planned(arguments@) == Err::<FindPlanView, FailureView>(f@),
        },
{
    let pattern = match argument_text(arguments, "pattern") {
        Ok(pattern) => pattern,
        Err(message) => {
            return Err(ToolFailure::new(message));
        },
    };
    let path = match cbor_map_text(arguments, "path") {
        Some(path) => path,
        None => ".".to_owned(),
    };
    let limit = call_limit(cbor_map_int(arguments, "limit"), DEFAULT_FIND_LIMIT);
    let mut args = pattern.clone();
    args.append(" in ");
    args.append(path.as_str());
    Ok(FindPlan { pattern, path, limit, args })
}

/// Why a pattern cannot be used; nothing where it can.
pub open spec fn glob_refusal(pattern: Seq<char>) -> Option<Seq<char>> {
    match glob_parse_error(pattern) {
        Some(error) => Some("invalid glob pattern "@ + debug_of(pattern) + ": "@ + error),
        None => match glob_build_error(pattern) {
            Some(error) => Some(
                "failed to compile glob pattern "@ + debug_of(pattern) + ": "@ + error,
            ),
            None => None,
        },
    }
}

/// Notices below an output, in brackets; nothing where there is none.
pub open spec fn notice_text(notices: Seq<Seq<char>>) -> Seq<char> {
    if notices.len() == 0 {
        seq![]
    } else {
        "\n\n["@ + join_of(notices, " "@) + "]"@
    }
}

/// The entries of a find call's result.
pub open spec fn find_entries(plan: FindPlanView, matches: int, output: Seq<char>) -> Cbor {
    Cbor::Dict(
        seq![
            entry("path", Cbor::Text(plan.path)),
            entry("pattern", Cbor::Text(plan.pattern)),
            entry("matches", Cbor::Integer(matches)),
            entry("output", Cbor::Text(output)),
        ],
    )
}

/// The first so many of some texts.
pub open spec fn first_of(list: Seq<Seq<char>>, limit: u64) -> Seq<Seq<char>> {
    if list.len() <= limit {
        list
    } else {
        list.take(limit as int)
    }
}

/// What is said below found files that are not all of them.
pub open spec fn find_notices(limit: u64, limited: bool, cut: bool) -> Seq<Seq<char>> {
    let first = if limited {
        seq![
            decimal_of(limit as nat) + " results limit reached. Use limit="@ + decimal_of(
                2 * limit as nat,
            ) + " for more, or refine pattern."@,
        ]
    } else {
        seq![]
    };
    if cut {
        first.push("50KB/2000 line output limit reached."@)
    } else {
        first
    }
}

/// The output of a find call that found files.
pub open spec fn find_output(found: Seq<Seq<char>>, limit: u64) -> Seq<char> {
    let shown = join_of(first_of(found, limit), "\n"@);
    let list = lines_of(shown);
    let cut = is_truncated(list, list.len(), utf8_len(shown));
    (if cut {
        truncated_content(list, list.len())
    } else {
        shown
    }) + notice_text(find_notices(limit, found.len() > limit, cut))
}

/// The outcome of a find call, from the files that match.
pub open spec fn find_result(plan: FindPlanView, found: Seq<Seq<char>>) -> OutputView {
    if found.len() == 0 {
        OutputView {
            result: find_entries(plan, 0, "no files found matching pattern"@),
            display: plain_state(plan.args, ToolUseStatus::Success, "ok: no matches"@),
        }
    } else {
        let output = find_output(found, plan.limit);
        OutputView {
            result: find_entries(plan, as_i64(found.len() as int), output),
            display: StateView {
                stats: stats_of(output),
                ..plain_state(plan.args, ToolUseStatus::Success, "ok"@)
            },
        }
    }
}

fn find_result_value(plan: &FindPlan, matches: i128, output: String) -> (value: CborValue)
    ensures
        value@ == find_entries(plan@, matches as int, output@),
{
    broadcast use group_cbor_views;

    let mut entries: Vec<(CborValue, CborValue)> = Vec::new();
    push_entry(&mut entries, "path", CborValue::Text(plan.path.clone()));
    push_entry(&mut entries, "pattern", CborValue::Text(plan.pattern.clone()));
    push_entry(&mut entries, "matches", CborValue::Integer(matches));
    push_entry(&mut entries, "output", CborValue::Text(output));
    assert(entry_views(entries@) =~= find_entries(plan@, matches as int, output@)->Dict_0);
    CborValue::Dict(entries)
}

/// A count in 64 bits with a sign.
fn signed_count(n: u64) -> (value: i128)
    ensures
        value == as_i64(n as int),
{
    let wide: i128 = n as i128;
    if wide <= 9223372036854775807i128 {
        wide
    } else {
        wide - 18446744073709551616i128
    }
}

/// The outcome of a find call, from the files that match, in order.
pub fn render_found(plan: &FindPlan, found: &Vec<String>) -> (output: ToolOutput)
    requires
        plan.limit <= i64::MAX,
    ensures
        output@ == find_result(plan@, views(found@)),
{
    let total: usize = found.len();
    if total == 0 {
        let mut display = ok_display(plan.args.as_str());
        display.status_text = "ok: no matches".to_owned();
        return ToolOutput {
            result: find_result_value(plan, 0, "no files found matching pattern".to_owned()),
            display,
        };
    }
    let ghost all = views(found@);
    let limited = total as u64 > plan.limit;
    let mut shown: Vec<String> = Vec::new();
    let mut i: usize = 0;
    assert(views(shown@) =~= all.take(0));
    while i < total && (i as u64) < plan.limit
        invariant
            i <= total == found@.len(),
            i <= plan.limit,
            all == views(found@),
            views(shown@) == all.take(i as int),
        decreases total - i,
    {
        push_text(&mut shown, found[i].clone());
        i += 1;
        assert(views(shown@) =~= all.take(i as int));
    }
    assert(views(shown@) =~= first_of(all, plan.limit));
    let mut output = join(&shown, "\n");
    let truncated = truncate_head(output.as_str());
    let cut = truncated.was_truncated;
    if cut {
        output = truncated.content;
    }
    let mut notices: Vec<String> = Vec::new();
    assert(views(notices@) =~= seq![]);
    if limited {
        let mut notice = decimal(plan.limit);
        notice.append(" results limit reached. Use limit=");
        notice.append(decimal(plan.limit * 2).as_str());
        notice.append(" for more, or refine pattern.");
        push_text(&mut notices, notice);
    }
    if cut {
        push_text(&mut notices, "50KB/2000 line output limit reached.".to_owned());
    }
    assert(views(notices@) =~= find_notices(plan.limit, limited, cut));
    let ghost bare = output@;
    if !notices.is_empty() {
        output.append("\n\n[");
        output.append(join(&notices, " ").as_str());
        output.append("]");
    }
    assert(output@ =~= bare + notice_text(find_notices(plan.limit, limited, cut)));
    let mut display = ok_display(plan.args.as_str());
    display.stats = text_stats(output.as_str());
    ToolOutput { result: find_result_value(plan, signed_count(total as u64), output), display }
}

/// The paths of the files among what was found.
fn only_files(found: &Vec<WalkEntry>) -> (paths: Vec<String>)
    ensures
        views(paths@) == file_paths(found@),
{
    let mut paths: Vec<String> = Vec::new();
    let mut i: usize = 0;
    assert(views(paths@) =~= file_paths(found@.take(0)));
    while i < found.len()
        invariant
            i <= found@.len(),
            views(paths@) == file_paths(found@.take(i as int)),
        decreases found.len() - i,
    {
        assert(found@.take(i + 1).drop_last() =~= found@.take(i as int));
        if found[i].is_file {
            push_text(&mut paths, found[i].path.clone());
        }
        i += 1;
    }
    assert(found@.take(i as int) =~= found@);
    paths
}

/// The outcome of a find call. `directory` says whether the path is one, or why
/// it cannot be looked at; `walk` is what stands below it, or why it cannot be
/// walked.
pub fn run_find(
    arguments: &CborValue,
    directory: &Result<bool, String>,
    walk: &Result<Vec<WalkEntry>, String>,
) -> (outcome: Result<ToolOutput, ToolFailure>)
    ensures
        outcome_view(outcome) == match find_planned(arguments@) {
            Err(f) => Err(f),
            Ok(plan) => match directory {
                Err(error) => Err(
                    failure_with_args(
                        "failed to access "@ + plan.path + ": "@ + error@,
                        plan.args,
                    ),
                ),
                Ok(false) => Err(
                    failure_with_args("not a directory: "@ + plan.path, plan.args),
                ),
                Ok(true) => match (glob_refusal(plan.pattern), walk) {
                    (Some(message), _) => Err(failure_with_args(message, plan.args)),
                    (None, Err(error)) => Err(
                        failure_with_args(
                            "failed to walk "@ + plan.path + ": "@ + error@,
                            plan.args,
                        ),
                    ),
                    (None, Ok(found)) => Ok(
                        find_result(
                            plan,
                            sorted_paths(matching(file_paths(found@), plan.pattern)),
                        ),
                    ),
                },
            },
        },
{
    let plan = match plan_find(arguments) {
        Ok(plan) => plan,
        Err(f) => {
            return Err(f);
        },
    };
    match directory {
        Err(error) => {
            let mut message = "failed to access ".to_owned();
            message.append(plan.path.as_str());
            message.append(": ");
            message.append(error.as_str());
            return Err(ToolFailure::new(message).with_args(plan.args));
        },
        Ok(is_dir) => {
            if !*is_dir {
                let mut message = "not a directory: ".to_owned();
                message.append(plan.path.as_str());
                return Err(ToolFailure::new(message).with_args(plan.args));
            }
        },
    }
    if let Some(error) = parse_glob(plan.pattern.as_str()) {
        let mut message = "invalid glob pattern ".to_owned();
        message.append(debug_text(plan.pattern.as_str()).as_str());
        message.append(": ");
        message.append(error.as_str());
        return Err(ToolFailure::new(message).with_args(plan.args));
    }
    let paths = match walk {
        Ok(found) => only_files(found),
        Err(_) => Vec::new(),
    };
    let flags = match match_glob(plan.pattern.as_str(), &paths) {
        Ok(flags) => flags,
        Err(error) => {
            let mut message = "failed to compile glob pattern ".to_owned();
            message.append(debug_text(plan.pattern.as_str()).as_str());
            message.append(": ");
            message.append(error.as_str());
            return Err(ToolFailure::new(message).with_args(plan.args));
        },
    };
    if let Err(error) = walk {
        let mut message = "failed to walk ".to_owned();
        message.append(plan.path.as_str());
        message.append(": ");
        message.append(error.as_str());
        return Err(ToolFailure::new(message).with_args(plan.args));
    }
    proof {
        assert forall|i: int| 0 <= i < views(paths@).len() implies #[trigger] flags@[i]
            == glob_match(plan.pattern@, views(paths@)[i]) by {
            assert(views(paths@)[i] == paths@[i]@);
        }
        lemma_flagged(views(paths@), flags@, plan.pattern@);
    }
    let found = select_paths(&paths, &flags);
    let sorted = sort_paths(found);
    Ok(render_found(&plan, &sorted))
}

/// The paths that are marked, with slashes.
pub fn select_paths(paths: &Vec<String>, flags: &Vec<bool>) -> (found: Vec<String>)
    requires
        flags@.len() == paths@.len(),
    ensures
        views(found@) == flagged(views(paths@), flags@),
{
    let ghost all = views(paths@);
    let mut found: Vec<String> = Vec::new();
    let mut i: usize = 0;
    assert(views(found@) =~= flagged(all.take(0), flags@));
    while i < paths.len()
        invariant
            i <= paths@.len() == flags@.len(),
            all == views(paths@),
            views(found@) == flagged(all.take(i as int), flags@),
        decreases paths.len() - i,
    {
        assert(all.take(i + 1).drop_last() =~= all.take(i as int));
        assert(all.take(i + 1).last() == paths@[i as int]@);
        if flags[i] {
            push_text(&mut found, path_to_slash(paths[i].as_str()));
        }
        i += 1;
    }
    assert(all.take(i as int) =~= all);
    found
}

} // verus!
