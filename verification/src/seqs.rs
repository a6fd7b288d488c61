//! Sequences with some of their items left out.

use vstd::prelude::*;

verus! {

/// The items that a condition holds of, in their order.
pub open spec fn keep<A>(items: Seq<A>, holds: spec_fn(A) -> bool) -> Seq<A>
    decreases items.len(),
{
    if items.len() == 0 {
        seq![]
    } else if holds(items.last()) {
        keep(items.drop_last(), holds).push(items.last())
    } else {
        keep(items.drop_last(), holds)
    }
}

/// What is kept was there and meets the condition, and nothing else is left
/// out.
pub proof fn lemma_keep<A>(items: Seq<A>, holds: spec_fn(A) -> bool)
    ensures
        keep(items, holds).len() <= items.len(),
        forall|i: int|
            0 <= i < keep(items, holds).len() ==> holds(#[trigger] keep(items, holds)[i])
                && items.contains(keep(items, holds)[i]),
        forall|i: int|
            0 <= i < items.len() && holds(#[trigger] items[i]) ==> keep(items, holds).contains(
                items[i],
            ),
        keep(items, holds).len() == items.len() ==> keep(items, holds) == items,
        keep(items, holds).len() < items.len() ==> exists|i: int|
            0 <= i < items.len() && !holds(#[trigger] items[i]),
    decreases items.len(),
{
    if items.len() > 0 {
        let shorter = items.drop_last();
        let before = keep(shorter, holds);
        let after = keep(items, holds);
        lemma_keep(shorter, holds);
        assert(items =~= shorter.push(items.last()));
        assert forall|i: int| 0 <= i < after.len() implies holds(#[trigger] after[i])
            && items.contains(after[i]) by {
            if i < before.len() {
                assert(after[i] == before[i]);
                let k = choose|k: int| 0 <= k < shorter.len() && shorter[k] == before[i];
                assert(items[k] == after[i]);
            } else {
                assert(items[items.len() - 1] == after[i]);
            }
        }
        assert forall|i: int| 0 <= i < items.len() && holds(#[trigger] items[i]) implies after.contains(
        items[i]) by {
            if i < shorter.len() {
                assert(shorter[i] == items[i]);
                let k = choose|k: int| 0 <= k < before.len() && before[k] == shorter[i];
                assert(after[k] == items[i]);
            } else {
                assert(after[after.len() - 1] == items[i]);
            }
        }
        if after.len() == items.len() {
            assert(before.len() == shorter.len());
            assert(after =~= items);
        } else {
            if before.len() < shorter.len() {
                let k = choose|k: int| 0 <= k < shorter.len() && !holds(#[trigger] shorter[k]);
                assert(!holds(items[k]));
            } else {
                assert(!holds(items[items.len() - 1]));
            }
        }
    }
}

/// What is kept comes from the sequence in the same order.
pub proof fn lemma_keep_order<A>(items: Seq<A>, holds: spec_fn(A) -> bool) -> (at: spec_fn(
    int,
) -> int)
    ensures
        forall|i: int|
            0 <= i < keep(items, holds).len() ==> 0 <= #[trigger] at(i) < items.len()
                && items[at(i)] == keep(items, holds)[i],
        forall|i: int, j: int|
            0 <= i < j < keep(items, holds).len() ==> #[trigger] at(i) < #[trigger] at(j),
    decreases items.len(),
{
    if items.len() == 0 {
        |i: int| i
    } else {
        let shorter = items.drop_last();
        let before = lemma_keep_order(shorter, holds);
        let n = keep(shorter, holds).len();
        let last = items.len() - 1;
        let at = |i: int|
            if i < n {
                before(i)
            } else {
                last
            };
        assert forall|i: int| 0 <= i < keep(items, holds).len() implies 0 <= #[trigger] at(i)
            < items.len() && items[at(i)] == keep(items, holds)[i] by {
            if i < n {
                assert(0 <= before(i) < shorter.len());
                assert(shorter[before(i)] == items[before(i)]);
            }
        }
        assert forall|i: int, j: int| 0 <= i < j < keep(items, holds).len() implies #[trigger] at(i)
            < #[trigger] at(j) by {
            assert(0 <= before(i) < shorter.len());
            if j < n {
                assert(before(i) < before(j));
            }
        }
        at
    }
}

} // verus!
