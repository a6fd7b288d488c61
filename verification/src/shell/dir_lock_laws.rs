//! What holds of the directory locks at all times: agents never hold
//! overlapping directories against each other.

use vstd::prelude::*;

use crate::path::{lies_in, overlap};
use crate::seqs::{keep, lemma_keep, lemma_keep_order};
use crate::shell::dir_lock::{
    any_overlap, dirs_overlap, held_at, owned_overlapping, AutoStartView, AutoView, LockView,
    LockWaitPolicy, ManualStartView, ManualView, WaitKind, WaiterView,
};

verus! {

/// Two automatic locks that overlap belong to one agent.
pub open spec fn autos_apart(automatic: Seq<AutoView>) -> bool {
    forall|i: int, j: int|
        0 <= i < automatic.len() && 0 <= j < automatic.len() && i != j && dirs_overlap(
            (#[trigger] automatic[i]).dirs,
            (#[trigger] automatic[j]).dirs,
        ) ==> automatic[i].owner == automatic[j].owner
}

/// A manual and an automatic lock that overlap belong to one agent.
pub open spec fn kinds_apart(manual: Seq<ManualView>, automatic: Seq<AutoView>) -> bool {
    forall|i: int, j: int|
        0 <= i < manual.len() && 0 <= j < automatic.len() && any_overlap(
            (#[trigger] manual[i]).dir,
            (#[trigger] automatic[j]).dirs,
        ) ==> manual[i].owner == automatic[j].owner
}

/// No two manual locks overlap, not even those of one agent.
pub open spec fn manuals_apart(manual: Seq<ManualView>) -> bool {
    forall|i: int, j: int|
        0 <= i < manual.len() && 0 <= j < manual.len() && i != j ==> !overlap(
            (#[trigger] manual[i]).dir,
            (#[trigger] manual[j]).dir,
        )
}

/// Automatic locks have different numbers, all of them given out.
pub open spec fn auto_ids_differ(automatic: Seq<AutoView>, next: u64) -> bool {
    &&& forall|i: int| 0 <= i < automatic.len() ==> (#[trigger] automatic[i]).id < next
    &&& forall|i: int, j: int|
        0 <= i < automatic.len() && 0 <= j < automatic.len() && i != j ==> (
        #[trigger] automatic[i]).id != (#[trigger] automatic[j]).id
}

/// Waiters stand in the order in which they came, and a waiter for a manual
/// lock wants one directory.
pub open spec fn queue_in_order(waiters: Seq<WaiterView>, next: u64) -> bool {
    &&& forall|i: int| 0 <= i < waiters.len() ==> (#[trigger] waiters[i]).id < next
    &&& forall|i: int, j: int|
        0 <= i < j < waiters.len() ==> (#[trigger] waiters[i]).id < (#[trigger] waiters[j]).id
    &&& forall|i: int|
        0 <= i < waiters.len() && (#[trigger] waiters[i]).kind == WaitKind::Manual
            ==> waiters[i].dirs.len() == 1
}

/// What holds of the locks at all times.
pub open spec fn exclusive(s: LockView) -> bool {
    &&& autos_apart(s.automatic)
    &&& kinds_apart(s.manual, s.automatic)
    &&& manuals_apart(s.manual)
    &&& auto_ids_differ(s.automatic, s.next_auto_id)
    &&& queue_in_order(s.waiters, s.next_waiter_id)
}

proof fn lemma_dirs_overlap_symmetric(a: Seq<Seq<Seq<char>>>, b: Seq<Seq<Seq<char>>>)
    ensures
        dirs_overlap(a, b) == dirs_overlap(b, a),
{
    if dirs_overlap(a, b) {
        let i = choose|i: int| 0 <= i < a.len() && any_overlap(#[trigger] a[i], b);
        let j = choose|j: int| 0 <= j < b.len() && overlap(a[i], #[trigger] b[j]);
        assert(overlap(b[j], a[i]));
        assert(any_overlap(b[j], a));
    }
    if dirs_overlap(b, a) {
        let i = choose|i: int| 0 <= i < b.len() && any_overlap(#[trigger] b[i], a);
        let j = choose|j: int| 0 <= j < a.len() && overlap(b[i], #[trigger] a[j]);
        assert(overlap(a[j], b[i]));
        assert(any_overlap(a[j], b));
    }
}

proof fn lemma_owned_none(
    manual: Seq<ManualView>,
    owner: Seq<char>,
    dirs: Seq<Seq<Seq<char>>>,
    i: int,
)
    requires
        owned_overlapping(manual, owner, dirs) is None,
        0 <= i < manual.len(),
        manual[i].owner == owner,
    ensures
        !any_overlap(manual[i].dir, dirs),
    decreases manual.len(),
{
    if i > 0 {
        assert(manual.drop_first()[i - 1] == manual[i]);
        lemma_owned_none(manual.drop_first(), owner, dirs, i - 1);
    }
}

/// Granting an automatic lock that nothing is in the way of keeps agents apart.
proof fn lemma_add_auto(
    s: LockView,
    owner: Seq<char>,
    dirs: Seq<Seq<Seq<char>>>,
    kind: WaitKind,
    now: u128,
)
    requires
        exclusive(s),
        !s.has_conflict(owner, dirs, kind),
        s.next_auto_id < u64::MAX,
    ensures
        exclusive(s.add_auto(owner, dirs, now)),
{
    let t = s.add_auto(owner, dirs, now);
    let n = s.automatic.len() as int;
    assert forall|i: int| 0 <= i < s.manual.len() implies (#[trigger] t.manual[i]).owner
        == s.manual[i].owner && t.manual[i].dir == s.manual[i].dir by {}
    assert forall|i: int| 0 <= i < n implies #[trigger] t.automatic[i] == s.automatic[i] by {}
    assert forall|j: int| 0 <= j < n && dirs_overlap((#[trigger] s.automatic[j]).dirs, dirs) implies s.automatic[j].owner
        == owner by {
        assert(!s.blocked_by_auto(s.automatic[j], owner, dirs, kind));
    }
    assert forall|i: int, j: int|
        0 <= i < t.automatic.len() && 0 <= j < t.automatic.len() && i != j && dirs_overlap(
            (#[trigger] t.automatic[i]).dirs,
            (#[trigger] t.automatic[j]).dirs,
        ) implies t.automatic[i].owner == t.automatic[j].owner by {
        lemma_dirs_overlap_symmetric(t.automatic[i].dirs, t.automatic[j].dirs);
        if i < n && j < n {
            assert(s.automatic[i] == t.automatic[i] && s.automatic[j] == t.automatic[j]);
        } else if i < n {
            assert(s.automatic[i] == t.automatic[i]);
        } else {
            assert(s.automatic[j] == t.automatic[j]);
        }
    }
    assert forall|i: int, j: int|
        0 <= i < t.manual.len() && 0 <= j < t.automatic.len() && any_overlap(
            (#[trigger] t.manual[i]).dir,
            (#[trigger] t.automatic[j]).dirs,
        ) implies t.manual[i].owner == t.automatic[j].owner by {
        if j == n {
            assert(!s.blocked_by_manual(s.manual[i], owner, dirs, kind));
        } else {
            assert(any_overlap(s.manual[i].dir, s.automatic[j].dirs));
        }
    }
    assert(manuals_apart(t.manual)) by {
        assert forall|i: int, j: int|
            0 <= i < t.manual.len() && 0 <= j < t.manual.len() && i != j implies !overlap(
            (#[trigger] t.manual[i]).dir,
            (#[trigger] t.manual[j]).dir,
        ) by {
            assert(!overlap(s.manual[i].dir, s.manual[j].dir));
        }
    }
}

/// Granting a manual lock on one directory that nothing is in the way of keeps
/// agents apart.
proof fn lemma_add_manual(
    s: LockView,
    owner: Seq<char>,
    dirs: Seq<Seq<Seq<char>>>,
    now: u128,
)
    requires
        exclusive(s),
        dirs.len() == 1,
        !s.has_conflict(owner, dirs, WaitKind::Manual),
        owned_overlapping(s.manual, owner, dirs) is None,
    ensures
        exclusive(s.add_manual(owner, dirs, now)),
{
    let t = s.add_manual(owner, dirs, now);
    let n = s.manual.len() as int;
    let dir = dirs[0];
    assert(t.manual.len() == n + 1);
    assert(t.manual[n].dir == dir && t.manual[n].owner == owner);
    assert forall|i: int| 0 <= i < n implies !overlap((#[trigger] s.manual[i]).dir, dir) by {
        assert(!s.blocked_by_manual(s.manual[i], owner, dirs, WaitKind::Manual));
        if s.manual[i].owner == owner {
            lemma_owned_none(s.manual, owner, dirs, i);
        }
        if overlap(s.manual[i].dir, dir) {
            assert(any_overlap(s.manual[i].dir, dirs));
        }
    }
    assert forall|i: int, j: int|
        0 <= i < t.manual.len() && 0 <= j < t.manual.len() && i != j implies !overlap(
        (#[trigger] t.manual[i]).dir,
        (#[trigger] t.manual[j]).dir,
    ) by {
        if i < n && j < n {
            assert(t.manual[i] == s.manual[i] && t.manual[j] == s.manual[j]);
        } else if i < n {
            assert(t.manual[i] == s.manual[i]);
        } else {
            assert(t.manual[j] == s.manual[j]);
        }
    }
    assert forall|i: int, j: int|
        0 <= i < t.manual.len() && 0 <= j < t.automatic.len() && any_overlap(
            (#[trigger] t.manual[i]).dir,
            (#[trigger] t.automatic[j]).dirs,
        ) implies t.manual[i].owner == t.automatic[j].owner by {
        if i < n {
            assert(t.manual[i] == s.manual[i]);
        } else {
            assert(!s.blocked_by_auto(s.automatic[j], owner, dirs, WaitKind::Manual));
            let k = choose|k: int|
                0 <= k < s.automatic[j].dirs.len() && overlap(
                    dir,
                    #[trigger] s.automatic[j].dirs[k],
                );
            assert(overlap(s.automatic[j].dirs[k], dirs[0]));
            assert(any_overlap(s.automatic[j].dirs[k], dirs));
            assert(dirs_overlap(s.automatic[j].dirs, dirs));
        }
    }
}

proof fn lemma_pop_waiter(s: LockView)
    requires
        exclusive(s),
        s.waiters.len() > 0,
    ensures
        exclusive(s.pop_waiter()),
{
    let t = s.pop_waiter();
    assert forall|i: int| 0 <= i < t.waiters.len() implies #[trigger] t.waiters[i]
        == s.waiters[i + 1] by {}
}

proof fn lemma_push_waiter(
    s: LockView,
    call_id: Seq<char>,
    owner: Seq<char>,
    dirs: Seq<Seq<Seq<char>>>,
    kind: WaitKind,
)
    requires
        exclusive(s),
        s.next_waiter_id < u64::MAX,
        kind == WaitKind::Manual ==> dirs.len() == 1,
    ensures
        exclusive(s.push_waiter(call_id, owner, dirs, kind)),
{
}

/// With no locks there is nothing to keep apart.
pub proof fn law_fresh_locks_are_exclusive()
    ensures
        exclusive(LockView::fresh()),
{
}

/// Asking for an automatic lock keeps agents apart.
pub proof fn law_start_auto_keeps_exclusion(
    s: LockView,
    call_id: Seq<char>,
    owner: Seq<char>,
    dirs: Seq<Seq<Seq<char>>>,
    require_manual_cover: bool,
    now: u128,
)
    requires
        exclusive(s),
        s.next_auto_id < u64::MAX,
        s.next_waiter_id < u64::MAX,
    ensures
        exclusive(s.start_auto(call_id, owner, dirs, require_manual_cover, now).0),
{
    match s.start_auto(call_id, owner, dirs, require_manual_cover, now).1 {
        AutoStartView::Granted { .. } => {
            lemma_add_auto(s, owner, dirs, WaitKind::Automatic, now);
        },
        AutoStartView::Waiting { .. } => {
            lemma_push_waiter(s, call_id, owner, dirs, WaitKind::Automatic);
        },
        _ => {},
    }
}

/// Looking at a waiter for an automatic lock keeps agents apart.
pub proof fn law_poll_auto_keeps_exclusion(
    s: LockView,
    waiter: u64,
    require_manual_cover: bool,
    next_check: u128,
    now: u128,
    policy: LockWaitPolicy,
)
    requires
        exclusive(s),
        s.next_auto_id < u64::MAX,
    ensures
        exclusive(s.poll_auto(waiter, require_manual_cover, next_check, now, policy).0),
{
    if s.is_waiting(waiter) {
        let front = s.waiters[0];
        lemma_pop_waiter(s);
        if !s.has_conflict(front.owner, front.dirs, front.kind) {
            let t = s.pop_waiter();
            assert(!t.has_conflict(front.owner, front.dirs, front.kind)) by {
                assert forall|i: int| 0 <= i < t.automatic.len() implies !t.blocked_by_auto(
                    #[trigger] t.automatic[i],
                    front.owner,
                    front.dirs,
                    front.kind,
                ) by {
                    assert(!s.blocked_by_auto(
                        s.automatic[i],
                        front.owner,
                        front.dirs,
                        front.kind,
                    ));
                }
                assert forall|i: int| 0 <= i < t.manual.len() implies !t.blocked_by_manual(
                    #[trigger] t.manual[i],
                    front.owner,
                    front.dirs,
                    front.kind,
                ) by {
                    assert(!s.blocked_by_manual(
                        s.manual[i],
                        front.owner,
                        front.dirs,
                        front.kind,
                    ));
                }
            }
            lemma_add_auto(t, front.owner, front.dirs, front.kind, now);
        }
    }
}

/// Asking for a manual lock keeps agents apart.
pub proof fn law_start_manual_keeps_exclusion(
    s: LockView,
    call_id: Seq<char>,
    owner: Seq<char>,
    dir: Seq<Seq<char>>,
    now: u128,
)
    requires
        exclusive(s),
        s.next_waiter_id < u64::MAX,
    ensures
        exclusive(s.start_manual(call_id, owner, dir, now).0),
{
    match s.start_manual(call_id, owner, dir, now).1 {
        ManualStartView::Granted => {
            lemma_add_manual(s, owner, seq![dir], now);
        },
        ManualStartView::Waiting { .. } => {
            lemma_push_waiter(s, call_id, owner, seq![dir], WaitKind::Manual);
        },
        _ => {},
    }
}

/// Looking at a waiter for a manual lock keeps agents apart.
pub proof fn law_poll_manual_keeps_exclusion(
    s: LockView,
    waiter: u64,
    next_check: u128,
    now: u128,
    policy: LockWaitPolicy,
)
    requires
        exclusive(s),
        forall|i: int|
            0 <= i < s.waiters.len() && (#[trigger] s.waiters[i]).id == waiter
                ==> s.waiters[i].kind == WaitKind::Manual,
    ensures
        exclusive(s.poll_manual(waiter, next_check, now, policy).0),
{
    if s.is_waiting(waiter) {
        let front = s.waiters[0];
        lemma_pop_waiter(s);
        if front.id == waiter && owned_overlapping(s.manual, front.owner, front.dirs) is None
            && !s.has_conflict(front.owner, front.dirs, front.kind) {
            let t = s.pop_waiter();
            assert(!t.has_conflict(front.owner, front.dirs, front.kind)) by {
                assert forall|i: int| 0 <= i < t.automatic.len() implies !t.blocked_by_auto(
                    #[trigger] t.automatic[i],
                    front.owner,
                    front.dirs,
                    front.kind,
                ) by {
                    assert(!s.blocked_by_auto(
                        s.automatic[i],
                        front.owner,
                        front.dirs,
                        front.kind,
                    ));
                }
                assert forall|i: int| 0 <= i < t.manual.len() implies !t.blocked_by_manual(
                    #[trigger] t.manual[i],
                    front.owner,
                    front.dirs,
                    front.kind,
                ) by {
                    assert(!s.blocked_by_manual(
                        s.manual[i],
                        front.owner,
                        front.dirs,
                        front.kind,
                    ));
                }
            }
            lemma_add_manual(t, front.owner, front.dirs, now);
        }
    }
}

/// Leaving out locks and waiters keeps what holds of the others.
proof fn lemma_fewer(s: LockView, t: LockView, manual: spec_fn(ManualView) -> bool, auto: spec_fn(
    AutoView,
) -> bool, waiter: spec_fn(WaiterView) -> bool)
    requires
        exclusive(s),
        t.manual == keep(s.manual, manual),
        t.automatic == keep(s.automatic, auto),
        t.waiters == keep(s.waiters, waiter),
        t.next_auto_id == s.next_auto_id,
        t.next_waiter_id == s.next_waiter_id,
    ensures
        exclusive(t),
{
    let m = lemma_keep_order(s.manual, manual);
    let a = lemma_keep_order(s.automatic, auto);
    let w = lemma_keep_order(s.waiters, waiter);
    assert forall|i: int, j: int|
        0 <= i < t.automatic.len() && 0 <= j < t.automatic.len() && i != j implies #[trigger] a(i) != #[trigger] a(
        j,
    ) by {
        if i < j {
            assert(a(i) < a(j));
        } else {
            assert(a(j) < a(i));
        }
    }
    assert forall|i: int, j: int|
        0 <= i < t.manual.len() && 0 <= j < t.manual.len() && i != j implies #[trigger] m(i) != #[trigger] m(j) by {
        if i < j {
            assert(m(i) < m(j));
        } else {
            assert(m(j) < m(i));
        }
    }
    assert forall|i: int, j: int|
        0 <= i < t.automatic.len() && 0 <= j < t.automatic.len() && i != j && dirs_overlap(
            (#[trigger] t.automatic[i]).dirs,
            (#[trigger] t.automatic[j]).dirs,
        ) implies t.automatic[i].owner == t.automatic[j].owner by {
        assert(s.automatic[a(i)] == t.automatic[i] && s.automatic[a(j)] == t.automatic[j]);
        assert(a(i) != a(j));
    }
    assert forall|i: int, j: int|
        0 <= i < t.manual.len() && 0 <= j < t.automatic.len() && any_overlap(
            (#[trigger] t.manual[i]).dir,
            (#[trigger] t.automatic[j]).dirs,
        ) implies t.manual[i].owner == t.automatic[j].owner by {
        assert(s.manual[m(i)] == t.manual[i] && s.automatic[a(j)] == t.automatic[j]);
    }
    assert forall|i: int, j: int|
        0 <= i < t.manual.len() && 0 <= j < t.manual.len() && i != j implies !overlap(
        (#[trigger] t.manual[i]).dir,
        (#[trigger] t.manual[j]).dir,
    ) by {
        assert(s.manual[m(i)] == t.manual[i] && s.manual[m(j)] == t.manual[j]);
        assert(m(i) != m(j));
    }
    assert forall|i: int| 0 <= i < t.automatic.len() implies (#[trigger] t.automatic[i]).id
        < t.next_auto_id by {
        assert(s.automatic[a(i)] == t.automatic[i]);
    }
    assert forall|i: int, j: int|
        0 <= i < t.automatic.len() && 0 <= j < t.automatic.len() && i != j implies (
    #[trigger] t.automatic[i]).id != (#[trigger] t.automatic[j]).id by {
        assert(s.automatic[a(i)] == t.automatic[i] && s.automatic[a(j)] == t.automatic[j]);
        assert(a(i) != a(j));
    }
    assert forall|i: int| 0 <= i < t.waiters.len() implies (#[trigger] t.waiters[i]).id
        < t.next_waiter_id by {
        assert(s.waiters[w(i)] == t.waiters[i]);
    }
    assert forall|i: int, j: int| 0 <= i < j < t.waiters.len() implies (
    #[trigger] t.waiters[i]).id < (#[trigger] t.waiters[j]).id by {
        assert(w(i) < w(j));
        assert(s.waiters[w(i)] == t.waiters[i] && s.waiters[w(j)] == t.waiters[j]);
    }
    assert forall|i: int|
        0 <= i < t.waiters.len() && (#[trigger] t.waiters[i]).kind == WaitKind::Manual implies t.waiters[i].dirs.len()
        == 1 by {
        assert(s.waiters[w(i)] == t.waiters[i]);
    }
}

proof fn lemma_keep_all<A>(items: Seq<A>, holds: spec_fn(A) -> bool)
    requires
        forall|i: int| 0 <= i < items.len() ==> holds(#[trigger] items[i]),
    ensures
        keep(items, holds) == items,
{
    lemma_keep(items, holds);
    if keep(items, holds).len() < items.len() {
        let i = choose|i: int| 0 <= i < items.len() && !holds(#[trigger] items[i]);
    }
}

/// Turning a waiter away keeps agents apart.
pub proof fn law_cancel_keeps_exclusion(s: LockView, call_id: Seq<char>)
    requires
        exclusive(s),
    ensures
        exclusive(s.cancel_call(call_id)),
{
    lemma_keep_all(s.manual, |l: ManualView| true);
    lemma_keep_all(s.automatic, |l: AutoView| true);
    lemma_fewer(
        s,
        s.cancel_call(call_id),
        |l: ManualView| true,
        |l: AutoView| true,
        |w: WaiterView| w.call_id != call_id,
    );
}

/// Releasing locks by force keeps agents apart.
pub proof fn law_force_unlock_keeps_exclusion(s: LockView, dir: Seq<Seq<char>>)
    requires
        exclusive(s),
    ensures
        exclusive(s.force_unlock(dir)),
{
    lemma_keep_all(s.waiters, |l: WaiterView| true);
    lemma_keep_all(s.automatic, |l: AutoView| true);
    lemma_fewer(
        s,
        s.force_unlock(dir),
        |l: ManualView| !overlap(l.dir, dir),
        |l: AutoView| true,
        |w: WaiterView| true,
    );
}

/// An agent that leaves keeps the others apart.
pub proof fn law_release_agent_keeps_exclusion(s: LockView, owner: Seq<char>)
    requires
        exclusive(s),
    ensures
        exclusive(s.release_agent(owner)),
{
    lemma_keep_all(s.automatic, |l: AutoView| true);
    lemma_fewer(
        s,
        s.release_agent(owner),
        |l: ManualView| l.owner != owner,
        |l: AutoView| true,
        |w: WaiterView| w.owner != owner,
    );
}

/// Turning locking off keeps what is left apart.
pub proof fn law_disable_keeps_exclusion(s: LockView)
    requires
        exclusive(s),
    ensures
        exclusive(s.disable()),
{
}

/// Giving a manual lock back keeps agents apart.
pub proof fn law_unlock_keeps_exclusion(s: LockView, owner: Seq<char>, dir: Seq<Seq<char>>)
    requires
        exclusive(s),
    ensures
        exclusive(s.unlock(owner, dir)),
{
    let t = s.unlock(owner, dir);
    let p = held_at(s.manual, owner, dir);
    lemma_held_at(s.manual, owner, dir);
    if p < s.manual.len() {
        assert forall|i: int| 0 <= i < t.manual.len() implies #[trigger] t.manual[i] == s.manual[if i
            < p {
            i
        } else {
            i + 1
        }] by {}
        assert forall|i: int, j: int|
            0 <= i < t.manual.len() && 0 <= j < t.manual.len() && i != j implies !overlap(
            (#[trigger] t.manual[i]).dir,
            (#[trigger] t.manual[j]).dir,
        ) by {
            let a = if i < p {
                i
            } else {
                i + 1
            };
            let b = if j < p {
                j
            } else {
                j + 1
            };
            assert(!overlap(s.manual[a].dir, s.manual[b].dir));
        }
        assert forall|i: int, j: int|
            0 <= i < t.manual.len() && 0 <= j < t.automatic.len() && any_overlap(
                (#[trigger] t.manual[i]).dir,
                (#[trigger] t.automatic[j]).dirs,
            ) implies t.manual[i].owner == t.automatic[j].owner by {
            let a = if i < p {
                i
            } else {
                i + 1
            };
            assert(s.manual[a] == t.manual[i]);
        }
    }
}

proof fn lemma_held_at(manual: Seq<ManualView>, owner: Seq<char>, dir: Seq<Seq<char>>)
    ensures
        0 <= held_at(manual, owner, dir) <= manual.len(),
        held_at(manual, owner, dir) < manual.len() ==> manual[held_at(manual, owner, dir)].owner
            == owner && manual[held_at(manual, owner, dir)].dir == dir,
        forall|i: int|
            0 <= i < held_at(manual, owner, dir) ==> !((#[trigger] manual[i]).owner == owner
                && manual[i].dir == dir),
    decreases manual.len(),
{
    if manual.len() > 0 && !(manual[0].owner == owner && manual[0].dir == dir) {
        let rest = manual.drop_first();
        lemma_held_at(rest, owner, dir);
        assert forall|i: int| 0 <= i < held_at(manual, owner, dir) implies !((
        #[trigger] manual[i]).owner == owner && manual[i].dir == dir) by {
            if i > 0 {
                assert(rest[i - 1] == manual[i]);
            }
        }
    }
}

/// Releasing an automatic lock keeps agents apart, and leaves no automatic
/// lock with that number.
pub proof fn law_release_auto_keeps_exclusion(s: LockView, id: u64, now: u128)
    requires
        exclusive(s),
    ensures
        exclusive(s.release_auto(id, now)),
        forall|i: int|
            0 <= i < s.release_auto(id, now).automatic.len() ==> (
            #[trigger] s.release_auto(id, now).automatic[i]).id != id,
{
    let t = s.release_auto(id, now);
    let mid = LockView { automatic: keep(s.automatic, |lock: AutoView| lock.id != id), ..s };
    lemma_keep_all(s.manual, |l: ManualView| true);
    lemma_keep_all(s.waiters, |l: WaiterView| true);
    lemma_fewer(
        s,
        mid,
        |l: ManualView| true,
        |lock: AutoView| lock.id != id,
        |w: WaiterView| true,
    );
    lemma_keep(s.automatic, |lock: AutoView| lock.id != id);
    assert forall|i: int| 0 <= i < s.manual.len() implies (#[trigger] t.manual[i]).owner
        == s.manual[i].owner && t.manual[i].dir == s.manual[i].dir by {}
    assert forall|i: int, j: int|
        0 <= i < t.manual.len() && 0 <= j < t.manual.len() && i != j implies !overlap(
        (#[trigger] t.manual[i]).dir,
        (#[trigger] t.manual[j]).dir,
    ) by {
        assert(!overlap(mid.manual[i].dir, mid.manual[j].dir));
    }
    assert forall|i: int, j: int|
        0 <= i < t.manual.len() && 0 <= j < t.automatic.len() && any_overlap(
            (#[trigger] t.manual[i]).dir,
            (#[trigger] t.automatic[j]).dirs,
        ) implies t.manual[i].owner == t.automatic[j].owner by {
        assert(any_overlap(mid.manual[i].dir, mid.automatic[j].dirs));
    }
}

/// Waiters are served in the order in which they came: a look at a waiter that
/// is not the first in the queue changes nothing.
pub proof fn law_queue_is_fair(
    s: LockView,
    waiter: u64,
    require_manual_cover: bool,
    next_check: u128,
    now: u128,
    policy: LockWaitPolicy,
)
    requires
        s.waiters.len() > 0,
        s.waiters[0].id != waiter,
    ensures
        s.poll_auto(waiter, require_manual_cover, next_check, now, policy).0 == s,
        s.poll_manual(waiter, next_check, now, policy).0 == s,
{
}

/// A lock that was released by force, or whose owner left, blocks nobody: no
/// manual lock is left that overlaps the directory, or that the agent owns.
pub proof fn law_released_locks_are_gone(s: LockView, dir: Seq<Seq<char>>, owner: Seq<char>)
    ensures
        forall|i: int|
            0 <= i < s.force_unlock(dir).manual.len() ==> !overlap(
                (#[trigger] s.force_unlock(dir).manual[i]).dir,
                dir,
            ),
        forall|i: int|
            0 <= i < s.release_agent(owner).manual.len() ==> (
            #[trigger] s.release_agent(owner).manual[i]).owner != owner,
        forall|i: int|
            0 <= i < s.release_agent(owner).waiters.len() ==> (
            #[trigger] s.release_agent(owner).waiters[i]).owner != owner,
{
    lemma_keep(s.manual, |l: ManualView| !overlap(l.dir, dir));
    lemma_keep(s.manual, |l: ManualView| l.owner != owner);
    lemma_keep(s.waiters, |w: WaiterView| w.owner != owner);
}

/// Giving a manual lock back undoes taking it: all locks are as they were
/// before.
pub proof fn law_unlock_undoes_lock(
    s: LockView,
    call_id: Seq<char>,
    owner: Seq<char>,
    dir: Seq<Seq<char>>,
    now: u128,
)
    requires
        exclusive(s),
        s.start_manual(call_id, owner, dir, now).1 is Granted,
    ensures
        s.start_manual(call_id, owner, dir, now).0.unlock(owner, dir) == s,
{
    let t = s.start_manual(call_id, owner, dir, now).0;
    let n = s.manual.len() as int;
    assert(dir =~= dir.take(dir.len() as int));
    assert(lies_in(dir, dir));
    assert(overlap(dir, seq![dir][0]));
    assert(any_overlap(dir, seq![dir]));
    assert(t.manual.len() == n + 1);
    assert(t.manual[n].owner == owner && t.manual[n].dir == dir);
    lemma_held_at(t.manual, owner, dir);
    let p = held_at(t.manual, owner, dir);
    if p < n {
        assert(t.manual[p] == s.manual[p]);
        lemma_owned_none(s.manual, owner, seq![dir], p);
    }
    assert(t.manual.remove(n) =~= s.manual);
}

/// A lock whose owner has a tool running in it is never reported as abandoned,
/// and neither is a lock of the one who asks.
pub proof fn law_lock_in_use_is_not_abandoned(
    manual: Seq<ManualView>,
    owner: Seq<char>,
    dirs: Seq<Seq<Seq<char>>>,
    now: u128,
    abandoned_after: u128,
)
    ensures
        match crate::shell::dir_lock::first_abandoned(manual, owner, dirs, now, abandoned_after) {
            None => true,
            Some(found) => exists|i: int|
                0 <= i < manual.len() && (#[trigger] manual[i]).dir == found.dir && manual[i].owner
                    == found.owner && manual[i].active.len() == 0 && found.owner != owner
                    && found.idle_for >= abandoned_after,
        },
    decreases manual.len(),
{
    if manual.len() > 0 {
        let rest = manual.drop_first();
        law_lock_in_use_is_not_abandoned(rest, owner, dirs, now, abandoned_after);
        if crate::shell::dir_lock::is_abandoned(manual[0], owner, dirs, now, abandoned_after) {
            assert(manual[0].active.len() == 0);
        } else {
            match crate::shell::dir_lock::first_abandoned(rest, owner, dirs, now, abandoned_after) {
                None => {},
                Some(found) => {
                    let i = choose|i: int|
                        0 <= i < rest.len() && (#[trigger] rest[i]).dir == found.dir
                            && rest[i].owner == found.owner && rest[i].active.len() == 0
                            && found.owner != owner && found.idle_for >= abandoned_after;
                    assert(manual[i + 1] == rest[i]);
                },
            }
        }
    }
}

} // verus!
