//! Directory update locks.
//!
//! The lock is advisory: reads never wait, while tools that update files
//! coordinate on canonical directories. A manual lock reserves a subtree for
//! the agent that owns it, and automatic locks serialize single operations.

use vstd::prelude::*;

use crate::path::{
    dir_views, lies_in, normal_form, normalize_lock_dirs, overlap, paths_overlap, path_text,
    DirPath,
};
use crate::seqs::keep;
use crate::shell::command::later;

verus! {

/// How long a waiter waits between looks for an abandoned lock, in nanoseconds.
pub const DEFAULT_LOCK_WAIT_LIVENESS_INTERVAL: u128 = 60_000_000_000;

/// After how long without use a lock counts as abandoned, in nanoseconds.
pub const DEFAULT_LOCK_ABANDONED_AFTER: u128 = 120_000_000_000;

/// How patient waiters are.
#[derive(Clone, Copy, Debug, PartialEq, Eq, Structural)]
pub struct LockWaitPolicy {
    pub liveness_interval: u128,
    pub abandoned_after: u128,
}

impl Default for LockWaitPolicy {
    fn default() -> (policy: Self)
        ensures
            policy.liveness_interval == DEFAULT_LOCK_WAIT_LIVENESS_INTERVAL,
            policy.abandoned_after == DEFAULT_LOCK_ABANDONED_AFTER,
    {
        LockWaitPolicy {
            liveness_interval: DEFAULT_LOCK_WAIT_LIVENESS_INTERVAL,
            abandoned_after: DEFAULT_LOCK_ABANDONED_AFTER,
        }
    }
}

/// What a waiter waits for.
#[derive(Clone, Copy, Debug, PartialEq, Eq, Structural)]
pub enum WaitKind {
    Manual,
    Automatic,
}

/// A lock that an agent holds until it releases it.
#[derive(Debug)]
pub struct ManualLock {
    pub owner: String,
    pub dir: DirPath,
    pub acquired_at: u128,
    pub last_used_at: u128,
    pub active_auto_ids: Vec<u64>,
}

/// A lock for the time of one tool call.
#[derive(Debug)]
pub struct AutomaticLock {
    pub id: u64,
    pub owner: String,
    pub dirs: Vec<DirPath>,
}

/// A call that waits for a lock.
#[derive(Debug)]
pub struct Waiter {
    pub id: u64,
    pub call_id: String,
    pub owner: String,
    pub dirs: Vec<DirPath>,
    pub kind: WaitKind,
}

/// All locks, and the calls that wait, in the order in which they came.
#[derive(Debug)]
pub struct LockState {
    pub manual: Vec<ManualLock>,
    pub automatic: Vec<AutomaticLock>,
    pub waiters: Vec<Waiter>,
    pub next_waiter_id: u64,
    pub next_auto_id: u64,
}

/// A manual lock, as mathematics.
pub struct ManualView {
    pub owner: Seq<char>,
    pub dir: Seq<Seq<char>>,
    pub acquired_at: u128,
    pub last_used_at: u128,
    pub active: Seq<u64>,
}

/// An automatic lock, as mathematics.
pub struct AutoView {
    pub id: u64,
    pub owner: Seq<char>,
    pub dirs: Seq<Seq<Seq<char>>>,
}

/// A waiter, as mathematics.
pub struct WaiterView {
    pub id: u64,
    pub call_id: Seq<char>,
    pub owner: Seq<char>,
    pub dirs: Seq<Seq<Seq<char>>>,
    pub kind: WaitKind,
}

/// All locks and waiters, as mathematics.
#[verifier::ext_equal]
pub struct LockView {
    pub manual: Seq<ManualView>,
    pub automatic: Seq<AutoView>,
    pub waiters: Seq<WaiterView>,
    pub next_waiter_id: u64,
    pub next_auto_id: u64,
}

impl View for ManualLock {
    type V = ManualView;

    open spec fn view(&self) -> ManualView {
        ManualView {
            owner: self.owner@,
            dir: self.dir@,
            acquired_at: self.acquired_at,
            last_used_at: self.last_used_at,
            active: self.active_auto_ids@,
        }
    }
}

impl View for AutomaticLock {
    type V = AutoView;

    open spec fn view(&self) -> AutoView {
        AutoView { id: self.id, owner: self.owner@, dirs: dir_views(self.dirs@) }
    }
}

impl View for Waiter {
    type V = WaiterView;

    open spec fn view(&self) -> WaiterView {
        WaiterView {
            id: self.id,
            call_id: self.call_id@,
            owner: self.owner@,
            dirs: dir_views(self.dirs@),
            kind: self.kind,
        }
    }
}

/// The views of manual locks.
pub open spec fn manual_views(locks: Seq<ManualLock>) -> Seq<ManualView> {
    locks.map_values(|l: ManualLock| l@)
}

/// The views of automatic locks.
pub open spec fn auto_views(locks: Seq<AutomaticLock>) -> Seq<AutoView> {
    locks.map_values(|l: AutomaticLock| l@)
}

/// The views of waiters.
pub open spec fn waiter_views(waiters: Seq<Waiter>) -> Seq<WaiterView> {
    waiters.map_values(|w: Waiter| w@)
}

impl View for LockState {
    type V = LockView;

    open spec fn view(&self) -> LockView {
        LockView {
            manual: manual_views(self.manual@),
            automatic: auto_views(self.automatic@),
            waiters: waiter_views(self.waiters@),
            next_waiter_id: self.next_waiter_id,
            next_auto_id: self.next_auto_id,
        }
    }
}

/// Whether some of the directories overlap one.
pub open spec fn any_overlap(dir: Seq<Seq<char>>, dirs: Seq<Seq<Seq<char>>>) -> bool {
    exists|i: int| 0 <= i < dirs.len() && overlap(dir, #[trigger] dirs[i])
}

/// Whether a directory of the one list overlaps a directory of the other.
pub open spec fn dirs_overlap(a: Seq<Seq<Seq<char>>>, b: Seq<Seq<Seq<char>>>) -> bool {
    exists|i: int| 0 <= i < a.len() && any_overlap(#[trigger] a[i], b)
}

/// Whether a directory lies in a manual lock of an owner.
pub open spec fn covered(manual: Seq<ManualView>, owner: Seq<char>, dir: Seq<Seq<char>>) -> bool {
    exists|k: int|
        0 <= k < manual.len() && (#[trigger] manual[k]).owner == owner && lies_in(
            dir,
            manual[k].dir,
        )
}

/// Whether every one of the directories lies in a manual lock of an owner.
pub open spec fn covers(
    manual: Seq<ManualView>,
    owner: Seq<char>,
    dirs: Seq<Seq<Seq<char>>>,
) -> bool {
    forall|i: int| 0 <= i < dirs.len() ==> covered(manual, owner, #[trigger] dirs[i])
}

/// The first manual lock of an owner that overlaps some of the directories.
pub open spec fn owned_overlapping(
    manual: Seq<ManualView>,
    owner: Seq<char>,
    dirs: Seq<Seq<Seq<char>>>,
) -> Option<Seq<Seq<char>>>
    decreases manual.len(),
{
    if manual.len() == 0 {
        None
    } else if manual[0].owner == owner && any_overlap(manual[0].dir, dirs) {
        Some(manual[0].dir)
    } else {
        owned_overlapping(manual.drop_first(), owner, dirs)
    }
}

/// A manual lock that another call waits for and that seems forgotten.
#[derive(Debug)]
pub struct AbandonedLock {
    pub owner: String,
    pub dir: DirPath,
    /// How long the lock has existed, in nanoseconds.
    pub held_for: u128,
    /// How long ago the lock was acquired or last used, in nanoseconds.
    pub idle_for: u128,
}

/// A forgotten lock, as mathematics.
pub struct AbandonedView {
    pub owner: Seq<char>,
    pub dir: Seq<Seq<char>>,
    pub held_for: u128,
    pub idle_for: u128,
}

impl View for AbandonedLock {
    type V = AbandonedView;

    open spec fn view(&self) -> AbandonedView {
        AbandonedView {
            owner: self.owner@,
            dir: self.dir@,
            held_for: self.held_for,
            idle_for: self.idle_for,
        }
    }
}

/// The time between two moments; none where the second is not later.
pub open spec fn since(now: u128, then: u128) -> u128 {
    if then <= now {
        (now - then) as u128
    } else {
        0
    }
}

/// Whether a manual lock blocks a request, is not in use, and has not been
/// used for so long.
pub open spec fn is_abandoned(
    lock: ManualView,
    owner: Seq<char>,
    dirs: Seq<Seq<Seq<char>>>,
    now: u128,
    abandoned_after: u128,
) -> bool {
    &&& lock.owner != owner
    &&& any_overlap(lock.dir, dirs)
    &&& lock.active.len() == 0
    &&& since(now, lock.last_used_at) >= abandoned_after
}

/// The first lock that blocks a request and seems forgotten.
pub open spec fn first_abandoned(
    manual: Seq<ManualView>,
    owner: Seq<char>,
    dirs: Seq<Seq<Seq<char>>>,
    now: u128,
    abandoned_after: u128,
) -> Option<AbandonedView>
    decreases manual.len(),
{
    if manual.len() == 0 {
        None
    } else if is_abandoned(manual[0], owner, dirs, now, abandoned_after) {
        Some(
            AbandonedView {
                owner: manual[0].owner,
                dir: manual[0].dir,
                held_for: since(now, manual[0].acquired_at),
                idle_for: since(now, manual[0].last_used_at),
            },
        )
    } else {
        first_abandoned(manual.drop_first(), owner, dirs, now, abandoned_after)
    }
}

impl LockView {
    /// No locks and no waiters.
    pub open spec fn fresh() -> LockView {
        LockView {
            manual: seq![],
            automatic: seq![],
            waiters: seq![],
            next_waiter_id: 0,
            next_auto_id: 0,
        }
    }

    /// Whether a call of the lock's owner may go on beside an automatic lock:
    /// both lie in manual locks of that owner.
    pub open spec fn shares(
        self,
        lock: AutoView,
        owner: Seq<char>,
        dirs: Seq<Seq<Seq<char>>>,
        kind: WaitKind,
    ) -> bool {
        kind == WaitKind::Automatic && covers(self.manual, owner, dirs) && lock.owner == owner
            && covers(self.manual, owner, lock.dirs)
    }

    /// Whether an automatic lock stands in the way of a request.
    pub open spec fn blocked_by_auto(
        self,
        lock: AutoView,
        owner: Seq<char>,
        dirs: Seq<Seq<Seq<char>>>,
        kind: WaitKind,
    ) -> bool {
        !self.shares(lock, owner, dirs, kind) && dirs_overlap(lock.dirs, dirs)
    }

    /// Whether a manual lock stands in the way of a request. A request of the
    /// lock's own owner passes where it is for a manual lock, or where manual
    /// locks hold all of it.
    pub open spec fn blocked_by_manual(
        self,
        lock: ManualView,
        owner: Seq<char>,
        dirs: Seq<Seq<Seq<char>>>,
        kind: WaitKind,
    ) -> bool {
        !(lock.owner == owner && (kind == WaitKind::Manual || covers(self.manual, owner, dirs)))
            && any_overlap(lock.dir, dirs)
    }

    /// Whether a lock that is held stands in the way of a request.
    pub open spec fn has_conflict(
        self,
        owner: Seq<char>,
        dirs: Seq<Seq<Seq<char>>>,
        kind: WaitKind,
    ) -> bool {
        ||| exists|i: int|
            0 <= i < self.automatic.len() && self.blocked_by_auto(
                #[trigger] self.automatic[i],
                owner,
                dirs,
                kind,
            )
        ||| exists|i: int|
            0 <= i < self.manual.len() && self.blocked_by_manual(
                #[trigger] self.manual[i],
                owner,
                dirs,
                kind,
            )
    }

    /// Whether a request is granted at once: nothing is in its way, and nobody
    /// waits, or manual locks of its owner hold all of it.
    pub open spec fn can_grant_now(
        self,
        owner: Seq<char>,
        dirs: Seq<Seq<Seq<char>>>,
        kind: WaitKind,
    ) -> bool {
        &&& self.waiters.len() == 0 || (kind == WaitKind::Automatic && covers(
            self.manual,
            owner,
            dirs,
        ))
        &&& !self.has_conflict(owner, dirs, kind)
    }

    /// The locks with manual locks for directories added.
    pub open spec fn add_manual(
        self,
        owner: Seq<char>,
        dirs: Seq<Seq<Seq<char>>>,
        now: u128,
    ) -> LockView {
        LockView {
            manual: self.manual + dirs.map_values(
                |dir: Seq<Seq<char>>|
                    ManualView {
                        owner,
                        dir,
                        acquired_at: now,
                        last_used_at: now,
                        active: seq![],
                    },
            ),
            ..self
        }
    }

    /// The locks with an automatic lock added; the manual locks that it lies
    /// in are in use by it.
    pub open spec fn add_auto(
        self,
        owner: Seq<char>,
        dirs: Seq<Seq<Seq<char>>>,
        now: u128,
    ) -> LockView {
        let id = self.next_auto_id;
        LockView {
            manual: self.manual.map_values(|lock: ManualView| used_by(lock, id, owner, dirs, now)),
            automatic: self.automatic.push(AutoView { id, owner, dirs }),
            next_auto_id: (id + 1) as u64,
            ..self
        }
    }

    /// The locks without an automatic lock; the manual locks that it was using
    /// have been used until now.
    pub open spec fn release_auto(self, id: u64, now: u128) -> LockView {
        let left = keep(self.automatic, |lock: AutoView| lock.id != id);
        LockView {
            manual: if left.len() != self.automatic.len() {
                self.manual.map_values(|lock: ManualView| unused_by(lock, id, now))
            } else {
                self.manual
            },
            automatic: left,
            ..self
        }
    }

    /// The locks with one more waiter, behind the others.
    pub open spec fn push_waiter(
        self,
        call_id: Seq<char>,
        owner: Seq<char>,
        dirs: Seq<Seq<Seq<char>>>,
        kind: WaitKind,
    ) -> LockView {
        let id = self.next_waiter_id;
        LockView {
            waiters: self.waiters.push(WaiterView { id, call_id, owner, dirs, kind }),
            next_waiter_id: (id + 1) as u64,
            ..self
        }
    }

    /// The locks without the first waiter.
    pub open spec fn pop_waiter(self) -> LockView {
        LockView { waiters: self.waiters.drop_first(), ..self }
    }

    /// Whether a waiter is in the queue.
    pub open spec fn is_waiting(self, waiter: u64) -> bool {
        exists|i: int| 0 <= i < self.waiters.len() && (#[trigger] self.waiters[i]).id == waiter
    }
}

/// A manual lock, put to use by an automatic lock that lies in it.
pub open spec fn used_by(
    lock: ManualView,
    id: u64,
    owner: Seq<char>,
    dirs: Seq<Seq<Seq<char>>>,
    now: u128,
) -> ManualView {
    if lock.owner == owner && (exists|i: int|
        0 <= i < dirs.len() && lies_in(#[trigger] dirs[i], lock.dir)) && !lock.active.contains(
        id,
    ) {
        ManualView { last_used_at: now, active: lock.active.push(id), ..lock }
    } else {
        lock
    }
}

/// The numbers without one of them.
pub open spec fn without(ids: Seq<u64>, id: u64) -> Seq<u64> {
    keep(ids, |active: u64| active != id)
}

/// A manual lock that an automatic lock no longer uses.
pub open spec fn unused_by(lock: ManualView, id: u64, now: u128) -> ManualView {
    let left = without(lock.active, id);
    if left.len() != lock.active.len() {
        ManualView { last_used_at: now, active: left, ..lock }
    } else {
        lock
    }
}

/// Whether some of the directories overlap one.
fn overlaps_any(dir: &DirPath, dirs: &Vec<DirPath>) -> (b: bool)
    ensures
        b == any_overlap(dir@, dir_views(dirs@)),
{
    let ghost all = dir_views(dirs@);
    let mut i: usize = 0;
    while i < dirs.len()
        invariant
            i <= dirs@.len(),
            all == dir_views(dirs@),
            forall|j: int| 0 <= j < i ==> !overlap(dir@, #[trigger] all[j]),
        decreases dirs.len() - i,
    {
        assert(all[i as int] == dirs@[i as int]@);
        if paths_overlap(dir, &dirs[i]) {
            return true;
        }
        i += 1;
    }
    false
}

/// Whether a directory of the one list overlaps a directory of the other.
fn lists_overlap(a: &Vec<DirPath>, b: &Vec<DirPath>) -> (over: bool)
    ensures
        over == dirs_overlap(dir_views(a@), dir_views(b@)),
{
    let ghost all = dir_views(a@);
    let mut i: usize = 0;
    while i < a.len()
        invariant
            i <= a@.len(),
            all == dir_views(a@),
            forall|j: int| 0 <= j < i ==> !any_overlap(#[trigger] all[j], dir_views(b@)),
        decreases a.len() - i,
    {
        assert(all[i as int] == a@[i as int]@);
        if overlaps_any(&a[i], b) {
            return true;
        }
        i += 1;
    }
    false
}

/// Whether some of the directories lie in one.
fn any_lies_in(dirs: &Vec<DirPath>, dir: &DirPath) -> (b: bool)
    ensures
        b == exists|i: int|
            0 <= i < dirs@.len() && lies_in(#[trigger] dir_views(dirs@)[i], dir@),
{
    let ghost all = dir_views(dirs@);
    let mut i: usize = 0;
    while i < dirs.len()
        invariant
            i <= dirs@.len(),
            all == dir_views(dirs@),
            forall|j: int| 0 <= j < i ==> !lies_in(#[trigger] all[j], dir@),
        decreases dirs.len() - i,
    {
        assert(all[i as int] == dirs@[i as int]@);
        if dirs[i].starts_with(dir) {
            return true;
        }
        i += 1;
    }
    false
}

/// Whether a number is among others.
fn has_id(ids: &Vec<u64>, id: u64) -> (b: bool)
    ensures
        b == ids@.contains(id),
{
    let mut i: usize = 0;
    while i < ids.len()
        invariant
            i <= ids@.len(),
            forall|j: int| 0 <= j < i ==> ids@[j] != id,
        decreases ids.len() - i,
    {
        if ids[i] == id {
            return true;
        }
        i += 1;
    }
    false
}

/// What a request for an automatic lock led to.
#[derive(Debug)]
pub enum AutoStart {
    Granted { id: u64 },
    Waiting { waiter: u64 },
    /// Manual locks of the owner were to hold the request and do not.
    NotCovered,
    /// The request overlaps a manual lock of its own owner and is not held by
    /// one.
    SelfConflict { dir: DirPath },
}

/// What a request for an automatic lock led to, as mathematics.
pub enum AutoStartView {
    Granted { id: u64 },
    Waiting { waiter: u64 },
    NotCovered,
    SelfConflict { dir: Seq<Seq<char>> },
}

impl View for AutoStart {
    type V = AutoStartView;

    open spec fn view(&self) -> AutoStartView {
        match self {
            AutoStart::Granted { id } => AutoStartView::Granted { id: *id },
            AutoStart::Waiting { waiter } => AutoStartView::Waiting { waiter: *waiter },
            AutoStart::NotCovered => AutoStartView::NotCovered,
            AutoStart::SelfConflict { dir } => AutoStartView::SelfConflict { dir: dir@ },
        }
    }
}

/// What a look at a waiter for an automatic lock led to.
#[derive(Debug)]
pub enum AutoPoll {
    Granted { id: u64 },
    Cancelled,
    NotCovered,
    Abandoned(AbandonedLock),
    /// Look again when something changes, or after so long at the latest.
    Wait { next_check: u128, wait_for: u128 },
}

/// What a look at a waiter for an automatic lock led to, as mathematics.
pub enum AutoPollView {
    Granted { id: u64 },
    Cancelled,
    NotCovered,
    Abandoned(AbandonedView),
    Wait { next_check: u128, wait_for: u128 },
}

impl View for AutoPoll {
    type V = AutoPollView;

    open spec fn view(&self) -> AutoPollView {
        match self {
            AutoPoll::Granted { id } => AutoPollView::Granted { id: *id },
            AutoPoll::Cancelled => AutoPollView::Cancelled,
            AutoPoll::NotCovered => AutoPollView::NotCovered,
            AutoPoll::Abandoned(lock) => AutoPollView::Abandoned(lock@),
            AutoPoll::Wait { next_check, wait_for } => AutoPollView::Wait {
                next_check: *next_check,
                wait_for: *wait_for,
            },
        }
    }
}

/// What a request for a manual lock led to.
#[derive(Debug)]
pub enum ManualStart {
    Granted,
    Waiting { waiter: u64 },
    AlreadyHeld { dir: DirPath },
}

/// What a request for a manual lock led to, as mathematics.
pub enum ManualStartView {
    Granted,
    Waiting { waiter: u64 },
    AlreadyHeld { dir: Seq<Seq<char>> },
}

impl View for ManualStart {
    type V = ManualStartView;

    open spec fn view(&self) -> ManualStartView {
        match self {
            ManualStart::Granted => ManualStartView::Granted,
            ManualStart::Waiting { waiter } => ManualStartView::Waiting { waiter: *waiter },
            ManualStart::AlreadyHeld { dir } => ManualStartView::AlreadyHeld { dir: dir@ },
        }
    }
}

/// What a look at a waiter for a manual lock led to.
#[derive(Debug)]
pub enum ManualPoll {
    Granted,
    Cancelled,
    AlreadyHeld { dir: DirPath },
    Abandoned(AbandonedLock),
    Wait { next_check: u128, wait_for: u128 },
}

/// What a look at a waiter for a manual lock led to, as mathematics.
pub enum ManualPollView {
    Granted,
    Cancelled,
    AlreadyHeld { dir: Seq<Seq<char>> },
    Abandoned(AbandonedView),
    Wait { next_check: u128, wait_for: u128 },
}

impl View for ManualPoll {
    type V = ManualPollView;

    open spec fn view(&self) -> ManualPollView {
        match self {
            ManualPoll::Granted => ManualPollView::Granted,
            ManualPoll::Cancelled => ManualPollView::Cancelled,
            ManualPoll::AlreadyHeld { dir } => ManualPollView::AlreadyHeld { dir: dir@ },
            ManualPoll::Abandoned(lock) => ManualPollView::Abandoned(lock@),
            ManualPoll::Wait { next_check, wait_for } => ManualPollView::Wait {
                next_check: *next_check,
                wait_for: *wait_for,
            },
        }
    }
}

/// The moment of the next look for an abandoned lock, once this one is past.
pub open spec fn next_look(next_check: u128, now: u128, policy: LockWaitPolicy) -> u128 {
    if next_check <= now {
        later(now, policy.liveness_interval as int)
    } else {
        next_check
    }
}

impl LockView {
    /// A request for an automatic lock.
    pub open spec fn start_auto(
        self,
        call_id: Seq<char>,
        owner: Seq<char>,
        dirs: Seq<Seq<Seq<char>>>,
        require_manual_cover: bool,
        now: u128,
    ) -> (LockView, AutoStartView) {
        let held = covers(self.manual, owner, dirs);
        let own = owned_overlapping(self.manual, owner, dirs);
        if require_manual_cover && !held {
            (self, AutoStartView::NotCovered)
        } else if !held && own is Some {
            (self, AutoStartView::SelfConflict { dir: own->0 })
        } else if self.can_grant_now(owner, dirs, WaitKind::Automatic) {
            (self.add_auto(owner, dirs, now), AutoStartView::Granted { id: self.next_auto_id })
        } else {
            (
                self.push_waiter(call_id, owner, dirs, WaitKind::Automatic),
                AutoStartView::Waiting { waiter: self.next_waiter_id },
            )
        }
    }

    /// A look at a waiter for an automatic lock. Only the first in the queue
    /// is ever served.
    pub open spec fn poll_auto(
        self,
        waiter: u64,
        require_manual_cover: bool,
        next_check: u128,
        now: u128,
        policy: LockWaitPolicy,
    ) -> (LockView, AutoPollView) {
        let front = self.waiters[0];
        let abandoned = first_abandoned(
            self.manual,
            front.owner,
            front.dirs,
            now,
            policy.abandoned_after,
        );
        let again = next_look(next_check, now, policy);
        if !self.is_waiting(waiter) {
            (self, AutoPollView::Cancelled)
        } else if front.id != waiter {
            (self, AutoPollView::Wait { next_check: again, wait_for: since(again, now) })
        } else if require_manual_cover && !covers(self.manual, front.owner, front.dirs) {
            (self.pop_waiter(), AutoPollView::NotCovered)
        } else if !self.has_conflict(front.owner, front.dirs, front.kind) {
            (
                self.pop_waiter().add_auto(front.owner, front.dirs, now),
                AutoPollView::Granted { id: self.next_auto_id },
            )
        } else if next_check <= now && abandoned is Some {
            (self.pop_waiter(), AutoPollView::Abandoned(abandoned->0))
        } else {
            (self, AutoPollView::Wait { next_check: again, wait_for: since(again, now) })
        }
    }

    /// A request for a manual lock.
    pub open spec fn start_manual(
        self,
        call_id: Seq<char>,
        owner: Seq<char>,
        dir: Seq<Seq<char>>,
        now: u128,
    ) -> (LockView, ManualStartView) {
        let own = owned_overlapping(self.manual, owner, seq![dir]);
        if own is Some {
            (self, ManualStartView::AlreadyHeld { dir: own->0 })
        } else if self.can_grant_now(owner, seq![dir], WaitKind::Manual) {
            (self.add_manual(owner, seq![dir], now), ManualStartView::Granted)
        } else {
            (
                self.push_waiter(call_id, owner, seq![dir], WaitKind::Manual),
                ManualStartView::Waiting { waiter: self.next_waiter_id },
            )
        }
    }

    /// A look at a waiter for a manual lock. Only the first in the queue is
    /// ever served.
    pub open spec fn poll_manual(
        self,
        waiter: u64,
        next_check: u128,
        now: u128,
        policy: LockWaitPolicy,
    ) -> (LockView, ManualPollView) {
        let front = self.waiters[0];
        let own = owned_overlapping(self.manual, front.owner, front.dirs);
        let abandoned = first_abandoned(
            self.manual,
            front.owner,
            front.dirs,
            now,
            policy.abandoned_after,
        );
        let again = next_look(next_check, now, policy);
        if !self.is_waiting(waiter) {
            (self, ManualPollView::Cancelled)
        } else if front.id != waiter {
            (self, ManualPollView::Wait { next_check: again, wait_for: since(again, now) })
        } else if own is Some {
            (self.pop_waiter(), ManualPollView::AlreadyHeld { dir: own->0 })
        } else if !self.has_conflict(front.owner, front.dirs, front.kind) {
            (
                self.pop_waiter().add_manual(front.owner, front.dirs, now),
                ManualPollView::Granted,
            )
        } else if next_check <= now && abandoned is Some {
            (self.pop_waiter(), ManualPollView::Abandoned(abandoned->0))
        } else {
            (self, ManualPollView::Wait { next_check: again, wait_for: since(again, now) })
        }
    }
}

/// The time between two moments; none where the second is not later.
fn time_since(now: u128, then: u128) -> (d: u128)
    ensures
        d == since(now, then),
{
    if then <= now {
        now - then
    } else {
        0
    }
}

impl LockState {
    /// No locks and no waiters.
    pub fn new() -> (state: Self)
        ensures
            state@ == LockView::fresh(),
    {
        let state = LockState {
            manual: Vec::new(),
            automatic: Vec::new(),
            waiters: Vec::new(),
            next_waiter_id: 0,
            next_auto_id: 0,
        };
        assert(state@ =~= LockView::fresh());
        state
    }

    /// Whether every one of the directories lies in a manual lock of an owner.
    pub fn manual_covers(&self, owner: &String, dirs: &Vec<DirPath>) -> (b: bool)
        ensures
            b == covers(self@.manual, owner@, dir_views(dirs@)),
    {
        let ghost all = dir_views(dirs@);
        let ghost manual = self@.manual;
        let mut i: usize = 0;
        while i < dirs.len()
            invariant
                i <= dirs@.len(),
                all == dir_views(dirs@),
                manual == self@.manual,
                forall|j: int| 0 <= j < i ==> covered(manual, owner@, #[trigger] all[j]),
            decreases dirs.len() - i,
        {
            assert(all[i as int] == dirs@[i as int]@);
            let mut found = false;
            let mut k: usize = 0;
            while k < self.manual.len() && !found
                invariant
                    k <= self.manual@.len(),
                    manual == self@.manual,
                    i < dirs@.len(),
                    found ==> covered(manual, owner@, dirs@[i as int]@),
                    !found ==> forall|j: int|
                        0 <= j < k ==> !((#[trigger] manual[j]).owner == owner@ && lies_in(
                            dirs@[i as int]@,
                            manual[j].dir,
                        )),
                decreases self.manual.len() - k,
            {
                let lock = &self.manual[k];
                assert(manual[k as int] == lock@);
                if lock.owner == *owner && dirs[i].starts_with(&lock.dir) {
                    found = true;
                }
                k += 1;
            }
            if !found {
                assert(!covered(manual, owner@, all[i as int]));
                return false;
            }
            i += 1;
        }
        true
    }

    /// The first manual lock of an owner that overlaps some of the
    /// directories.
    pub fn manual_lock_owned_overlapping(&self, owner: &String, dirs: &Vec<DirPath>) -> (found:
        Option<DirPath>)
        ensures
            match found {
                Some(dir) => owned_overlapping(self@.manual, owner@, dir_views(dirs@)) == Some(
                    dir@,
                ),
                None => owned_overlapping(self@.manual, owner@, dir_views(dirs@)) is None,
            },
    {
        let ghost manual = self@.manual;
        let mut i: usize = 0;
        assert(manual.skip(0) =~= manual);
        while i < self.manual.len()
            invariant
                i <= self.manual@.len(),
                manual == self@.manual,
                owned_overlapping(manual.skip(i as int), owner@, dir_views(dirs@))
                    == owned_overlapping(manual, owner@, dir_views(dirs@)),
            decreases self.manual.len() - i,
        {
            let lock = &self.manual[i];
            assert(manual.skip(i as int)[0] == lock@);
            if lock.owner == *owner && overlaps_any(&lock.dir, dirs) {
                return Some(lock.dir.copy());
            }
            assert(manual.skip(i as int).drop_first() =~= manual.skip(i + 1));
            i += 1;
        }
        None
    }

    /// Whether a lock that is held stands in the way of a request.
    pub fn has_conflict(&self, owner: &String, dirs: &Vec<DirPath>, kind: WaitKind) -> (b: bool)
        ensures
            b == self@.has_conflict(owner@, dir_views(dirs@), kind),
    {
        let manual_reentry = match kind {
            WaitKind::Automatic => self.manual_covers(owner, dirs),
            WaitKind::Manual => false,
        };
        let ghost wanted = dir_views(dirs@);
        let mut i: usize = 0;
        while i < self.automatic.len()
            invariant
                i <= self.automatic@.len(),
                wanted == dir_views(dirs@),
                manual_reentry == (kind == WaitKind::Automatic && covers(
                    self@.manual,
                    owner@,
                    wanted,
                )),
                forall|j: int|
                    0 <= j < i ==> !self@.blocked_by_auto(
                        #[trigger] self@.automatic[j],
                        owner@,
                        wanted,
                        kind,
                    ),
            decreases self.automatic.len() - i,
        {
            let lock = &self.automatic[i];
            assert(self@.automatic[i as int] == lock@);
            let shares = manual_reentry && lock.owner == *owner && self.manual_covers(
                owner,
                &lock.dirs,
            );
            if !shares && lists_overlap(&lock.dirs, dirs) {
                assert(self@.blocked_by_auto(self@.automatic[i as int], owner@, wanted, kind));
                return true;
            }
            i += 1;
        }
        let mut k: usize = 0;
        while k < self.manual.len()
            invariant
                k <= self.manual@.len(),
                wanted == dir_views(dirs@),
                manual_reentry == (kind == WaitKind::Automatic && covers(
                    self@.manual,
                    owner@,
                    wanted,
                )),
                forall|j: int|
                    0 <= j < self@.automatic.len() ==> !self@.blocked_by_auto(
                        #[trigger] self@.automatic[j],
                        owner@,
                        wanted,
                        kind,
                    ),
                forall|j: int|
                    0 <= j < k ==> !self@.blocked_by_manual(
                        #[trigger] self@.manual[j],
                        owner@,
                        wanted,
                        kind,
                    ),
            decreases self.manual.len() - k,
        {
            let lock = &self.manual[k];
            assert(self@.manual[k as int] == lock@);
            let passes = lock.owner == *owner && (manual_reentry || match kind {
                WaitKind::Manual => true,
                WaitKind::Automatic => false,
            });
            if !passes && overlaps_any(&lock.dir, dirs) {
                assert(self@.blocked_by_manual(self@.manual[k as int], owner@, wanted, kind));
                return true;
            }
            k += 1;
        }
        false
    }

    /// Whether a request is granted at once.
    pub fn can_grant_now(&self, owner: &String, dirs: &Vec<DirPath>, kind: WaitKind) -> (b: bool)
        ensures
            b == self@.can_grant_now(owner@, dir_views(dirs@), kind),
    {
        let bypass = match kind {
            WaitKind::Manual => false,
            WaitKind::Automatic => self.manual_covers(owner, dirs),
        };
        (bypass || self.waiters.is_empty()) && !self.has_conflict(owner, dirs, kind)
    }

    /// The first lock that blocks a request and seems forgotten.
    pub fn abandoned_blocker(
        &self,
        owner: &String,
        dirs: &Vec<DirPath>,
        now: u128,
        abandoned_after: u128,
    ) -> (found: Option<AbandonedLock>)
        ensures
            match found {
                Some(lock) => first_abandoned(
                    self@.manual,
                    owner@,
                    dir_views(dirs@),
                    now,
                    abandoned_after,
                ) == Some(lock@),
                None => first_abandoned(
                    self@.manual,
                    owner@,
                    dir_views(dirs@),
                    now,
                    abandoned_after,
                ) is None,
            },
    {
        let ghost manual = self@.manual;
        let mut i: usize = 0;
        assert(manual.skip(0) =~= manual);
        while i < self.manual.len()
            invariant
                i <= self.manual@.len(),
                manual == self@.manual,
                first_abandoned(
                    manual.skip(i as int),
                    owner@,
                    dir_views(dirs@),
                    now,
                    abandoned_after,
                ) == first_abandoned(manual, owner@, dir_views(dirs@), now, abandoned_after),
            decreases self.manual.len() - i,
        {
            let lock = &self.manual[i];
            assert(manual.skip(i as int)[0] == lock@);
            if lock.owner != *owner && overlaps_any(&lock.dir, dirs)
                && lock.active_auto_ids.is_empty() && time_since(now, lock.last_used_at)
                >= abandoned_after {
                return Some(
                    AbandonedLock {
                        owner: lock.owner.clone(),
                        dir: lock.dir.copy(),
                        held_for: time_since(now, lock.acquired_at),
                        idle_for: time_since(now, lock.last_used_at),
                    },
                );
            }
            assert(manual.skip(i as int).drop_first() =~= manual.skip(i + 1));
            i += 1;
        }
        None
    }
}

/// The numbers without one of them.
fn without_id(ids: &Vec<u64>, id: u64) -> (left: Vec<u64>)
    ensures
        left@ == without(ids@, id),
{
    let mut left: Vec<u64> = Vec::new();
    let mut i: usize = 0;
    assert(left@ =~= without(ids@.take(0), id));
    while i < ids.len()
        invariant
            i <= ids@.len(),
            left@ == without(ids@.take(i as int), id),
        decreases ids.len() - i,
    {
        assert(ids@.take(i + 1).drop_last() =~= ids@.take(i as int));
        if ids[i] != id {
            left.push(ids[i]);
        }
        i += 1;
    }
    assert(ids@.take(i as int) =~= ids@);
    left
}

impl LockState {
    /// Adds a waiter behind the others.
    fn push_waiter(
        &mut self,
        call_id: String,
        owner: String,
        dirs: Vec<DirPath>,
        kind: WaitKind,
    ) -> (id: u64)
        requires
            old(self).next_waiter_id < u64::MAX,
        ensures
            id == old(self).next_waiter_id,
            final(self)@ == old(self)@.push_waiter(call_id@, owner@, dir_views(dirs@), kind),
    {
        let id = self.next_waiter_id;
        self.next_waiter_id = id + 1;
        let waiter = Waiter { id, call_id, owner, dirs, kind };
        self.waiters.push(waiter);
        assert(waiter_views(self.waiters@) =~= old(self)@.waiters.push(waiter@));
        id
    }

    /// Removes the first waiter.
    fn pop_waiter(&mut self) -> (waiter: Waiter)
        requires
            old(self).waiters@.len() > 0,
        ensures
            final(self)@ == old(self)@.pop_waiter(),
            waiter@ == old(self)@.waiters[0],
    {
        let waiter = self.waiters.remove(0);
        assert(waiter_views(self.waiters@) =~= old(self)@.waiters.drop_first());
        waiter
    }

    /// Adds manual locks for directories.
    fn add_manual(&mut self, owner: String, dirs: Vec<DirPath>, now: u128)
        ensures
            final(self)@ == old(self)@.add_manual(owner@, dir_views(dirs@), now),
    {
        let ghost added = dir_views(dirs@).map_values(
            |dir: Seq<Seq<char>>|
                ManualView {
                    owner: owner@,
                    dir,
                    acquired_at: now,
                    last_used_at: now,
                    active: seq![],
                },
        );
        let mut i: usize = 0;
        assert(self@.manual =~= old(self)@.manual + added.take(0));
        while i < dirs.len()
            invariant
                i <= dirs@.len(),
                added == dir_views(dirs@).map_values(
                    |dir: Seq<Seq<char>>|
                        ManualView {
                            owner: owner@,
                            dir,
                            acquired_at: now,
                            last_used_at: now,
                            active: seq![],
                        },
                ),
                self@ == (LockView {
                    manual: old(self)@.manual + added.take(i as int),
                    ..old(self)@
                }),
            decreases dirs.len() - i,
        {
            let ghost before = self@;
            let lock = ManualLock {
                owner: owner.clone(),
                dir: dirs[i].copy(),
                acquired_at: now,
                last_used_at: now,
                active_auto_ids: Vec::new(),
            };
            assert(lock@.active =~= seq![]);
            assert(lock@ == added[i as int]);
            self.manual.push(lock);
            assert(manual_views(self.manual@) =~= before.manual.push(lock@));
            i += 1;
            assert(self@.manual =~= old(self)@.manual + added.take(i as int));
        }
        assert(added.take(i as int) =~= added);
    }

    /// Adds an automatic lock.
    fn add_auto(&mut self, owner: String, dirs: Vec<DirPath>, now: u128) -> (id: u64)
        requires
            old(self).next_auto_id < u64::MAX,
        ensures
            id == old(self).next_auto_id,
            final(self)@ == old(self)@.add_auto(owner@, dir_views(dirs@), now),
    {
        let id = self.next_auto_id;
        self.next_auto_id = id + 1;
        let ghost wanted = dir_views(dirs@);
        let mut i: usize = 0;
        while i < self.manual.len()
            invariant
                i <= self.manual@.len() == old(self).manual@.len(),
                wanted == dir_views(dirs@),
                self.automatic == old(self).automatic,
                self.waiters == old(self).waiters,
                self.next_waiter_id == old(self).next_waiter_id,
                self.next_auto_id == id + 1,
                forall|j: int|
                    0 <= j < i ==> (#[trigger] self@.manual[j]) == used_by(
                        old(self)@.manual[j],
                        id,
                        owner@,
                        wanted,
                        now,
                    ),
                forall|j: int|
                    i <= j < self.manual@.len() ==> (#[trigger] self.manual@[j])
                        == old(self).manual@[j],
            decreases self.manual.len() - i,
        {
            assert(self.manual@[i as int] == old(self).manual@[i as int]);
            let ghost before = self@.manual;
            let uses = self.manual[i].owner == owner && any_lies_in(&dirs, &self.manual[i].dir)
                && !has_id(&self.manual[i].active_auto_ids, id);
            if uses {
                let lock = &mut self.manual[i];
                lock.last_used_at = now;
                lock.active_auto_ids.push(id);
            }
            assert(self@.manual[i as int] == used_by(
                old(self)@.manual[i as int],
                id,
                owner@,
                wanted,
                now,
            ));
            assert(forall|j: int| 0 <= j < i ==> #[trigger] self@.manual[j] == before[j]);
            i += 1;
        }
        let ghost marked = self@.manual;
        assert(marked =~= old(self)@.add_auto(owner@, wanted, now).manual);
        let lock = AutomaticLock { id, owner, dirs };
        self.automatic.push(lock);
        assert(auto_views(self.automatic@) =~= old(self)@.automatic.push(lock@));
        id
    }

    /// Releases an automatic lock.
    pub fn release_auto(&mut self, id: u64, now: u128)
        ensures
            final(self)@ == old(self)@.release_auto(id, now),
    {
        let mut left: Vec<AutomaticLock> = Vec::new();
        let mut old_locks: Vec<AutomaticLock> = Vec::new();
        core::mem::swap(&mut old_locks, &mut self.automatic);
        let n: usize = old_locks.len();
        let ghost all = auto_views(old_locks@);
        assert(auto_views(left@) =~= keep(all.take(0), |lock: AutoView| lock.id != id));
        for lock in iter: old_locks
            invariant
                iter.seq() == old_locks@,
                all == auto_views(old_locks@),
                auto_views(left@) == keep(all.take(iter.index()), |lock: AutoView| lock.id != id),
        {
            assert(all.take(iter.index() + 1).drop_last() =~= all.take(iter.index()));
            assert(all.take(iter.index() + 1).last() == lock@);
            if lock.id != id {
                let ghost before = left@;
                left.push(lock);
                assert(auto_views(left@) =~= auto_views(before).push(lock@));
            }
        }
        assert(all.take(all.len() as int) =~= all);
        let removed = left.len() != n;
        self.automatic = left;
        if removed {
            let mut i: usize = 0;
            while i < self.manual.len()
                invariant
                    i <= self.manual@.len() == old(self).manual@.len(),
                    self.automatic == left,
                    self.waiters == old(self).waiters,
                    self.next_waiter_id == old(self).next_waiter_id,
                    self.next_auto_id == old(self).next_auto_id,
                    forall|j: int|
                        0 <= j < i ==> (#[trigger] self@.manual[j]) == unused_by(
                            old(self)@.manual[j],
                            id,
                            now,
                        ),
                    forall|j: int|
                        i <= j < self.manual@.len() ==> (#[trigger] self.manual@[j])
                            == old(self).manual@[j],
                decreases self.manual.len() - i,
            {
                assert(self.manual@[i as int] == old(self).manual@[i as int]);
                let ghost before = self@.manual;
                let kept = without_id(&self.manual[i].active_auto_ids, id);
                if kept.len() != self.manual[i].active_auto_ids.len() {
                    let lock = &mut self.manual[i];
                    lock.last_used_at = now;
                    lock.active_auto_ids = kept;
                }
                assert(self@.manual[i as int] == unused_by(old(self)@.manual[i as int], id, now));
                assert(forall|j: int| 0 <= j < i ==> #[trigger] self@.manual[j] == before[j]);
                i += 1;
            }
            assert(self@.manual =~= old(self)@.release_auto(id, now).manual);
        }
        assert(self@ =~= old(self)@.release_auto(id, now));
    }
}

/// Where the manual lock of an owner for exactly a directory stands; the
/// number of locks if nowhere.
pub open spec fn held_at(manual: Seq<ManualView>, owner: Seq<char>, dir: Seq<Seq<char>>) -> int
    decreases manual.len(),
{
    if manual.len() == 0 || (manual[0].owner == owner && manual[0].dir == dir) {
        0
    } else {
        1 + held_at(manual.drop_first(), owner, dir)
    }
}

/// The message for a lock that is not held.
pub open spec fn not_held_message(owner: Seq<char>, dir: Seq<Seq<char>>) -> Seq<char> {
    "agent `"@ + owner + "` does not hold a directory lock for "@ + path_text(dir)
}

/// A manual lock that was released by force.
#[derive(Debug)]
pub struct ForceUnlockedLock {
    pub owner: String,
    pub dir: DirPath,
}

/// Whether locks released by force are those manual locks.
pub open spec fn same_locks(removed: Seq<ForceUnlockedLock>, locks: Seq<ManualView>) -> bool {
    &&& removed.len() == locks.len()
    &&& forall|i: int|
        0 <= i < locks.len() ==> (#[trigger] removed[i]).owner@ == locks[i].owner
            && removed[i].dir@ == locks[i].dir
}

impl LockView {
    /// The locks after an agent gave back its manual lock for a directory.
    pub open spec fn unlock(self, owner: Seq<char>, dir: Seq<Seq<char>>) -> LockView {
        let p = held_at(self.manual, owner, dir);
        if p < self.manual.len() {
            LockView { manual: self.manual.remove(p), ..self }
        } else {
            self
        }
    }

    /// The locks after the waiters of a call were turned away.
    pub open spec fn cancel_call(self, call_id: Seq<char>) -> LockView {
        LockView { waiters: keep(self.waiters, |w: WaiterView| w.call_id != call_id), ..self }
    }

    /// The locks without the manual locks that overlap a directory.
    pub open spec fn force_unlock(self, dir: Seq<Seq<char>>) -> LockView {
        LockView { manual: keep(self.manual, |l: ManualView| !overlap(l.dir, dir)), ..self }
    }

    /// The manual locks that overlap a directory.
    pub open spec fn overlapping(self, dir: Seq<Seq<char>>) -> Seq<ManualView> {
        keep(self.manual, |l: ManualView| overlap(l.dir, dir))
    }

    /// The locks after an agent left: without its manual locks and waiters.
    pub open spec fn release_agent(self, owner: Seq<char>) -> LockView {
        LockView {
            manual: keep(self.manual, |l: ManualView| l.owner != owner),
            waiters: keep(self.waiters, |w: WaiterView| w.owner != owner),
            ..self
        }
    }

    /// The locks after locking was turned off.
    pub open spec fn disable(self) -> LockView {
        LockView { manual: seq![], waiters: seq![], ..self }
    }
}

impl LockState {
    /// Asks for an automatic lock on directories, for one tool call. Where
    /// `require_manual_cover` is set, manual locks of the owner have to hold
    /// all of them.
    pub fn acquire_auto(
        &mut self,
        call_id: String,
        owner: String,
        dirs: Vec<DirPath>,
        require_manual_cover: bool,
        now: u128,
    ) -> (r: AutoStart)
        requires
            old(self).next_auto_id < u64::MAX,
            old(self).next_waiter_id < u64::MAX,
        ensures
            (final(self)@, r@) == old(self)@.start_auto(
                call_id@,
                owner@,
                normal_form(dir_views(dirs@)),
                require_manual_cover,
                now,
            ),
    {
        let dirs = normalize_lock_dirs(dirs);
        let held = self.manual_covers(&owner, &dirs);
        if require_manual_cover && !held {
            return AutoStart::NotCovered;
        }
        if !held {
            if let Some(dir) = self.manual_lock_owned_overlapping(&owner, &dirs) {
                return AutoStart::SelfConflict { dir };
            }
        }
        if self.can_grant_now(&owner, &dirs, WaitKind::Automatic) {
            let id = self.add_auto(owner, dirs, now);
            return AutoStart::Granted { id };
        }
        let waiter = self.push_waiter(call_id, owner, dirs, WaitKind::Automatic);
        AutoStart::Waiting { waiter }
    }

    /// Whether a waiter is in the queue.
    fn is_waiting(&self, waiter: u64) -> (b: bool)
        ensures
            b == self@.is_waiting(waiter),
    {
        let mut i: usize = 0;
        while i < self.waiters.len()
            invariant
                i <= self.waiters@.len(),
                forall|j: int| 0 <= j < i ==> (#[trigger] self@.waiters[j]).id != waiter,
            decreases self.waiters.len() - i,
        {
            assert(self@.waiters[i as int] == self.waiters@[i as int]@);
            if self.waiters[i].id == waiter {
                return true;
            }
            i += 1;
        }
        false
    }

    /// Looks at a waiter for an automatic lock: it is served when it is the
    /// first in the queue and nothing is in its way.
    pub fn poll_auto(
        &mut self,
        waiter: u64,
        require_manual_cover: bool,
        next_check: u128,
        now: u128,
        policy: LockWaitPolicy,
    ) -> (r: AutoPoll)
        requires
            old(self).next_auto_id < u64::MAX,
        ensures
            (final(self)@, r@) == old(self)@.poll_auto(
                waiter,
                require_manual_cover,
                next_check,
                now,
                policy,
            ),
    {
        if !self.is_waiting(waiter) {
            return AutoPoll::Cancelled;
        }
        let again: u128 = if next_check <= now {
            now.saturating_add(policy.liveness_interval)
        } else {
            next_check
        };
        let front = &self.waiters[0];
        assert(self@.waiters[0] == front@);
        if front.id != waiter {
            return AutoPoll::Wait { next_check: again, wait_for: time_since(again, now) };
        }
        if require_manual_cover && !self.manual_covers(&front.owner, &front.dirs) {
            let _ = self.pop_waiter();
            return AutoPoll::NotCovered;
        }
        if !self.has_conflict(&front.owner, &front.dirs, front.kind) {
            let queued = self.pop_waiter();
            let id = self.add_auto(queued.owner, queued.dirs, now);
            return AutoPoll::Granted { id };
        }
        if next_check <= now {
            if let Some(lock) = self.abandoned_blocker(
                &front.owner,
                &front.dirs,
                now,
                policy.abandoned_after,
            ) {
                let _ = self.pop_waiter();
                return AutoPoll::Abandoned(lock);
            }
        }
        AutoPoll::Wait { next_check: again, wait_for: time_since(again, now) }
    }

    /// Asks for a manual lock on a directory, to be kept until it is given
    /// back.
    pub fn acquire_manual(&mut self, call_id: String, owner: String, dir: DirPath, now: u128) -> (r:
        ManualStart)
        requires
            old(self).next_waiter_id < u64::MAX,
        ensures
            (final(self)@, r@) == old(self)@.start_manual(call_id@, owner@, dir@, now),
    {
        let mut dirs: Vec<DirPath> = Vec::new();
        dirs.push(dir);
        assert(dir_views(dirs@) =~= seq![dir@]);
        if let Some(held) = self.manual_lock_owned_overlapping(&owner, &dirs) {
            return ManualStart::AlreadyHeld { dir: held };
        }
        if self.can_grant_now(&owner, &dirs, WaitKind::Manual) {
            self.add_manual(owner, dirs, now);
            return ManualStart::Granted;
        }
        let waiter = self.push_waiter(call_id, owner, dirs, WaitKind::Manual);
        ManualStart::Waiting { waiter }
    }

    /// Looks at a waiter for a manual lock.
    pub fn poll_manual(&mut self, waiter: u64, next_check: u128, now: u128, policy: LockWaitPolicy)
        -> (r: ManualPoll)
        ensures
            (final(self)@, r@) == old(self)@.poll_manual(waiter, next_check, now, policy),
    {
        if !self.is_waiting(waiter) {
            return ManualPoll::Cancelled;
        }
        let again: u128 = if next_check <= now {
            now.saturating_add(policy.liveness_interval)
        } else {
            next_check
        };
        let front = &self.waiters[0];
        assert(self@.waiters[0] == front@);
        if front.id != waiter {
            return ManualPoll::Wait { next_check: again, wait_for: time_since(again, now) };
        }
        if let Some(held) = self.manual_lock_owned_overlapping(&front.owner, &front.dirs) {
            let _ = self.pop_waiter();
            return ManualPoll::AlreadyHeld { dir: held };
        }
        if !self.has_conflict(&front.owner, &front.dirs, front.kind) {
            let queued = self.pop_waiter();
            self.add_manual(queued.owner, queued.dirs, now);
            return ManualPoll::Granted;
        }
        if next_check <= now {
            if let Some(lock) = self.abandoned_blocker(
                &front.owner,
                &front.dirs,
                now,
                policy.abandoned_after,
            ) {
                let _ = self.pop_waiter();
                return ManualPoll::Abandoned(lock);
            }
        }
        ManualPoll::Wait { next_check: again, wait_for: time_since(again, now) }
    }

    /// Gives back the manual lock that an agent holds for exactly a directory.
    pub fn unlock_manual(&mut self, owner: &String, dir: &DirPath) -> (r: Result<(), String>)
        ensures
            final(self)@ == old(self)@.unlock(owner@, dir@),
            match r {
                Ok(_) => held_at(old(self)@.manual, owner@, dir@) < old(self)@.manual.len(),
                Err(message) => held_at(old(self)@.manual, owner@, dir@)
                    >= old(self)@.manual.len() && message@ == not_held_message(owner@, dir@),
            },
    {
        let ghost manual = self@.manual;
        let mut i: usize = 0;
        assert(manual.skip(0) =~= manual);
        while i < self.manual.len()
            invariant
                i <= self.manual@.len(),
                self == old(self),
                manual == self@.manual,
                held_at(manual, owner@, dir@) == i + held_at(
                    manual.skip(i as int),
                    owner@,
                    dir@,
                ),
            decreases self.manual.len() - i,
        {
            assert(manual.skip(i as int)[0] == self.manual@[i as int]@);
            if self.manual[i].owner == *owner && self.manual[i].dir.same(dir) {
                let _ = self.manual.remove(i);
                assert(self@.manual =~= manual.remove(i as int));
                return Ok(());
            }
            assert(manual.skip(i as int).drop_first() =~= manual.skip(i + 1));
            i += 1;
        }
        let mut message = "agent `".to_owned();
        message.append(owner.as_str());
        message.append("` does not hold a directory lock for ");
        message.append(dir.display().as_str());
        Err(message)
    }

    /// Turns away the waiter of a call, where it has one.
    pub fn cancel_waiting_call(&mut self, call_id: &String) -> (removed: bool)
        ensures
            final(self)@ == old(self)@.cancel_call(call_id@),
            removed == (final(self)@.waiters.len() != old(self)@.waiters.len()),
    {
        let mut left: Vec<Waiter> = Vec::new();
        let mut waiters: Vec<Waiter> = Vec::new();
        core::mem::swap(&mut waiters, &mut self.waiters);
        let n: usize = waiters.len();
        let ghost all = waiter_views(waiters@);
        assert(waiter_views(left@) =~= keep(all.take(0), |w: WaiterView| w.call_id != call_id@));
        for waiter in iter: waiters
            invariant
                iter.seq() == waiters@,
                all == waiter_views(waiters@),
                waiter_views(left@) == keep(
                    all.take(iter.index()),
                    |w: WaiterView| w.call_id != call_id@,
                ),
        {
            assert(all.take(iter.index() + 1).drop_last() =~= all.take(iter.index()));
            assert(all.take(iter.index() + 1).last() == waiter@);
            if waiter.call_id != *call_id {
                let ghost before = left@;
                left.push(waiter);
                assert(waiter_views(left@) =~= waiter_views(before).push(waiter@));
            }
        }
        assert(all.take(all.len() as int) =~= all);
        let removed = left.len() != n;
        self.waiters = left;
        removed
    }

    /// Releases every manual lock that overlaps a directory, whoever owns it.
    /// Automatic locks of running tools are left alone.
    pub fn force_unlock_overlapping(&mut self, dir: &DirPath) -> (removed: Vec<ForceUnlockedLock>)
        ensures
            final(self)@ == old(self)@.force_unlock(dir@),
            same_locks(removed@, old(self)@.overlapping(dir@)),
    {
        let mut removed: Vec<ForceUnlockedLock> = Vec::new();
        let mut left: Vec<ManualLock> = Vec::new();
        let mut locks: Vec<ManualLock> = Vec::new();
        core::mem::swap(&mut locks, &mut self.manual);
        let ghost all = manual_views(locks@);
        assert(manual_views(left@) =~= keep(
            all.take(0),
            |l: ManualView| !overlap(l.dir, dir@),
        ));
        for lock in iter: locks
            invariant
                iter.seq() == locks@,
                all == manual_views(locks@),
                manual_views(left@) == keep(
                    all.take(iter.index()),
                    |l: ManualView| !overlap(l.dir, dir@),
                ),
                same_locks(
                    removed@,
                    keep(all.take(iter.index()), |l: ManualView| overlap(l.dir, dir@)),
                ),
        {
            assert(all.take(iter.index() + 1).drop_last() =~= all.take(iter.index()));
            assert(all.take(iter.index() + 1).last() == lock@);
            let ghost gone = keep(all.take(iter.index()), |l: ManualView| overlap(l.dir, dir@));
            if paths_overlap(&lock.dir, dir) {
                let ghost before = removed@;
                removed.push(ForceUnlockedLock { owner: lock.owner, dir: lock.dir });
                assert forall|i: int| 0 <= i < gone.push(lock@).len() implies (
                #[trigger] removed@[i]).owner@ == gone.push(lock@)[i].owner && removed@[i].dir@
                    == gone.push(lock@)[i].dir by {
                    if i < gone.len() {
                        assert(removed@[i] == before[i]);
                    }
                }
            } else {
                let ghost before = left@;
                left.push(lock);
                assert(manual_views(left@) =~= manual_views(before).push(lock@));
            }
        }
        assert(all.take(all.len() as int) =~= all);
        self.manual = left;
        removed
    }

    /// Releases the manual locks and waiters of an agent that left; says how
    /// many locks there were.
    pub fn release_agent(&mut self, owner: &String) -> (removed: usize)
        ensures
            final(self)@ == old(self)@.release_agent(owner@),
            removed == old(self)@.manual.len() - final(self)@.manual.len(),
    {
        let mut left: Vec<ManualLock> = Vec::new();
        let mut locks: Vec<ManualLock> = Vec::new();
        core::mem::swap(&mut locks, &mut self.manual);
        let n: usize = locks.len();
        let ghost all = manual_views(locks@);
        assert(manual_views(left@) =~= keep(all.take(0), |l: ManualView| l.owner != owner@));
        for lock in iter: locks
            invariant
                iter.seq() == locks@,
                all == manual_views(locks@),
                left@.len() <= iter.index(),
                manual_views(left@) == keep(
                    all.take(iter.index()),
                    |l: ManualView| l.owner != owner@,
                ),
        {
            assert(all.take(iter.index() + 1).drop_last() =~= all.take(iter.index()));
            assert(all.take(iter.index() + 1).last() == lock@);
            if lock.owner != *owner {
                let ghost before = left@;
                left.push(lock);
                assert(manual_views(left@) =~= manual_views(before).push(lock@));
            }
        }
        assert(all.take(all.len() as int) =~= all);
        let removed: usize = n - left.len();
        self.manual = left;
        let mut queue: Vec<Waiter> = Vec::new();
        let mut waiters: Vec<Waiter> = Vec::new();
        core::mem::swap(&mut waiters, &mut self.waiters);
        let ghost queued = waiter_views(waiters@);
        assert(waiter_views(queue@) =~= keep(
            queued.take(0),
            |w: WaiterView| w.owner != owner@,
        ));
        for waiter in iter: waiters
            invariant
                iter.seq() == waiters@,
                queued == waiter_views(waiters@),
                waiter_views(queue@) == keep(
                    queued.take(iter.index()),
                    |w: WaiterView| w.owner != owner@,
                ),
        {
            assert(queued.take(iter.index() + 1).drop_last() =~= queued.take(iter.index()));
            assert(queued.take(iter.index() + 1).last() == waiter@);
            if waiter.owner != *owner {
                let ghost before = queue@;
                queue.push(waiter);
                assert(waiter_views(queue@) =~= waiter_views(before).push(waiter@));
            }
        }
        assert(queued.take(queued.len() as int) =~= queued);
        self.waiters = queue;
        removed
    }

    /// Turns locking off: releases the manual locks and turns the waiters away;
    /// says how many there were of each.
    pub fn disable(&mut self) -> (counts: (usize, usize))
        ensures
            final(self)@ == old(self)@.disable(),
            counts.0 == old(self)@.manual.len(),
            counts.1 == old(self)@.waiters.len(),
    {
        let counts: (usize, usize) = (self.manual.len(), self.waiters.len());
        self.manual.clear();
        self.waiters.clear();
        assert(self@ =~= old(self)@.disable());
        counts
    }
}

} // verus!
