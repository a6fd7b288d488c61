//! Bounded priority queues for the extension's work.
//!
//! Whoever reads the protocol must never wait for a worker: it puts work into
//! one of four lanes, and workers take it out again, each kind of worker from
//! the lanes that it may serve. Full lanes push back.

use vstd::prelude::*;

use crate::seqs::{keep, lemma_keep};
use crate::shell::capture::sat;
use crate::text::{decimal, decimal_of, opt_view};

verus! {

/// Default limit for the bytes of queued arguments.
pub const DEFAULT_QUEUED_BYTES_LIMIT: usize = 1048576;

/// The lane of a piece of work.
#[derive(Clone, Copy, Debug, PartialEq, Eq, Structural)]
pub enum WorkPriority {
    /// Control work that bursts of tool calls must not starve.
    Control,
    /// Commands of the user.
    User,
    /// Tools that only read, or are cheap for another reason.
    Cheap,
    /// Tools that change things, and commands of the model.
    Bulk,
}

/// Which lanes a worker serves.
#[derive(Clone, Copy, Debug, PartialEq, Eq, Structural)]
pub enum WorkerKind {
    Control,
    User,
    Cheap,
    General,
}

/// Why work was not queued.
#[derive(Debug)]
pub struct EnqueueError {
    pub message: String,
}

/// What is known of queued work: enough to cancel it before it starts.
#[derive(Debug)]
pub struct WorkMeta {
    pub call_id: Option<String>,
    pub tool_name: Option<String>,
    pub agent_id: Option<String>,
    /// About how many bytes the arguments take.
    pub queued_bytes: usize,
}

/// A piece of queued work.
#[derive(Debug)]
pub struct WorkItem<T> {
    pub meta: WorkMeta,
    pub job: T,
}

/// Limits of the queues, and how many workers there are of each kind.
#[derive(Clone, Copy, Debug, PartialEq, Eq, Structural)]
pub struct SchedulerConfig {
    pub total_limit: usize,
    pub control_limit: usize,
    pub user_limit: usize,
    pub cheap_limit: usize,
    pub bulk_limit: usize,
    pub queued_bytes_limit: usize,
    pub control_workers: usize,
    pub user_workers: usize,
    pub cheap_workers: usize,
    pub general_workers: usize,
}

/// The limits and workers where nothing else is asked for.
pub open spec fn default_limits() -> SchedulerConfig {
    SchedulerConfig {
        total_limit: 64,
        control_limit: 16,
        user_limit: 16,
        cheap_limit: 32,
        bulk_limit: 32,
        queued_bytes_limit: DEFAULT_QUEUED_BYTES_LIMIT,
        control_workers: 1,
        user_workers: 2,
        cheap_workers: 3,
        general_workers: 10,
    }
}

impl Default for SchedulerConfig {
    fn default() -> (config: Self)
        ensures
            config == default_limits(),
    {
        SchedulerConfig {
            total_limit: 64,
            control_limit: 16,
            user_limit: 16,
            cheap_limit: 32,
            bulk_limit: 32,
            queued_bytes_limit: DEFAULT_QUEUED_BYTES_LIMIT,
            control_workers: 1,
            user_workers: 2,
            cheap_workers: 3,
            general_workers: 10,
        }
    }
}

impl SchedulerConfig {
    /// The limit of a lane.
    pub open spec fn lane_limit(self, priority: WorkPriority) -> usize {
        match priority {
            WorkPriority::Control => self.control_limit,
            WorkPriority::User => self.user_limit,
            WorkPriority::Cheap => self.cheap_limit,
            WorkPriority::Bulk => self.bulk_limit,
        }
    }
}

/// The queued work, lane by lane, as mathematics.
#[verifier::ext_equal]
pub struct Lanes<T> {
    pub control: Seq<WorkItem<T>>,
    pub user: Seq<WorkItem<T>>,
    pub cheap: Seq<WorkItem<T>>,
    pub bulk: Seq<WorkItem<T>>,
}

/// The bytes that the work of a lane counts for.
pub open spec fn lane_bytes<T>(lane: Seq<WorkItem<T>>) -> nat
    decreases lane.len(),
{
    if lane.len() == 0 {
        0
    } else {
        lane_bytes(lane.drop_last()) + lane.last().meta.queued_bytes as nat
    }
}

/// Whether work belongs to a call.
pub open spec fn of_call<T>(item: WorkItem<T>, call_id: Seq<char>) -> bool {
    opt_view(item.meta.call_id) == Some(call_id)
}

/// Whether work belongs to an agent.
pub open spec fn of_agent<T>(item: WorkItem<T>, agent_id: Seq<char>) -> bool {
    opt_view(item.meta.agent_id) == Some(agent_id)
}

/// Where the first work of a call stands in a lane; the lane's length if
/// nowhere.
pub open spec fn call_at<T>(lane: Seq<WorkItem<T>>, call_id: Seq<char>) -> int
    decreases lane.len(),
{
    if lane.len() == 0 || of_call(lane[0], call_id) {
        0
    } else {
        1 + call_at(lane.drop_first(), call_id)
    }
}

/// A lane without the work of an agent.
pub open spec fn without_agent<T>(lane: Seq<WorkItem<T>>, agent_id: Seq<char>) -> Seq<
    WorkItem<T>,
> {
    keep(lane, |item: WorkItem<T>| !of_agent(item, agent_id))
}

impl<T> Lanes<T> {
    /// No queued work.
    pub open spec fn empty() -> Lanes<T> {
        Lanes { control: seq![], user: seq![], cheap: seq![], bulk: seq![] }
    }

    /// One lane.
    pub open spec fn lane(self, priority: WorkPriority) -> Seq<WorkItem<T>> {
        match priority {
            WorkPriority::Control => self.control,
            WorkPriority::User => self.user,
            WorkPriority::Cheap => self.cheap,
            WorkPriority::Bulk => self.bulk,
        }
    }

    /// The lanes with another in the place of one.
    pub open spec fn with_lane(self, priority: WorkPriority, lane: Seq<WorkItem<T>>) -> Lanes<T> {
        match priority {
            WorkPriority::Control => Lanes { control: lane, ..self },
            WorkPriority::User => Lanes { user: lane, ..self },
            WorkPriority::Cheap => Lanes { cheap: lane, ..self },
            WorkPriority::Bulk => Lanes { bulk: lane, ..self },
        }
    }

    /// How much work is queued.
    pub open spec fn total(self) -> nat {
        self.control.len() + self.user.len() + self.cheap.len() + self.bulk.len()
    }

    /// The bytes that all queued work counts for.
    pub open spec fn bytes(self) -> nat {
        lane_bytes(self.control) + lane_bytes(self.user) + lane_bytes(self.cheap) + lane_bytes(
            self.bulk,
        )
    }

    /// The first lane with work that a worker may serve: control before user
    /// before cheap before bulk.
    pub open spec fn next_lane(self, kind: WorkerKind) -> Option<WorkPriority> {
        if self.control.len() > 0 {
            Some(WorkPriority::Control)
        } else if kind != WorkerKind::Control && self.user.len() > 0 {
            Some(WorkPriority::User)
        } else if (kind == WorkerKind::Cheap || kind == WorkerKind::General) && self.cheap.len()
            > 0 {
            Some(WorkPriority::Cheap)
        } else if kind == WorkerKind::General && self.bulk.len() > 0 {
            Some(WorkPriority::Bulk)
        } else {
            None
        }
    }

    /// The first lane that holds work of a call.
    pub open spec fn lane_of_call(self, call_id: Seq<char>) -> Option<WorkPriority> {
        if call_at(self.control, call_id) < self.control.len() {
            Some(WorkPriority::Control)
        } else if call_at(self.user, call_id) < self.user.len() {
            Some(WorkPriority::User)
        } else if call_at(self.cheap, call_id) < self.cheap.len() {
            Some(WorkPriority::Cheap)
        } else if call_at(self.bulk, call_id) < self.bulk.len() {
            Some(WorkPriority::Bulk)
        } else {
            None
        }
    }

    /// The lanes without the work of an agent.
    pub open spec fn release_agent(self, agent_id: Seq<char>) -> Lanes<T> {
        Lanes {
            control: without_agent(self.control, agent_id),
            user: without_agent(self.user, agent_id),
            cheap: without_agent(self.cheap, agent_id),
            bulk: without_agent(self.bulk, agent_id),
        }
    }

    /// Whether the lanes are within the limits. The largest limit for bytes is
    /// none, as the count of them stops there.
    pub open spec fn within(self, config: SchedulerConfig) -> bool {
        &&& self.total() <= config.total_limit
        &&& self.control.len() <= config.control_limit
        &&& self.user.len() <= config.user_limit
        &&& self.cheap.len() <= config.cheap_limit
        &&& self.bulk.len() <= config.bulk_limit
        &&& config.queued_bytes_limit < usize::MAX ==> self.bytes() <= config.queued_bytes_limit
    }
}

/// The name of a lane in messages.
pub open spec fn lane_name(priority: WorkPriority) -> Seq<char> {
    match priority {
        WorkPriority::Control => "Control"@,
        WorkPriority::User => "User"@,
        WorkPriority::Cheap => "Cheap"@,
        WorkPriority::Bulk => "Bulk"@,
    }
}

/// Why work would not be queued; nothing where it would be.
pub open spec fn refusal<T>(
    lanes: Lanes<T>,
    config: SchedulerConfig,
    priority: WorkPriority,
    bytes: usize,
) -> Option<Seq<char>> {
    if config.total_limit <= lanes.total() {
        Some(
            "too many queued shell tool calls; queue limit is "@ + decimal_of(
                config.total_limit as nat,
            ),
        )
    } else if config.lane_limit(priority) <= lanes.lane(priority).len() {
        Some(
            "too many queued "@ + lane_name(priority) + " shell tool calls; queue limit is "@
                + decimal_of(config.lane_limit(priority) as nat),
        )
    } else if config.queued_bytes_limit < sat(lanes.bytes() + bytes) {
        Some(
            "queued shell tool arguments exceed "@ + decimal_of(config.queued_bytes_limit as nat)
                + " byte limit"@,
        )
    } else {
        None
    }
}

/// A difference in machine arithmetic that stops at zero.
pub open spec fn less(n: usize, taken: usize) -> usize {
    if taken < n {
        (n - taken) as usize
    } else {
        0
    }
}

/// The queues of the extension's work.
#[derive(Debug)]
pub struct WorkScheduler<T> {
    pub config: SchedulerConfig,
    pub control: Vec<WorkItem<T>>,
    pub user: Vec<WorkItem<T>>,
    pub cheap: Vec<WorkItem<T>>,
    pub bulk: Vec<WorkItem<T>>,
    pub queued_bytes: usize,
}

impl<T> View for WorkScheduler<T> {
    type V = Lanes<T>;

    open spec fn view(&self) -> Lanes<T> {
        Lanes { control: self.control@, user: self.user@, cheap: self.cheap@, bulk: self.bulk@ }
    }
}

/// A call that was cancelled before it started.
#[derive(Debug)]
pub struct CancelledCall {
    pub call_id: String,
    pub tool_name: String,
}

proof fn lemma_lane_bytes_remove<T>(lane: Seq<WorkItem<T>>, i: int)
    requires
        0 <= i < lane.len(),
    ensures
        lane_bytes(lane) == lane_bytes(lane.remove(i)) + lane[i].meta.queued_bytes as nat,
    decreases lane.len(),
{
    if i == lane.len() - 1 {
        assert(lane.remove(i) =~= lane.drop_last());
    } else {
        assert(lane.remove(i).drop_last() =~= lane.drop_last().remove(i));
        lemma_lane_bytes_remove(lane.drop_last(), i);
    }
}

proof fn lemma_call_at<T>(lane: Seq<WorkItem<T>>, call_id: Seq<char>)
    ensures
        0 <= call_at(lane, call_id) <= lane.len(),
        call_at(lane, call_id) < lane.len() ==> of_call(lane[call_at(lane, call_id)], call_id),
        forall|i: int| 0 <= i < call_at(lane, call_id) ==> !of_call(#[trigger] lane[i], call_id),
    decreases lane.len(),
{
    if lane.len() > 0 && !of_call(lane[0], call_id) {
        let rest = lane.drop_first();
        lemma_call_at(rest, call_id);
        assert forall|i: int| 0 <= i < call_at(lane, call_id) implies !of_call(
            #[trigger] lane[i],
            call_id,
        ) by {
            if i > 0 {
                assert(rest[i - 1] == lane[i]);
            }
        }
    }
}

/// Whether two optional texts are there and the same.
fn is_text(a: &Option<String>, b: &String) -> (same: bool)
    ensures
        same == (opt_view(*a) == Some(b@)),
{
    match a {
        Some(a) => *a == *b,
        None => false,
    }
}

/// Takes the first work of a call out of a lane.
fn take_call<T>(lane: &mut Vec<WorkItem<T>>, call_id: &String) -> (found: Option<WorkItem<T>>)
    ensures
        ({
            let p = call_at(old(lane)@, call_id@);
            match found {
                Some(item) => 0 <= p < old(lane)@.len() && item == old(lane)@[p] && final(lane)@
                    == old(lane)@.remove(p),
                None => p >= old(lane)@.len() && final(lane)@ == old(lane)@,
            }
        }),
{
    let ghost all = lane@;
    let mut i: usize = 0;
    assert(all.skip(0) =~= all);
    while i < lane.len()
        invariant
            i <= lane@.len(),
            lane@ == all,
            all == old(lane)@,
            call_at(all, call_id@) == i + call_at(all.skip(i as int), call_id@),
        decreases lane.len() - i,
    {
        assert(all.skip(i as int)[0] == all[i as int]);
        if is_text(&lane[i].meta.call_id, call_id) {
            return Some(lane.remove(i));
        }
        assert(all.skip(i as int).drop_first() =~= all.skip(i + 1));
        i += 1;
    }
    None
}

/// Takes the work of an agent out of a lane; says how much there was, in
/// pieces and in bytes.
fn drop_agent<T>(lane: &mut Vec<WorkItem<T>>, agent_id: &String) -> (r: (usize, usize))
    ensures
        final(lane)@ == without_agent(old(lane)@, agent_id@),
        r.0 == old(lane)@.len() - final(lane)@.len(),
        lane_bytes(final(lane)@) <= lane_bytes(old(lane)@),
        r.1 == sat(lane_bytes(old(lane)@) - lane_bytes(final(lane)@)),
{
    let mut kept: Vec<WorkItem<T>> = Vec::new();
    let mut items: Vec<WorkItem<T>> = Vec::new();
    core::mem::swap(&mut items, lane);
    let ghost all = items@;
    let n: usize = items.len();
    let mut removed_bytes: usize = 0;
    assert(kept@ =~= without_agent(all.take(0), agent_id@));
    for item in iter: items
        invariant
            iter.seq() == all,
            kept@ == without_agent(all.take(iter.index()), agent_id@),
            kept@.len() <= iter.index(),
            lane_bytes(kept@) <= lane_bytes(all.take(iter.index())),
            removed_bytes == sat(lane_bytes(all.take(iter.index())) - lane_bytes(kept@)),
    {
        let ghost here = all.take(iter.index() + 1);
        assert(here.drop_last() =~= all.take(iter.index()));
        assert(here.last() == item);
        if is_text(&item.meta.agent_id, agent_id) {
            removed_bytes = removed_bytes.saturating_add(item.meta.queued_bytes);
        } else {
            let ghost before = kept@;
            kept.push(item);
            assert(kept@.drop_last() =~= before);
        }
    }
    assert(all.take(all.len() as int) =~= all);
    let removed: usize = n - kept.len();
    *lane = kept;
    (removed, removed_bytes)
}

impl<T> WorkScheduler<T> {
    /// What holds of the queues at all times: they are within their limits and
    /// their bytes are counted, where there is a limit for them.
    pub open spec fn wf(self) -> bool {
        &&& self@.within(self.config)
        &&& self.config.queued_bytes_limit < usize::MAX ==> self.queued_bytes == self@.bytes()
    }

    /// Empty queues.
    pub fn new(config: SchedulerConfig) -> (scheduler: Self)
        ensures
            scheduler.wf(),
            scheduler.config == config,
            scheduler@ == Lanes::<T>::empty(),
    {
        let scheduler = WorkScheduler {
            config,
            control: Vec::new(),
            user: Vec::new(),
            cheap: Vec::new(),
            bulk: Vec::new(),
            queued_bytes: 0,
        };
        assert(scheduler@ =~= Lanes::<T>::empty());
        scheduler
    }

    /// The limit for the bytes of queued arguments.
    pub fn queued_bytes_limit(&self) -> (limit: usize)
        ensures
            limit == self.config.queued_bytes_limit,
    {
        self.config.queued_bytes_limit
    }

    fn total_len(&self) -> (n: usize)
        requires
            self.wf(),
        ensures
            n == self@.total(),
    {
        self.control.len() + self.user.len() + self.cheap.len() + self.bulk.len()
    }

    /// Queues work behind the rest of its lane, or says why it cannot.
    pub fn enqueue(&mut self, priority: WorkPriority, meta: WorkMeta, job: T) -> (r: Result<
        (),
        EnqueueError,
    >)
        requires
            old(self).wf(),
        ensures
            final(self).wf(),
            final(self).config == old(self).config,
            match r {
                Ok(_) => refusal(
                    old(self)@,
                    old(self).config,
                    priority,
                    meta.queued_bytes,
                ) is None && final(self)@ == old(self)@.with_lane(
                    priority,
                    old(self)@.lane(priority).push(WorkItem { meta, job }),
                ) && final(self).queued_bytes == sat(old(self).queued_bytes + meta.queued_bytes),
                Err(error) => refusal(old(self)@, old(self).config, priority, meta.queued_bytes)
                    == Some(error.message@) && *final(self) == *old(self),
            },
    {
        let (lane_len, lane_limit): (usize, usize) = match priority {
            WorkPriority::Control => (self.control.len(), self.config.control_limit),
            WorkPriority::User => (self.user.len(), self.config.user_limit),
            WorkPriority::Cheap => (self.cheap.len(), self.config.cheap_limit),
            WorkPriority::Bulk => (self.bulk.len(), self.config.bulk_limit),
        };
        if self.config.total_limit <= self.total_len() {
            let mut message = "too many queued shell tool calls; queue limit is ".to_owned();
            message.append(decimal(self.config.total_limit as u64).as_str());
            return Err(EnqueueError { message });
        }
        if lane_limit <= lane_len {
            let mut message = "too many queued ".to_owned();
            let name = match priority {
                WorkPriority::Control => "Control",
                WorkPriority::User => "User",
                WorkPriority::Cheap => "Cheap",
                WorkPriority::Bulk => "Bulk",
            };
            message.append(name);
            message.append(" shell tool calls; queue limit is ");
            message.append(decimal(lane_limit as u64).as_str());
            return Err(EnqueueError { message });
        }
        if self.config.queued_bytes_limit < self.queued_bytes.saturating_add(
            meta.queued_bytes,
        ) {
            let mut message = "queued shell tool arguments exceed ".to_owned();
            message.append(decimal(self.config.queued_bytes_limit as u64).as_str());
            message.append(" byte limit");
            return Err(EnqueueError { message });
        }
        self.queued_bytes = self.queued_bytes.saturating_add(meta.queued_bytes);
        let item = WorkItem { meta, job };
        let ghost added = old(self)@.lane(priority).push(item);
        assert(added.drop_last() =~= old(self)@.lane(priority));
        match priority {
            WorkPriority::Control => self.control.push(item),
            WorkPriority::User => self.user.push(item),
            WorkPriority::Cheap => self.cheap.push(item),
            WorkPriority::Bulk => self.bulk.push(item),
        }
        Ok(())
    }

    /// Takes the next work that a worker may run: the oldest of the first lane
    /// that it serves and that has any.
    pub fn pop_for(&mut self, kind: WorkerKind) -> (next: Option<WorkItem<T>>)
        requires
            old(self).wf(),
        ensures
            final(self).wf(),
            final(self).config == old(self).config,
            match old(self)@.next_lane(kind) {
                None => next is None && *final(self) == *old(self),
                Some(priority) => {
                    let lane = old(self)@.lane(priority);
                    &&& next == Some(lane[0])
                    &&& final(self)@ == old(self)@.with_lane(priority, lane.drop_first())
                    &&& final(self).queued_bytes == less(
                        old(self).queued_bytes,
                        lane[0].meta.queued_bytes,
                    )
                },
            },
    {
        let serves_user = match kind {
            WorkerKind::Control => false,
            _ => true,
        };
        let serves_cheap = match kind {
            WorkerKind::Cheap => true,
            WorkerKind::General => true,
            _ => false,
        };
        let serves_bulk = match kind {
            WorkerKind::General => true,
            _ => false,
        };
        let item = if !self.control.is_empty() {
            proof {
                lemma_lane_bytes_remove(self.control@, 0);
                assert(self.control@.remove(0) =~= self.control@.drop_first());
            }
            self.control.remove(0)
        } else if serves_user && !self.user.is_empty() {
            proof {
                lemma_lane_bytes_remove(self.user@, 0);
                assert(self.user@.remove(0) =~= self.user@.drop_first());
            }
            self.user.remove(0)
        } else if serves_cheap && !self.cheap.is_empty() {
            proof {
                lemma_lane_bytes_remove(self.cheap@, 0);
                assert(self.cheap@.remove(0) =~= self.cheap@.drop_first());
            }
            self.cheap.remove(0)
        } else if serves_bulk && !self.bulk.is_empty() {
            proof {
                lemma_lane_bytes_remove(self.bulk@, 0);
                assert(self.bulk@.remove(0) =~= self.bulk@.drop_first());
            }
            self.bulk.remove(0)
        } else {
            return None;
        };
        self.queued_bytes = self.queued_bytes.saturating_sub(item.meta.queued_bytes);
        Some(item)
    }

    fn remove_call(&mut self, call_id: &String) -> (found: Option<WorkItem<T>>)
        requires
            old(self).wf(),
        ensures
            final(self).wf(),
            final(self).config == old(self).config,
            match old(self)@.lane_of_call(call_id@) {
                None => found is None && final(self)@ == old(self)@ && final(self).queued_bytes
                    == old(self).queued_bytes,
                Some(priority) => {
                    let lane = old(self)@.lane(priority);
                    let p = call_at(lane, call_id@);
                    &&& found == Some(lane[p])
                    &&& final(self)@ == old(self)@.with_lane(priority, lane.remove(p))
                    &&& final(self).queued_bytes == less(
                        old(self).queued_bytes,
                        lane[p].meta.queued_bytes,
                    )
                },
            },
    {
        proof {
            lemma_call_at(self.control@, call_id@);
            lemma_call_at(self.user@, call_id@);
            lemma_call_at(self.cheap@, call_id@);
            lemma_call_at(self.bulk@, call_id@);
            if call_at(self.control@, call_id@) < self.control@.len() {
                lemma_lane_bytes_remove(self.control@, call_at(self.control@, call_id@));
            }
            if call_at(self.user@, call_id@) < self.user@.len() {
                lemma_lane_bytes_remove(self.user@, call_at(self.user@, call_id@));
            }
            if call_at(self.cheap@, call_id@) < self.cheap@.len() {
                lemma_lane_bytes_remove(self.cheap@, call_at(self.cheap@, call_id@));
            }
            if call_at(self.bulk@, call_id@) < self.bulk@.len() {
                lemma_lane_bytes_remove(self.bulk@, call_at(self.bulk@, call_id@));
            }
        }
        let mut found = take_call(&mut self.control, call_id);
        if found.is_none() {
            found = take_call(&mut self.user, call_id);
        }
        if found.is_none() {
            found = take_call(&mut self.cheap, call_id);
        }
        if found.is_none() {
            found = take_call(&mut self.bulk, call_id);
        }
        match found {
            Some(item) => {
                self.queued_bytes = self.queued_bytes.saturating_sub(item.meta.queued_bytes);
                assert(self@ =~= old(self)@.with_lane(
                    old(self)@.lane_of_call(call_id@)->0,
                    self@.lane(old(self)@.lane_of_call(call_id@)->0),
                ));
                Some(item)
            },
            None => {
                assert(self@ =~= old(self)@);
                None
            },
        }
    }

    /// Cancels the queued work of a call before it starts. Says whether there
    /// was any, and what to report of it.
    pub fn cancel_queued_call(&mut self, call_id: &String) -> (r: (bool, Option<CancelledCall>))
        requires
            old(self).wf(),
        ensures
            final(self).wf(),
            final(self).config == old(self).config,
            match old(self)@.lane_of_call(call_id@) {
                None => !r.0 && r.1 is None && final(self)@ == old(self)@
                    && final(self).queued_bytes == old(self).queued_bytes,
                Some(priority) => {
                    let lane = old(self)@.lane(priority);
                    let p = call_at(lane, call_id@);
                    &&& r.0
                    &&& final(self)@ == old(self)@.with_lane(priority, lane.remove(p))
                    &&& final(self).queued_bytes == less(
                        old(self).queued_bytes,
                        lane[p].meta.queued_bytes,
                    )
                    &&& match opt_view(lane[p].meta.tool_name) {
                        Some(name) => r.1 matches Some(c) && c.call_id@ == call_id@
                            && c.tool_name@ == name,
                        None => r.1 is None,
                    }
                },
            },
    {
        proof {
            lemma_call_at(self.control@, call_id@);
            lemma_call_at(self.user@, call_id@);
            lemma_call_at(self.cheap@, call_id@);
            lemma_call_at(self.bulk@, call_id@);
        }
        match self.remove_call(call_id) {
            None => (false, None),
            Some(item) => {
                match (item.meta.call_id, item.meta.tool_name) {
                    (Some(call_id), Some(tool_name)) => (
                        true,
                        Some(CancelledCall { call_id, tool_name }),
                    ),
                    _ => (true, None),
                }
            },
        }
    }

    /// Drops the queued work of an agent that left; says how much there was.
    pub fn cancel_agent(&mut self, agent_id: &String) -> (removed: usize)
        requires
            old(self).wf(),
        ensures
            final(self).wf(),
            final(self).config == old(self).config,
            final(self)@ == old(self)@.release_agent(agent_id@),
            removed == old(self)@.total() - final(self)@.total(),
            final(self).queued_bytes == less(
                old(self).queued_bytes,
                sat(old(self)@.bytes() - final(self)@.bytes()),
            ),
    {
        let (a, a_bytes) = drop_agent(&mut self.control, agent_id);
        let (b, b_bytes) = drop_agent(&mut self.user, agent_id);
        let (c, c_bytes) = drop_agent(&mut self.cheap, agent_id);
        let (d, d_bytes) = drop_agent(&mut self.bulk, agent_id);
        let removed_bytes: usize = a_bytes.saturating_add(b_bytes).saturating_add(
            c_bytes,
        ).saturating_add(d_bytes);
        self.queued_bytes = self.queued_bytes.saturating_sub(removed_bytes);
        a + b + c + d
    }

    /// Drops all queued work; says how much there was.
    pub fn cancel_all_queued(&mut self) -> (removed: usize)
        requires
            old(self).wf(),
        ensures
            final(self).wf(),
            final(self).config == old(self).config,
            final(self)@ == Lanes::<T>::empty(),
            removed == old(self)@.total(),
            final(self).queued_bytes == 0,
    {
        let removed = self.total_len();
        self.control.clear();
        self.user.clear();
        self.cheap.clear();
        self.bulk.clear();
        self.queued_bytes = 0;
        assert(self@ =~= Lanes::<T>::empty());
        removed
    }
}

/// A worker for control work is never kept from it by work of other lanes, and
/// takes no other; only a general worker takes bulk work.
pub proof fn law_control_work_is_never_starved<T>(lanes: Lanes<T>, kind: WorkerKind)
    ensures
        lanes.control.len() > 0 ==> lanes.next_lane(kind) == Some(WorkPriority::Control),
        kind == WorkerKind::Control ==> lanes.next_lane(kind) is None || lanes.next_lane(kind)
            == Some(WorkPriority::Control),
        lanes.next_lane(kind) == Some(WorkPriority::Bulk) ==> kind == WorkerKind::General,
{
}

/// No work of an agent is left in any lane once the agent is gone, and the work
/// of others is left as it was.
pub proof fn law_cancelled_agent_has_no_work<T>(
    lanes: Lanes<T>,
    agent_id: Seq<char>,
    priority: WorkPriority,
)
    ensures
        forall|i: int|
            0 <= i < lanes.release_agent(agent_id).lane(priority).len() ==> !of_agent(
                #[trigger] lanes.release_agent(agent_id).lane(priority)[i],
                agent_id,
            ),
        forall|i: int|
            0 <= i < lanes.lane(priority).len() && !of_agent(
                #[trigger] lanes.lane(priority)[i],
                agent_id,
            ) ==> lanes.release_agent(agent_id).lane(priority).contains(lanes.lane(priority)[i]),
{
    lemma_keep(lanes.lane(priority), |item: WorkItem<T>| !of_agent(item, agent_id));
}

/// Work that was queued behind an empty lane is the next of that lane: a lane
/// hands work out in the order in which it came.
pub proof fn law_lanes_are_fair<T>(lanes: Lanes<T>, priority: WorkPriority, item: WorkItem<T>)
    ensures
        ({
            let after = lanes.with_lane(priority, lanes.lane(priority).push(item));
            &&& lanes.lane(priority).len() == 0 ==> after.lane(priority)[0] == item
            &&& lanes.lane(priority).len() > 0 ==> after.lane(priority)[0] == lanes.lane(
                priority,
            )[0]
        }),
{
}

} // verus!
