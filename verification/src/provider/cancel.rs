//! Which prompts are cancelled, and what that does to one that waits.

use vstd::prelude::*;

use crate::text::{same_text, views};

verus! {

/// The prompts that are cancelled and not told so yet.
#[derive(Debug)]
pub struct CancellationState {
    canceled: Vec<String>,
    generation: u64,
    shut_down: bool,
}

/// The prompts that are cancelled, as mathematics.
pub struct CancelView {
    pub canceled: Set<Seq<char>>,
    /// How often all waits were cut short.
    pub generation: u64,
    pub shut_down: bool,
}

impl View for CancellationState {
    type V = CancelView;

    closed spec fn view(&self) -> CancelView {
        CancelView {
            canceled: views(self.canceled@).to_set(),
            generation: self.generation,
            shut_down: self.shut_down,
        }
    }
}

impl CancelView {
    /// Nothing is cancelled.
    pub open spec fn fresh() -> CancelView {
        CancelView { canceled: Set::empty(), generation: 0, shut_down: false }
    }

    /// The state when a prompt is cancelled.
    pub open spec fn with_canceled(self, id: Seq<char>) -> CancelView {
        CancelView { canceled: self.canceled.insert(id), ..self }
    }

    /// The state when all waits are cut short.
    pub open spec fn with_waits_cut(self) -> CancelView {
        CancelView {
            generation: if self.generation < u64::MAX {
                (self.generation + 1) as u64
            } else {
                self.generation
            },
            ..self
        }
    }

    /// The state when everything stops.
    pub open spec fn stopped(self) -> CancelView {
        CancelView { shut_down: true, ..self }
    }

    /// Whether a prompt is cancelled.
    pub open spec fn is_canceled(self, id: Seq<char>) -> bool {
        self.canceled.contains(id) || self.shut_down
    }

    /// The state once a prompt was told that it is cancelled.
    pub open spec fn taken(self, id: Seq<char>) -> CancelView {
        CancelView { canceled: self.canceled.remove(id), ..self }
    }

    /// Whether a prompt that waits since a generation is to stop waiting.
    pub open spec fn aborts(self, id: Seq<char>, since: u64) -> bool {
        self.is_canceled(id) || self.generation != since
    }
}

/// What comes of a wait.
#[derive(Clone, Copy, Debug, PartialEq, Eq, Structural)]
pub enum SleepOutcome {
    Elapsed,
    Aborted,
}

/// What a wait is to do next.
#[derive(Clone, Copy, Debug, PartialEq, Eq, Structural)]
pub enum SleepStep {
    End(SleepOutcome),
    /// To wait on, for so many nanoseconds at most.
    WaitFor(u128),
}

/// What a wait until a deadline is to do next.
pub open spec fn sleep_step_of(state: CancelView, id: Seq<char>, since: u64, deadline: u128, now: u128) -> SleepStep {
    if state.aborts(id, since) {
        SleepStep::End(SleepOutcome::Aborted)
    } else if deadline < now {
        SleepStep::End(SleepOutcome::Elapsed)
    } else {
        SleepStep::WaitFor((deadline - now) as u128)
    }
}

impl CancellationState {
    /// Nothing is cancelled.
    pub fn new() -> (state: CancellationState)
        ensures
            state@ == CancelView::fresh(),
    {
        let state = CancellationState { canceled: Vec::new(), generation: 0, shut_down: false };
        assert(state@.canceled =~= Set::empty());
        state
    }

    /// How often all waits were cut short.
    pub fn generation(&self) -> (n: u64)
        ensures
            n == self@.generation,
    {
        self.generation
    }

    /// Cancels a prompt.
    pub fn cancel(&mut self, id: &str)
        ensures
            final(self)@ == old(self)@.with_canceled(id@),
    {
        let ghost before = views(self.canceled@);
        if self.holds(id) {
            assert(before.to_set().insert(id@) =~= before.to_set());
        } else {
            let text = id.to_owned();
            self.canceled.push(text);
            let ghost after = views(self.canceled@);
            assert(after =~= before.push(id@));
            assert(after.to_set() =~= before.to_set().insert(id@)) by {
                assert forall|x: Seq<char>| before.to_set().insert(id@).contains(x) implies
                    after.to_set().contains(x) by {
                    if x == id@ {
                        assert(after[before.len() as int] == x);
                    } else {
                        let j = choose|j: int| 0 <= j < before.len() && before[j] == x;
                        assert(after[j] == x);
                    }
                }
            }
        }
    }

    /// Cuts all waits short.
    pub fn cancel_retry_sleeps(&mut self)
        ensures
            final(self)@ == old(self)@.with_waits_cut(),
    {
        if self.generation < 18446744073709551615u64 {
            self.generation = self.generation + 1;
        }
    }

    /// Stops everything.
    pub fn shutdown(&mut self)
        ensures
            final(self)@ == old(self)@.stopped(),
    {
        self.shut_down = true;
    }

    /// Whether a prompt is among the cancelled ones.
    fn holds(&self, id: &str) -> (b: bool)
        ensures
            b == self@.canceled.contains(id@),
    {
        let ghost all = views(self.canceled@);
        let mut i: usize = 0;
        while i < self.canceled.len()
            invariant
                i <= self.canceled@.len(),
                all == views(self.canceled@),
                forall|j: int| 0 <= j < i ==> all[j] != id@,
            decreases self.canceled.len() - i,
        {
            if same_text(self.canceled[i].as_str(), id) {
                assert(all[i as int] == id@);
                return true;
            }
            i += 1;
        }
        false
    }

    /// Whether a prompt is cancelled.
    pub fn is_canceled(&self, id: &str) -> (b: bool)
        ensures
            b == self@.is_canceled(id@),
    {
        self.shut_down || self.holds(id)
    }

    /// Whether a prompt is cancelled. It is told so once.
    pub fn take_canceled(&mut self, id: &str) -> (b: bool)
        ensures
            b == old(self)@.is_canceled(id@),
            final(self)@ == old(self)@.taken(id@),
    {
        let found = self.holds(id);
        let ghost all = views(self.canceled@);
        let mut kept: Vec<String> = Vec::new();
        let mut i: usize = 0;
        while i < self.canceled.len()
            invariant
                i <= self.canceled@.len(),
                *self == *old(self),
                all == views(self.canceled@),
                forall|x: Seq<char>|
                    #[trigger] views(kept@).contains(x) <==> x != id@ && all.take(
                        i as int,
                    ).contains(x),
            decreases self.canceled.len() - i,
        {
            let ghost before = views(kept@);
            let ghost last = self.canceled@[i as int]@;
            assert(all[i as int] == last);
            if !same_text(self.canceled[i].as_str(), id) {
                kept.push(self.canceled[i].clone());
                assert(views(kept@) =~= before.push(last));
            }
            assert forall|x: Seq<char>| #[trigger] views(kept@).contains(x) <==> x != id@
                && all.take(i + 1).contains(x) by {
                lemma_push_contains(all.take(i as int), last, x);
                assert(all.take(i + 1) =~= all.take(i as int).push(last));
                lemma_push_contains(before, last, x);
                assert(before.contains(x) <==> x != id@ && all.take(i as int).contains(x));
            }
            i += 1;
        }
        assert(all.take(i as int) =~= all);
        self.canceled = kept;
        assert(self@.canceled =~= old(self)@.canceled.remove(id@)) by {
            assert forall|x: Seq<char>| self@.canceled.contains(x) <==> old(
                self,
            )@.canceled.remove(id@).contains(x) by {
                assert(views(kept@).contains(x) <==> x != id@ && all.contains(x));
            }
        }
        found || self.shut_down
    }

    /// What a wait until a deadline is to do next, for a prompt that waits since
    /// a generation.
    pub fn sleep_step(&self, id: &str, since: u64, deadline: u128, now: u128) -> (step: SleepStep)
        ensures
            step == sleep_step_of(self@, id@, since, deadline, now),
    {
        if self.is_canceled(id) || self.generation != since {
            SleepStep::End(SleepOutcome::Aborted)
        } else if deadline < now {
            SleepStep::End(SleepOutcome::Elapsed)
        } else {
            SleepStep::WaitFor(deadline - now)
        }
    }
}

/// A list with one more item holds it, and what it held.
proof fn lemma_push_contains<A>(list: Seq<A>, last: A, x: A)
    ensures
        list.push(last).contains(x) <==> list.contains(x) || x == last,
{
    if list.contains(x) {
        let j = choose|j: int| 0 <= j < list.len() && list[j] == x;
        assert(list.push(last)[j] == x);
    }
    assert(list.push(last)[list.len() as int] == last);
}

/// To cancel a prompt cancels it and no other.
pub proof fn law_cancel_is_targeted(state: CancelView, id: Seq<char>, other: Seq<char>)
    requires
        other != id,
    ensures
        state.with_canceled(id).is_canceled(id),
        state.with_canceled(id).is_canceled(other) == state.is_canceled(other),
{
}

/// A prompt is told once that it is cancelled, unless everything stops.
pub proof fn law_cancel_is_told_once(state: CancelView, id: Seq<char>)
    requires
        !state.shut_down,
    ensures
        !state.taken(id).is_canceled(id),
{
}

/// A wait is not cut short by what happened to others.
pub proof fn law_wait_is_not_disturbed(state: CancelView, id: Seq<char>, other: Seq<char>, since: u64)
    requires
        other != id,
    ensures
        state.with_canceled(other).aborts(id, since) == state.aborts(id, since),
        state.taken(other).aborts(id, since) == state.aborts(id, since),
{
}

} // verus!
