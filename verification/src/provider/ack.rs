//! Acknowledgement of logged events: cumulative, and in order.

use vstd::prelude::*;

verus! {

/// The events that are being handled, those that are done, and how far they are
/// acknowledged.
#[derive(Debug)]
pub struct AckTracker {
    pending: Vec<u64>,
    completed: Vec<u64>,
    acked_up_to: Option<u64>,
}

/// What is known of logged events, as mathematics.
pub struct AckView {
    pub pending: Set<u64>,
    pub completed: Set<u64>,
    pub acked_up_to: Option<u64>,
}

impl View for AckTracker {
    type V = AckView;

    closed spec fn view(&self) -> AckView {
        AckView {
            pending: self.pending@.to_set(),
            completed: self.completed@.to_set(),
            acked_up_to: self.acked_up_to,
        }
    }
}

/// Whether a number is over a limit, where there is one.
pub open spec fn is_over(limit: Option<u64>, id: u64) -> bool {
    match limit {
        Some(limit) => limit < id,
        None => true,
    }
}

impl AckView {
    /// Whether an event is done, and every pending one came after it.
    pub open spec fn ackable(self, id: u64) -> bool {
        self.completed.contains(id) && forall|p: u64| #[trigger] self.pending.contains(p) ==> id < p
    }

    /// Whether an event is the last one that is done before any pending one.
    pub open spec fn is_last_ackable(self, id: u64) -> bool {
        self.ackable(id) && forall|c: u64| #[trigger] self.ackable(c) ==> c <= id
    }

    /// The next acknowledgement: of the last event that is done before any
    /// pending one, where that was not acknowledged yet.
    pub open spec fn next(self) -> Option<u64> {
        if exists|id: u64| self.is_last_ackable(id) && is_over(self.acked_up_to, id) {
            Some(choose|id: u64| self.is_last_ackable(id) && is_over(self.acked_up_to, id))
        } else {
            None
        }
    }

    /// The state when an event comes in.
    pub open spec fn registered(self, id: u64) -> AckView {
        AckView { pending: self.pending.insert(id), ..self }
    }

    /// The state when an event is done.
    pub open spec fn with_done(self, id: u64) -> AckView {
        AckView {
            pending: self.pending.remove(id),
            completed: if is_over(self.acked_up_to, id) {
                self.completed.insert(id)
            } else {
                self.completed
            },
            ..self
        }
    }

    /// The state when the next acknowledgement is out.
    pub open spec fn acked(self) -> AckView {
        match self.next() {
            Some(id) => AckView {
                completed: self.completed.filter(|c: u64| id < c),
                acked_up_to: Some(id),
                ..self
            },
            None => self,
        }
    }

    /// Whether nothing that is done was acknowledged.
    pub open spec fn is_sound(self) -> bool {
        forall|c: u64| #[trigger] self.completed.contains(c) ==> is_over(self.acked_up_to, c)
    }
}

/// Whether a list holds a number.
fn holds_id(ids: &Vec<u64>, id: u64) -> (b: bool)
    ensures
        b == ids@.to_set().contains(id),
{
    let mut i: usize = 0;
    while i < ids.len()
        invariant
            i <= ids@.len(),
            forall|j: int| 0 <= j < i ==> ids@[j] != id,
        decreases ids.len() - i,
    {
        if ids[i] == id {
            assert(ids@[i as int] == id);
            return true;
        }
        i += 1;
    }
    false
}

/// Adds a number to a list that does not hold it.
fn add_id(ids: &mut Vec<u64>, id: u64)
    ensures
        final(ids)@.to_set() == old(ids)@.to_set().insert(id),
{
    if holds_id(ids, id) {
        assert(ids@.to_set().insert(id) =~= ids@.to_set());
    } else {
        let ghost before = ids@;
        ids.push(id);
        assert(ids@.to_set() =~= before.to_set().insert(id)) by {
            assert forall|x: u64| before.to_set().insert(id).contains(x) implies
                ids@.to_set().contains(x) by {
                if x == id {
                    assert(ids@[before.len() as int] == x);
                } else {
                    let j = choose|j: int| 0 <= j < before.len() && before[j] == x;
                    assert(ids@[j] == x);
                }
            }
        }
    }
}

/// The numbers of a list that are over a limit.
fn ids_over(ids: &Vec<u64>, limit: u64) -> (kept: Vec<u64>)
    ensures
        kept@.to_set() == ids@.to_set().filter(|c: u64| limit < c),
{
    let mut kept: Vec<u64> = Vec::new();
    let mut i: usize = 0;
    assert(ids@.take(0).to_set().filter(|c: u64| limit < c) =~= kept@.to_set());
    while i < ids.len()
        invariant
            i <= ids@.len(),
            forall|x: u64|
                kept@.to_set().contains(x) <==> limit < x && ids@.take(i as int).contains(x),
        decreases ids.len() - i,
    {
        assert(ids@.take(i + 1) =~= ids@.take(i as int).push(ids@[i as int]));
        if limit < ids[i] {
            add_id(&mut kept, ids[i]);
        }
        i += 1;
        assert forall|x: u64|
            kept@.to_set().contains(x) <==> limit < x && ids@.take(i as int).contains(x) by {
            let last = ids@[i - 1];
            assert(ids@.take(i as int)[i - 1] == last);
            let front = ids@.take(i - 1);
            if front.contains(x) {
                let j = choose|j: int| 0 <= j < front.len() && front[j] == x;
                assert(ids@.take(i as int)[j] == x);
            }
        }
    }
    assert(ids@.take(i as int) =~= ids@);
    assert(kept@.to_set() =~= ids@.to_set().filter(|c: u64| limit < c));
    kept
}

/// Removes a number from a list.
fn remove_id(ids: &Vec<u64>, id: u64) -> (kept: Vec<u64>)
    ensures
        kept@.to_set() == ids@.to_set().remove(id),
{
    let mut kept: Vec<u64> = Vec::new();
    let mut i: usize = 0;
    while i < ids.len()
        invariant
            i <= ids@.len(),
            forall|x: u64|
                kept@.to_set().contains(x) <==> x != id && ids@.take(i as int).contains(x),
        decreases ids.len() - i,
    {
        assert(ids@.take(i + 1) =~= ids@.take(i as int).push(ids@[i as int]));
        if ids[i] != id {
            add_id(&mut kept, ids[i]);
        }
        i += 1;
        assert forall|x: u64|
            kept@.to_set().contains(x) <==> x != id && ids@.take(i as int).contains(x) by {
            assert(ids@.take(i as int)[i - 1] == ids@[i - 1]);
            let front = ids@.take(i - 1);
            if front.contains(x) {
                let j = choose|j: int| 0 <= j < front.len() && front[j] == x;
                assert(ids@.take(i as int)[j] == x);
            }
        }
    }
    assert(ids@.take(i as int) =~= ids@);
    assert(kept@.to_set() =~= ids@.to_set().remove(id));
    kept
}

impl AckTracker {
    /// Nothing was logged yet.
    pub fn new() -> (tracker: AckTracker)
        ensures
            tracker@ == (AckView {
                pending: Set::empty(),
                completed: Set::empty(),
                acked_up_to: None,
            }),
            tracker@.is_sound(),
    {
        let tracker = AckTracker { pending: Vec::new(), completed: Vec::new(), acked_up_to: None };
        assert(tracker@.pending =~= Set::empty());
        assert(tracker@.completed =~= Set::empty());
        tracker
    }

    /// An event comes in.
    pub fn register(&mut self, id: u64)
        ensures
            final(self)@ == old(self)@.registered(id),
            old(self)@.is_sound() ==> final(self)@.is_sound(),
    {
        add_id(&mut self.pending, id);
    }

    /// An event is done.
    pub fn complete(&mut self, id: u64)
        ensures
            final(self)@ == old(self)@.with_done(id),
            old(self)@.is_sound() ==> final(self)@.is_sound(),
    {
        self.pending = remove_id(&self.pending, id);
        let over = match self.acked_up_to {
            Some(acked) => acked < id,
            None => true,
        };
        if over {
            add_id(&mut self.completed, id);
        }
    }

    /// The last event that is done before any pending one.
    fn last_ackable(&self) -> (found: Option<u64>)
        ensures
            match found {
                Some(id) => self@.is_last_ackable(id),
                None => forall|c: u64| !self@.ackable(c),
            },
    {
        let mut best: Option<u64> = None;
        let mut i: usize = 0;
        while i < self.completed.len()
            invariant
                i <= self.completed@.len(),
                match best {
                    Some(id) => self@.ackable(id) && forall|j: int|
                        0 <= j < i && self@.ackable(#[trigger] self.completed@[j])
                            ==> self.completed@[j] <= id,
                    None => forall|j: int|
                        0 <= j < i ==> !self@.ackable(#[trigger] self.completed@[j]),
                },
            decreases self.completed.len() - i,
        {
            let id = self.completed[i];
            assert(self@.completed.contains(id)) by {
                assert(self.completed@[i as int] == id);
            }
            let mut first = true;
            let mut k: usize = 0;
            while k < self.pending.len()
                invariant
                    k <= self.pending@.len(),
                    first ==> forall|j: int| 0 <= j < k ==> id < #[trigger] self.pending@[j],
                    !first ==> exists|j: int|
                        0 <= j < k && #[trigger] self.pending@[j] <= id,
                decreases self.pending.len() - k,
            {
                if self.pending[k] <= id {
                    first = false;
                    assert(self.pending@[k as int] <= id);
                }
                k += 1;
            }
            assert(first == self@.ackable(id)) by {
                if first {
                    assert forall|p: u64| #[trigger] self@.pending.contains(p) implies id < p by {
                        let j = choose|j: int|
                            0 <= j < self.pending@.len() && self.pending@[j] == p;
                        assert(id < self.pending@[j]);
                    }
                } else {
                    let j = choose|j: int|
                        0 <= j < self.pending@.len() && #[trigger] self.pending@[j] <= id;
                    assert(self@.pending.contains(self.pending@[j]));
                }
            }
            let better = match best {
                Some(b) => b < id,
                None => true,
            };
            if first && better {
                best = Some(id);
            }
            i += 1;
        }
        proof {
            assert forall|c: u64| #[trigger] self@.ackable(c) implies best matches Some(id) && c
                <= id by {
                let j = choose|j: int| 0 <= j < self.completed@.len() && self.completed@[j] == c;
                assert(self@.ackable(self.completed@[j]));
            }
        }
        best
    }

    /// The next acknowledgement, where one is due.
    pub fn next_ack(&mut self) -> (ack: Option<u64>)
        ensures
            ack == old(self)@.next(),
            final(self)@ == old(self)@.acked(),
            old(self)@.is_sound() ==> final(self)@.is_sound(),
    {
        let found = self.last_ackable();
        match found {
            Some(id) => {
                let over = match self.acked_up_to {
                    Some(acked) => acked < id,
                    None => true,
                };
                proof {
                    assert forall|other: u64|
                        #[trigger] self@.is_last_ackable(other) implies other == id by {
                        assert(self@.ackable(other) && self@.ackable(id));
                    }
                }
                if over {
                    assert(self@.next() == Some(id));
                    self.completed = ids_over(&self.completed, id);
                    self.acked_up_to = Some(id);
                    Some(id)
                } else {
                    None
                }
            },
            None => None,
        }
    }
}

/// An acknowledgement never passes an event that is still pending: every event
/// up to it that came in is done.
pub proof fn law_ack_waits_for_pending(tracker: AckView, p: u64)
    requires
        tracker.next() is Some,
        tracker.pending.contains(p),
    ensures
        tracker.next()->Some_0 < p,
{
    assert(tracker.ackable(tracker.next()->Some_0));
}

/// Acknowledgements go up: each is over the one before.
pub proof fn law_acks_go_up(tracker: AckView)
    requires
        tracker.next() is Some,
    ensures
        is_over(tracker.acked_up_to, tracker.next()->Some_0),
        tracker.acked().acked_up_to == tracker.next(),
{
}

/// After one acknowledgement no other is due until something more is done.
pub proof fn law_one_ack_is_enough(tracker: AckView)
    ensures
        tracker.acked().next() is None,
{
    let after = tracker.acked();
    if tracker.next() is Some {
        let id = tracker.next()->Some_0;
        if exists|next: u64| after.is_last_ackable(next) && is_over(after.acked_up_to, next) {
            let next = choose|next: u64|
                after.is_last_ackable(next) && is_over(after.acked_up_to, next);
            assert(after.completed.contains(next));
            assert(tracker.completed.contains(next));
            assert forall|p: u64| #[trigger] tracker.pending.contains(p) implies next < p by {
                assert(after.pending.contains(p));
            }
            assert(tracker.is_last_ackable(id));
            assert(tracker.ackable(next));
        }
    }
}

/// Where nothing is pending, all that is done gets acknowledged.
pub proof fn law_all_done_is_acked(tracker: AckView, id: u64)
    requires
        tracker.is_sound(),
        tracker.pending == Set::<u64>::empty(),
        tracker.completed.contains(id),
    ensures
        tracker.next() is Some,
        id <= tracker.next()->Some_0,
    decreases u64::MAX - id,
{
    assert(tracker.ackable(id));
    if exists|c: u64| tracker.ackable(c) && id < c {
        let c = choose|c: u64| tracker.ackable(c) && id < c;
        law_all_done_is_acked(tracker, c);
    } else {
        assert(tracker.is_last_ackable(id)) by {
            assert forall|c: u64| #[trigger] tracker.ackable(c) implies c <= id by {
                if id < c {
                    assert(tracker.ackable(c) && id < c);
                }
            }
        }
        assert(tracker.is_last_ackable(id) && is_over(tracker.acked_up_to, id));
        let next = tracker.next()->Some_0;
        assert(tracker.is_last_ackable(next));
    }
}

} // verus!
