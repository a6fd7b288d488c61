//! Maps and sets keyed by text.

use vstd::prelude::*;

verus! {

/// A map from texts to values. Every key stands in it once.
#[derive(Debug)]
pub struct TextMap<V> {
    pub entries: Vec<(String, V)>,
}

/// The map that a list of entries with different keys makes.
pub open spec fn entries_map<V>(entries: Seq<(String, V)>) -> Map<Seq<char>, V>
    decreases entries.len(),
{
    if entries.len() == 0 {
        Map::empty()
    } else {
        entries_map(entries.drop_last()).insert(entries.last().0@, entries.last().1)
    }
}

/// Whether the entries have different keys.
pub open spec fn keys_differ<V>(entries: Seq<(String, V)>) -> bool {
    forall|i: int, j: int|
        0 <= i < j < entries.len() ==> (#[trigger] entries[i]).0@ != (#[trigger] entries[j]).0@
}

impl<V> View for TextMap<V> {
    type V = Map<Seq<char>, V>;

    open spec fn view(&self) -> Map<Seq<char>, V> {
        entries_map(self.entries@)
    }
}

/// The keys of the map are those of the entries, and each has its entry's
/// value.
pub proof fn lemma_entries_map<V>(entries: Seq<(String, V)>)
    requires
        keys_differ(entries),
    ensures
        forall|i: int|
            0 <= i < entries.len() ==> entries_map(entries).dom().contains(
                (#[trigger] entries[i]).0@,
            ) && entries_map(entries)[entries[i].0@] == entries[i].1,
        forall|k: Seq<char>| #[trigger]
            entries_map(entries).dom().contains(k) ==> exists|i: int|
                0 <= i < entries.len() && (#[trigger] entries[i]).0@ == k,
        entries_map(entries).dom().finite(),
        entries_map(entries).len() == entries.len(),
    decreases entries.len(),
{
    if entries.len() > 0 {
        let before = entries.drop_last();
        lemma_entries_map(before);
        let last = entries.last();
        let map = entries_map(entries);
        assert forall|i: int| 0 <= i < entries.len() implies map.dom().contains(
            (#[trigger] entries[i]).0@,
        ) && map[entries[i].0@] == entries[i].1 by {
            if i < before.len() {
                assert(before[i] == entries[i]);
                assert(entries[i].0@ != entries[entries.len() - 1].0@);
            }
        }
        assert forall|k: Seq<char>| #[trigger] map.dom().contains(k) implies exists|i: int|
            0 <= i < entries.len() && (#[trigger] entries[i]).0@ == k by {
            if k == last.0@ {
                assert(entries[entries.len() - 1].0@ == k);
            } else {
                assert(entries_map(before).dom().contains(k));
                let i = choose|i: int| 0 <= i < before.len() && (#[trigger] before[i]).0@ == k;
                assert(entries[i].0@ == k);
            }
        }
        if entries_map(before).dom().contains(last.0@) {
            let i = choose|i: int| 0 <= i < before.len() && (#[trigger] before[i]).0@ == last.0@;
            assert(entries[i] == before[i]);
            assert(entries[i].0@ != entries[entries.len() - 1].0@);
        }
    }
}

impl<V> TextMap<V> {
    /// Every key stands in the map once.
    pub open spec fn wf(&self) -> bool {
        keys_differ(self.entries@)
    }

    /// An empty map.
    pub fn new() -> (map: Self)
        ensures
            map.wf(),
            map@ == Map::<Seq<char>, V>::empty(),
    {
        TextMap { entries: Vec::new() }
    }

    /// Where a key stands; the number of entries if nowhere.
    fn find(&self, key: &String) -> (at: usize)
        requires
            self.wf(),
        ensures
            at <= self.entries@.len(),
            at < self.entries@.len() ==> self.entries@[at as int].0@ == key@,
            at < self.entries@.len() <==> self@.dom().contains(key@),
            at < self.entries@.len() ==> self@[key@] == self.entries@[at as int].1,
    {
        proof {
            lemma_entries_map(self.entries@);
        }
        let mut i: usize = 0;
        while i < self.entries.len()
            invariant
                i <= self.entries@.len(),
                forall|j: int| 0 <= j < i ==> (#[trigger] self.entries@[j]).0@ != key@,
                forall|j: int|
                    0 <= j < self.entries@.len() ==> self@.dom().contains(
                        (#[trigger] self.entries@[j]).0@,
                    ) && self@[self.entries@[j].0@] == self.entries@[j].1,
            decreases self.entries.len() - i,
        {
            if self.entries[i].0 == *key {
                return i;
            }
            i += 1;
        }
        i
    }

    /// The value of a key.
    pub fn get(&self, key: &String) -> (value: Option<&V>)
        requires
            self.wf(),
        ensures
            match value {
                Some(v) => self@.dom().contains(key@) && self@[key@] == *v,
                None => !self@.dom().contains(key@),
            },
    {
        let at = self.find(key);
        if at < self.entries.len() {
            Some(&self.entries[at].1)
        } else {
            None
        }
    }

    /// Whether a key is in the map.
    pub fn contains_key(&self, key: &String) -> (b: bool)
        requires
            self.wf(),
        ensures
            b == self@.dom().contains(key@),
    {
        self.find(key) < self.entries.len()
    }

    /// Whether the map is empty.
    pub fn is_empty(&self) -> (b: bool)
        requires
            self.wf(),
        ensures
            b == (self@ == Map::<Seq<char>, V>::empty()),
            b == (self@.dom() == Set::<Seq<char>>::empty()),
    {
        proof {
            lemma_entries_map(self.entries@);
            if self.entries@.len() > 0 {
                assert(self@.dom().contains(self.entries@[0].0@));
            } else {
                assert(self@ =~= Map::<Seq<char>, V>::empty());
                assert(self@.dom() =~= Set::<Seq<char>>::empty());
            }
        }
        self.entries.is_empty()
    }

    /// Removes a key and returns its value.
    pub fn remove(&mut self, key: &String) -> (value: Option<V>)
        requires
            old(self).wf(),
        ensures
            final(self).wf(),
            final(self)@ == old(self)@.remove(key@),
            match value {
                Some(v) => old(self)@.dom().contains(key@) && old(self)@[key@] == v,
                None => !old(self)@.dom().contains(key@),
            },
    {
        let at = self.find(key);
        if at < self.entries.len() {
            let ghost before = self.entries@;
            let (_, value) = self.entries.remove(at);
            proof {
                let after = self.entries@;
                assert(after =~= before.remove(at as int));
                assert forall|i: int, j: int| 0 <= i < j < after.len() implies (
                #[trigger] after[i]).0@ != (#[trigger] after[j]).0@ by {
                    let a = if i < at {
                        i
                    } else {
                        i + 1
                    };
                    let b = if j < at {
                        j
                    } else {
                        j + 1
                    };
                    assert(after[i] == before[a] && after[j] == before[b]);
                }
                lemma_removed(before, at as int);
            }
            Some(value)
        } else {
            assert(self@.remove(key@) =~= self@);
            None
        }
    }

    /// Sets the value of a key; returns the value that it had.
    pub fn insert(&mut self, key: String, value: V) -> (before: Option<V>)
        requires
            old(self).wf(),
        ensures
            final(self).wf(),
            final(self)@ == old(self)@.insert(key@, value),
            match before {
                Some(v) => old(self)@.dom().contains(key@) && old(self)@[key@] == v,
                None => !old(self)@.dom().contains(key@),
            },
    {
        let before = self.remove(&key);
        proof {
            lemma_entries_map(self.entries@);
        }
        let ghost left = self.entries@;
        self.entries.push((key, value));
        proof {
            let after = self.entries@;
            assert(after.drop_last() =~= left);
            assert forall|i: int, j: int| 0 <= i < j < after.len() implies (#[trigger] after[i]).0@
                != (#[trigger] after[j]).0@ by {
                assert(after[i] == left[i]);
                if j < left.len() {
                    assert(after[j] == left[j]);
                }
            }
            assert(self@ =~= old(self)@.insert(key@, value));
        }
        before
    }
}

/// The map without one of its entries.
proof fn lemma_removed<V>(entries: Seq<(String, V)>, at: int)
    requires
        keys_differ(entries),
        0 <= at < entries.len(),
    ensures
        entries_map(entries.remove(at)) == entries_map(entries).remove(entries[at].0@),
    decreases entries.len(),
{
    let key = entries[at].0@;
    lemma_entries_map(entries);
    if at == entries.len() - 1 {
        assert(entries.remove(at) =~= entries.drop_last());
        lemma_entries_map(entries.drop_last());
        if entries_map(entries.drop_last()).dom().contains(key) {
            let i = choose|i: int|
                0 <= i < entries.drop_last().len() && (#[trigger] entries.drop_last()[i]).0@ == key;
            assert(entries[i] == entries.drop_last()[i]);
        }
        assert(entries_map(entries.remove(at)) =~= entries_map(entries).remove(key));
    } else {
        let before = entries.drop_last();
        assert(keys_differ(before)) by {
            assert forall|i: int, j: int| 0 <= i < j < before.len() implies (
            #[trigger] before[i]).0@ != (#[trigger] before[j]).0@ by {
                assert(before[i] == entries[i] && before[j] == entries[j]);
            }
        }
        lemma_removed(before, at);
        assert(entries.remove(at).drop_last() =~= before.remove(at));
        assert(entries.remove(at).last() == entries.last());
        assert(entries[at].0@ != entries[entries.len() - 1].0@);
        assert(entries_map(entries.remove(at)) =~= entries_map(entries).remove(key));
    }
}

/// The texts that a map holds, as mathematics.
pub open spec fn text_values(map: Map<Seq<char>, String>) -> Map<Seq<char>, Seq<char>> {
    map.map_values(|s: String| s@)
}

/// The map without the keys that have a value.
pub open spec fn without_value(map: Map<Seq<char>, Seq<char>>, value: Seq<char>) -> Map<
    Seq<char>,
    Seq<char>,
> {
    Map::new(
        |k: Seq<char>| map.dom().contains(k) && map[k] != value,
        |k: Seq<char>| map[k],
    )
}

impl TextMap<String> {
    /// Whether some key has a value.
    pub fn has_value(&self, value: &String) -> (b: bool)
        requires
            self.wf(),
        ensures
            b == exists|k: Seq<char>| #[trigger]
                text_values(self@).dom().contains(k) && text_values(self@)[k] == value@,
    {
        proof {
            lemma_entries_map(self.entries@);
        }
        let mut i: usize = 0;
        while i < self.entries.len()
            invariant
                i <= self.entries@.len(),
                forall|j: int| 0 <= j < i ==> (#[trigger] self.entries@[j]).1@ != value@,
                forall|j: int|
                    0 <= j < self.entries@.len() ==> self@.dom().contains(
                        (#[trigger] self.entries@[j]).0@,
                    ) && self@[self.entries@[j].0@] == self.entries@[j].1,
            decreases self.entries.len() - i,
        {
            if self.entries[i].1 == *value {
                assert(text_values(self@).dom().contains(self.entries@[i as int].0@));
                return true;
            }
            i += 1;
        }
        proof {
            if exists|k: Seq<char>| #[trigger]
                text_values(self@).dom().contains(k) && text_values(self@)[k] == value@ {
                let k = choose|k: Seq<char>| #[trigger]
                    text_values(self@).dom().contains(k) && text_values(self@)[k] == value@;
                assert(self@.dom().contains(k));
                let j = choose|j: int|
                    0 <= j < self.entries@.len() && (#[trigger] self.entries@[j]).0@ == k;
                assert(self.entries@[j].1@ != value@);
            }
        }
        false
    }

    /// Removes every key that has a value.
    pub fn remove_value(&mut self, value: &String)
        requires
            old(self).wf(),
        ensures
            final(self).wf(),
            text_values(final(self)@) == without_value(text_values(old(self)@), value@),
    {
        let mut kept: TextMap<String> = TextMap::new();
        let mut entries: Vec<(String, String)> = Vec::new();
        core::mem::swap(&mut entries, &mut self.entries);
        let ghost all = entries@;
        assert(all == old(self).entries@);
        proof {
            lemma_entries_map(all);
        }
        assert(text_values(kept@) =~= without_value(
            text_values(entries_map(all.take(0))),
            value@,
        ));
        for e in iter: entries
            invariant
                iter.seq() == all,
                keys_differ(all),
                kept.wf(),
                text_values(kept@) == without_value(
                    text_values(entries_map(all.take(iter.index()))),
                    value@,
                ),
        {
            let ghost here = all.take(iter.index() + 1);
            let ghost before = all.take(iter.index());
            assert(here.drop_last() =~= before);
            assert(here.last() == e);
            proof {
                lemma_entries_map(before);
                if entries_map(before).dom().contains(e.0@) {
                    let i = choose|i: int|
                        0 <= i < before.len() && (#[trigger] before[i]).0@ == e.0@;
                    assert(all[i].0@ != all[iter.index()].0@);
                }
            }
            let ghost m0 = text_values(entries_map(before));
            let ghost m1 = text_values(entries_map(here));
            let ghost kept0 = text_values(kept@);
            assert(m1 =~= m0.insert(e.0@, e.1@));
            if e.1 != *value {
                assert(without_value(m1, value@) =~= without_value(m0, value@).insert(e.0@, e.1@));
                let _ = kept.insert(e.0, e.1);
                assert(text_values(kept@) =~= kept0.insert(e.0@, e.1@));
            } else {
                assert(!m0.dom().contains(e.0@));
                assert(without_value(m1, value@) =~= without_value(m0, value@));
            }
            assert(text_values(kept@) =~= without_value(text_values(entries_map(here)), value@));
        }
        assert(all.take(all.len() as int) =~= all);
        *self = kept;
    }
}

} // verus!
