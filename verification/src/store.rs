//! The counter store: an ordered, keyed collection of counter records whose
//! every mutation goes through a reactive collection signal.
//!
//! Invariants: no two records share an id; every id is below the id seed, so
//! ids are strictly increasing over the page's lifetime and never reused;
//! every record still in the collection owns a live value signal; and the
//! collection signal always reports the current number of records. Removal
//! is a single atomic sequence (locate, dispose, drop from the collection),
//! and operations on an id that is no longer present are benign no-ops.

use vstd::prelude::*;
use crate::entity::CounterData;
use crate::signal::Signal;

verus! {

/// Ordered collection of counter records plus the page's seed counters.
/// Insertion order is the render order.
pub struct CounterStore {
    counters: Vec<CounterData>,
    next_id: u32,
    next_value: i32,
    collection: Signal<usize>,
}

impl CounterStore {
    /// The ordered sequence of records, oldest first.
    pub closed spec fn entities(self) -> Seq<CounterData> {
        self.counters@
    }

    /// The id the next created record will get.
    pub closed spec fn spec_next_id(self) -> u32 {
        self.next_id
    }

    /// The initial value the next created record will get.
    pub closed spec fn spec_next_value(self) -> i32 {
        self.next_value
    }

    /// The collection-level signal; its value is the record count and its
    /// dependents are notified on every add or remove.
    pub closed spec fn collection_signal(self) -> Signal<usize> {
        self.collection
    }

    /// No two records share an id.
    pub open spec fn ids_unique(self) -> bool {
        forall|i: int, j: int|
            0 <= i < self.entities().len() && 0 <= j < self.entities().len() && i != j
                ==> self.entities()[i].id != self.entities()[j].id
    }

    /// Some record carries the id.
    pub open spec fn contains_id(self, id: u32) -> bool {
        exists|i: int| 0 <= i < self.entities().len() && self.entities()[i].id == id
    }

    /// Well-formedness: unique ids, all below the id seed, live value
    /// signals, and a live collection signal reporting the record count.
    pub open spec fn wf(self) -> bool {
        &&& self.ids_unique()
        &&& forall|i: int|
            0 <= i < self.entities().len()
                ==> (#[trigger] self.entities()[i]).id < self.spec_next_id()
        &&& forall|i: int|
            0 <= i < self.entities().len() ==> (#[trigger] self.entities()[i]).value.is_live()
        &&& self.collection_signal().is_live()
        &&& self.collection_signal().spec_value() == self.entities().len()
    }

    /// Creates an empty store with both seeds at zero and a fresh collection
    /// signal with no dependents.
    pub fn new() -> (s: CounterStore)
        ensures
            s.wf(),
            s.entities().len() == 0,
            s.spec_next_id() == 0,
            s.spec_next_value() == 0,
            s.collection_signal().subs() == Seq::<u64>::empty(),
    {
        CounterStore {
            counters: Vec::new(),
            next_id: 0,
            next_value: 0,
            collection: Signal::new(0),
        }
    }

    /// The id the next created record will get.
    pub fn next_id(&self) -> (r: u32)
        ensures
            r == self.spec_next_id(),
    {
        self.next_id
    }

    /// The initial value the next created record will get.
    pub fn next_value(&self) -> (r: i32)
        ensures
            r == self.spec_next_value(),
    {
        self.next_value
    }

    /// Read access to the ordered records (the render order).
    pub fn counters(&self) -> (r: &Vec<CounterData>)
        ensures
            r@ == self.entities(),
    {
        &self.counters
    }

    /// The index of the record carrying `id`, if present.
    fn find_index(&self, id: u32) -> (r: Option<usize>)
        ensures
            match r {
                Some(i) => i < self.entities().len() && self.entities()[i as int].id == id,
                None => !self.contains_id(id),
            },
    {
        let mut i: usize = 0;
        while i < self.counters.len()
            invariant
                i <= self.counters@.len(),
                forall|j: int| 0 <= j < i ==> self.counters@[j].id != id,
            decreases self.counters@.len() - i,
        {
            if self.counters[i].id == id {
                return Some(i);
            }
            i = i + 1;
        }
        None
    }

    /// Writes the current record count to the collection signal, notifying
    /// its dependents.
    fn notify_collection(&mut self, count: usize) -> (notified: Vec<u64>)
        requires
            old(self).collection_signal().is_live(),
        ensures
            final(self).entities() == old(self).entities(),
            final(self).spec_next_id() == old(self).spec_next_id(),
            final(self).spec_next_value() == old(self).spec_next_value(),
            final(self).collection_signal().is_live(),
            final(self).collection_signal().spec_value() == count,
            final(self).collection_signal().subs() == old(self).collection_signal().subs(),
            notified@ == old(self).collection_signal().subs(),
    {
        match self.collection.write(count) {
            Ok(notified) => notified,
            Err(_) => {
                proof {
                    assert(false);
                }
                Vec::new()
            },
        }
    }

    /// Creates one record from the seeds and appends it after the last
    /// current record, leaving every existing record untouched, then fires
    /// one collection-level notification.
    pub fn add_counter(&mut self) -> (notified: Vec<u64>)
        requires
            old(self).wf(),
            old(self).spec_next_id() < u32::MAX,
            old(self).spec_next_value() <= i32::MAX - 10,
        ensures
            final(self).wf(),
            final(self).entities().len() == old(self).entities().len() + 1,
            forall|i: int|
                0 <= i < old(self).entities().len()
                    ==> final(self).entities()[i] == old(self).entities()[i],
            final(self).entities()[old(self).entities().len() as int].id == old(self).spec_next_id(),
            final(self).entities()[old(self).entities().len() as int].value.is_live(),
            final(self).entities()[old(self).entities().len() as int].value.spec_value() == old(self).spec_next_value(),
            final(self).entities()[old(self).entities().len() as int].value.subs()
                == Seq::<u64>::empty(),
            final(self).spec_next_id() == old(self).spec_next_id() + 1,
            final(self).spec_next_value() == old(self).spec_next_value() + 10,
            final(self).collection_signal().subs() == old(self).collection_signal().subs(),
            notified@ == old(self).collection_signal().subs(),
    {
        let mut id = self.next_id;
        let mut value = self.next_value;
        let ent = CounterData::new(&mut id, &mut value);
        self.next_id = id;
        self.next_value = value;
        self.counters.push(ent);
        let count = self.counters.len();
        self.notify_collection(count)
    }

    /// Removes the record carrying `id`, if present: its value signal is
    /// disposed before the record leaves the collection, the relative order
    /// of every other record is kept, and one collection-level notification
    /// fires either way. The disposed record is handed back so the caller
    /// can observe that its signal is dead; an absent id is a benign no-op
    /// for the collection.
    pub fn remove_counter(&mut self, id: u32) -> (r: (Option<CounterData>, Vec<u64>))
        requires
            old(self).wf(),
        ensures
            final(self).wf(),
            final(self).spec_next_id() == old(self).spec_next_id(),
            final(self).spec_next_value() == old(self).spec_next_value(),
            final(self).collection_signal().subs() == old(self).collection_signal().subs(),
            r.1@ == old(self).collection_signal().subs(),
            match r.0 {
                Some(removed) => {
                    &&& old(self).contains_id(id)
                    &&& removed.id == id
                    &&& !removed.value.is_live()
                    &&& removed.value.subs() == Seq::<u64>::empty()
                    &&& exists|k: int|
                        0 <= k < old(self).entities().len()
                            && (#[trigger] old(self).entities()[k]).id == id
                            && final(self).entities() == old(self).entities().remove(k)
                    &&& !final(self).contains_id(id)
                    &&& final(self).entities().len() == old(self).entities().len() - 1
                },
                None => {
                    &&& !old(self).contains_id(id)
                    &&& final(self).entities() == old(self).entities()
                },
            },
    {
        match self.find_index(id) {
            Some(i) => {
                let mut removed = self.counters.remove(i);
                removed.value.dispose();
                let count = self.counters.len();
                let notified = self.notify_collection(count);
                proof {
                    let oldseq = old(self).entities();
                    let newseq = self.entities();
                    assert(0 <= i < oldseq.len() && oldseq[i as int].id == id && newseq
                        == oldseq.remove(i as int));
                    assert forall|m: int| 0 <= m < newseq.len() implies (#[trigger] newseq[m]).id
                        != id by {
                        if m < i {
                            assert(newseq[m] == oldseq[m]);
                        } else {
                            assert(newseq[m] == oldseq[m + 1]);
                        }
                    }
                }
                (Some(removed), notified)
            },
            None => {
                let count = self.counters.len();
                let notified = self.notify_collection(count);
                (None, notified)
            },
        }
    }

    /// The current value of the record carrying `id`, if present.
    pub fn get_value(&self, id: u32) -> (r: Option<i32>)
        requires
            self.wf(),
        ensures
            match r {
                Some(v) => {
                    &&& self.contains_id(id)
                    &&& forall|j: int|
                        0 <= j < self.entities().len() && (#[trigger] self.entities()[j]).id == id
                            ==> v == self.entities()[j].value.spec_value()
                },
                None => !self.contains_id(id),
            },
    {
        match self.find_index(id) {
            Some(i) => {
                match self.counters[i].value.get() {
                    Ok(v) => Some(v),
                    Err(_) => {
                        proof {
                            assert(false);
                        }
                        None
                    },
                }
            },
            None => None,
        }
    }

    /// Applies `value + 10` through the targeted record's own value signal.
    /// Only that signal fires: the collection signal, every other record and
    /// the order are untouched. An absent id is a benign no-op.
    pub fn increase(&mut self, id: u32) -> (notified: Vec<u64>)
        requires
            old(self).wf(),
            forall|j: int|
                0 <= j < old(self).entities().len() && (#[trigger] old(self).entities()[j]).id
                    == id ==> old(self).entities()[j].value.spec_value() <= i32::MAX - 10,
        ensures
            final(self).wf(),
            final(self).entities().len() == old(self).entities().len(),
            final(self).spec_next_id() == old(self).spec_next_id(),
            final(self).spec_next_value() == old(self).spec_next_value(),
            final(self).collection_signal() == old(self).collection_signal(),
            forall|j: int|
                0 <= j < old(self).entities().len() && (#[trigger] old(self).entities()[j]).id
                    != id ==> final(self).entities()[j] == old(self).entities()[j],
            forall|j: int|
                0 <= j < old(self).entities().len() && (#[trigger] old(self).entities()[j]).id
                    == id ==> {
                    &&& final(self).entities()[j].id == id
                    &&& final(self).entities()[j].value.is_live()
                    &&& final(self).entities()[j].value.spec_value() == old(self).entities()[j].value.spec_value() + 10
                    &&& final(self).entities()[j].value.subs() == old(self).entities()[j].value.subs()
                    &&& notified@ == old(self).entities()[j].value.subs()
                },
            !old(self).contains_id(id) ==> *final(self) == *old(self) && notified@
                == Seq::<u64>::empty(),
    {
        match self.find_index(id) {
            Some(i) => {
                let mut ent = self.counters.remove(i);
                let cur = match ent.value.get() {
                    Ok(v) => v,
                    Err(_) => {
                        proof {
                            assert(false);
                        }
                        0
                    },
                };
                let notified = match ent.value.write(cur + 10) {
                    Ok(v) => v,
                    Err(_) => {
                        proof {
                            assert(false);
                        }
                        Vec::new()
                    },
                };
                self.counters.insert(i, ent);
                proof {
                    assert(self.entities() =~= old(self).entities().update(i as int, ent));
                }
                notified
            },
            None => Vec::new(),
        }
    }

    /// Applies `value - 10` through the targeted record's own value signal.
    /// Only that signal fires: the collection signal, every other record and
    /// the order are untouched. An absent id is a benign no-op.
    pub fn decrease(&mut self, id: u32) -> (notified: Vec<u64>)
        requires
            old(self).wf(),
            forall|j: int|
                0 <= j < old(self).entities().len() && (#[trigger] old(self).entities()[j]).id
                    == id ==> old(self).entities()[j].value.spec_value() >= i32::MIN + 10,
        ensures
            final(self).wf(),
            final(self).entities().len() == old(self).entities().len(),
            final(self).spec_next_id() == old(self).spec_next_id(),
            final(self).spec_next_value() == old(self).spec_next_value(),
            final(self).collection_signal() == old(self).collection_signal(),
            forall|j: int|
                0 <= j < old(self).entities().len() && (#[trigger] old(self).entities()[j]).id
                    != id ==> final(self).entities()[j] == old(self).entities()[j],
            forall|j: int|
                0 <= j < old(self).entities().len() && (#[trigger] old(self).entities()[j]).id
                    == id ==> {
                    &&& final(self).entities()[j].id == id
                    &&& final(self).entities()[j].value.is_live()
                    &&& final(self).entities()[j].value.spec_value() == old(self).entities()[j].value.spec_value() - 10
                    &&& final(self).entities()[j].value.subs() == old(self).entities()[j].value.subs()
                    &&& notified@ == old(self).entities()[j].value.subs()
                },
            !old(self).contains_id(id) ==> *final(self) == *old(self) && notified@
                == Seq::<u64>::empty(),
    {
        match self.find_index(id) {
            Some(i) => {
                let mut ent = self.counters.remove(i);
                let cur = match ent.value.get() {
                    Ok(v) => v,
                    Err(_) => {
                        proof {
                            assert(false);
                        }
                        0
                    },
                };
                let notified = match ent.value.write(cur - 10) {
                    Ok(v) => v,
                    Err(_) => {
                        proof {
                            assert(false);
                        }
                        Vec::new()
                    },
                };
                self.counters.insert(i, ent);
                proof {
                    assert(self.entities() =~= old(self).entities().update(i as int, ent));
                }
                notified
            },
            None => Vec::new(),
        }
    }

    /// Reads the targeted record's value from inside a rendering scope,
    /// registering `subscriber` as a dependent of that record's own signal
    /// (at most once). An absent id is a benign no-op.
    pub fn track_value(&mut self, id: u32, subscriber: u64) -> (r: Option<i32>)
        requires
            old(self).wf(),
        ensures
            final(self).wf(),
            final(self).entities().len() == old(self).entities().len(),
            final(self).spec_next_id() == old(self).spec_next_id(),
            final(self).spec_next_value() == old(self).spec_next_value(),
            final(self).collection_signal() == old(self).collection_signal(),
            forall|j: int|
                0 <= j < old(self).entities().len() && (#[trigger] old(self).entities()[j]).id
                    != id ==> final(self).entities()[j] == old(self).entities()[j],
            forall|j: int|
                0 <= j < old(self).entities().len() && (#[trigger] old(self).entities()[j]).id
                    == id ==> {
                    &&& final(self).entities()[j].id == id
                    &&& final(self).entities()[j].value.is_live()
                    &&& final(self).entities()[j].value.spec_value() == old(self).entities()[j].value.spec_value()
                    &&& final(self).entities()[j].value.subs() == if old(self).entities()[j].value.subs().contains(subscriber) {
                        old(self).entities()[j].value.subs()
                    } else {
                        old(self).entities()[j].value.subs().push(subscriber)
                    }
                    &&& r == Some(old(self).entities()[j].value.spec_value())
                },
            !old(self).contains_id(id) ==> *final(self) == *old(self) && r is None,
    {
        match self.find_index(id) {
            Some(i) => {
                let mut ent = self.counters.remove(i);
                let v = match ent.value.read_tracked(subscriber) {
                    Ok(v) => v,
                    Err(_) => {
                        proof {
                            assert(false);
                        }
                        0
                    },
                };
                self.counters.insert(i, ent);
                proof {
                    assert(self.entities() =~= old(self).entities().update(i as int, ent));
                }
                Some(v)
            },
            None => None,
        }
    }

    /// Reads the record count through the collection signal from inside a
    /// rendering scope, registering `subscriber` as a dependent of the
    /// collection signal (at most once).
    pub fn track_collection(&mut self, subscriber: u64) -> (n: usize)
        requires
            old(self).wf(),
        ensures
            final(self).wf(),
            final(self).entities() == old(self).entities(),
            final(self).spec_next_id() == old(self).spec_next_id(),
            final(self).spec_next_value() == old(self).spec_next_value(),
            n == old(self).entities().len(),
            final(self).collection_signal().subs() == if old(self).collection_signal().subs().contains(subscriber) {
                old(self).collection_signal().subs()
            } else {
                old(self).collection_signal().subs().push(subscriber)
            },
    {
        match self.collection.read_tracked(subscriber) {
            Ok(n) => n,
            Err(_) => {
                proof {
                    assert(false);
                }
                0
            },
        }
    }
}

/// Law: identity is stable and collision-free. In any well-formed store no
/// two records share an id, and since every operation preserves
/// well-formedness and leaves each surviving record — id included —
/// unchanged (see the operations' contracts), across any sequence of adds
/// and removes an id stays the one assigned at creation and never repeats.
pub proof fn lemma_ids_unique(s: CounterStore, i: int, j: int)
    requires
        s.wf(),
        0 <= i < s.entities().len(),
        0 <= j < s.entities().len(),
        i != j,
    ensures
        s.entities()[i].id != s.entities()[j].id,
{
}

} // verus!
