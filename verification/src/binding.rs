//! The keyed list binding: maps the store's ordered collection to rendered
//! items addressed by key (the entity id), not by position.
//!
//! On a collection update, an item whose key persisted keeps its rendered
//! instance (it is not re-created, only repositioned if the order changed),
//! an item whose key disappeared is unmounted, and a new key gets a freshly
//! numbered instance. Stable keys are what prevent spurious identity loss on
//! collection mutation: without them every unrelated sibling update would
//! erase independent per-item state.

use vstd::prelude::*;
use crate::entity::CounterData;

verus! {

/// One rendered list entry: the reconciliation key, the identity of the
/// rendered representation (fresh instances get strictly increasing
/// numbers, so a reused item is recognisable by an unchanged instance), and
/// the value its span currently displays.
#[derive(Clone, Copy, PartialEq, Eq, Structural, Debug)]
pub struct RenderedItem {
    /// Reconciliation key: the entity id.
    pub key: u32,
    /// Identity of the rendered representation; stable while the key
    /// persists across updates.
    pub instance: u64,
    /// The value currently displayed in this item's span.
    pub shown: i32,
}

/// The rendered sequence and the counter that numbers fresh instances.
pub struct ListBinding {
    items: Vec<RenderedItem>,
    next_instance: u64,
}

impl ListBinding {
    /// The rendered items, in render order.
    pub closed spec fn items(self) -> Seq<RenderedItem> {
        self.items@
    }

    /// The number the next freshly instantiated item will get.
    pub closed spec fn spec_next_instance(self) -> u64 {
        self.next_instance
    }

    /// Some rendered item carries the key.
    pub open spec fn has_key(self, key: u32) -> bool {
        exists|j: int| 0 <= j < self.items().len() && self.items()[j].key == key
    }

    /// Well-formedness: instance numbers are positive, unique and below the
    /// fresh-instance counter, and keys are unique.
    pub open spec fn wf(self) -> bool {
        &&& self.spec_next_instance() >= 1
        &&& forall|i: int|
            0 <= i < self.items().len() ==> 1 <= (#[trigger] self.items()[i]).instance
                < self.spec_next_instance()
        &&& forall|i: int, j: int|
            0 <= i < self.items().len() && 0 <= j < self.items().len() && i != j
                ==> self.items()[i].instance != self.items()[j].instance
        &&& forall|i: int, j: int|
            0 <= i < self.items().len() && 0 <= j < self.items().len() && i != j
                ==> self.items()[i].key != self.items()[j].key
    }

    /// Creates an empty binding.
    pub fn new() -> (b: ListBinding)
        ensures
            b.wf(),
            b.items().len() == 0,
            b.spec_next_instance() == 1,
    {
        ListBinding { items: Vec::new(), next_instance: 1 }
    }

    /// The number the next freshly instantiated item will get.
    pub fn next_instance(&self) -> (r: u64)
        ensures
            r == self.spec_next_instance(),
    {
        self.next_instance
    }

    /// Read access to the rendered items.
    pub fn rendered(&self) -> (r: &Vec<RenderedItem>)
        ensures
            r@ == self.items(),
    {
        &self.items
    }

    /// The position of the item carrying `key`, if present.
    fn find_key_index(&self, key: u32) -> (r: Option<usize>)
        ensures
            match r {
                Some(i) => i < self.items().len() && self.items()[i as int].key == key,
                None => !self.has_key(key),
            },
    {
        let mut i: usize = 0;
        while i < self.items.len()
            invariant
                i <= self.items@.len(),
                forall|j: int| 0 <= j < i ==> self.items@[j].key != key,
            decreases self.items@.len() - i,
        {
            if self.items[i].key == key {
                return Some(i);
            }
            i = i + 1;
        }
        None
    }

    /// The instance of the item carrying `key`, if present.
    fn find_instance(&self, key: u32) -> (r: Option<u64>)
        requires
            self.wf(),
        ensures
            match r {
                Some(inst) => self.has_key(key) && forall|j: int|
                    0 <= j < self.items().len() && (#[trigger] self.items()[j]).key == key
                        ==> inst == self.items()[j].instance,
                None => !self.has_key(key),
            },
    {
        match self.find_key_index(key) {
            Some(i) => Some(self.items[i].instance),
            None => None,
        }
    }

    /// Reconciles the rendered sequence with the store's current collection:
    /// the result is keyed and ordered exactly as `entities`; every item
    /// whose key persisted keeps its instance; every new key gets a fresh,
    /// never used instance number.
    pub fn reconcile(&mut self, entities: &Vec<CounterData>)
        requires
            old(self).wf(),
            forall|a: int, b: int|
                0 <= a < entities@.len() && 0 <= b < entities@.len() && a != b
                    ==> entities@[a].id != entities@[b].id,
            forall|a: int|
                0 <= a < entities@.len() ==> (#[trigger] entities@[a]).value.is_live(),
            old(self).spec_next_instance() + entities@.len() <= u64::MAX,
        ensures
            final(self).wf(),
            final(self).items().len() == entities@.len(),
            forall|i: int|
                0 <= i < entities@.len() ==> (#[trigger] final(self).items()[i]).key
                    == entities@[i].id && final(self).items()[i].shown
                    == entities@[i].value.spec_value(),
            forall|i: int, j: int|
                0 <= i < entities@.len() && 0 <= j < old(self).items().len()
                    && (#[trigger] old(self).items()[j]).key == (#[trigger] entities@[i]).id
                    ==> final(self).items()[i].instance == old(self).items()[j].instance,
            forall|i: int|
                0 <= i < entities@.len() && !old(self).has_key((#[trigger] entities@[i]).id)
                    ==> final(self).items()[i].instance >= old(self).spec_next_instance(),
            final(self).spec_next_instance() >= old(self).spec_next_instance(),
    {
        let ghost orig = *self;
        let mut out: Vec<RenderedItem> = Vec::new();
        let mut i: usize = 0;
        while i < entities.len()
            invariant
                self.wf(),
                orig.wf(),
                self.items() == orig.items(),
                self.spec_next_instance() >= orig.spec_next_instance(),
                i <= entities@.len(),
                out@.len() == i as int,
                self.spec_next_instance() + (entities@.len() - i) <= u64::MAX,
                forall|a: int, b: int|
                    0 <= a < entities@.len() && 0 <= b < entities@.len() && a != b
                        ==> entities@[a].id != entities@[b].id,
                forall|a: int|
                    0 <= a < entities@.len() ==> (#[trigger] entities@[a]).value.is_live(),
                forall|a: int|
                    0 <= a < i ==> (#[trigger] out@[a]).key == entities@[a].id && out@[a].shown
                        == entities@[a].value.spec_value(),
                forall|a: int, j: int|
                    0 <= a < i && 0 <= j < orig.items().len() && (#[trigger] orig.items()[j]).key
                        == (#[trigger] out@[a]).key ==> out@[a].instance
                        == orig.items()[j].instance,
                forall|a: int|
                    0 <= a < i && !orig.has_key((#[trigger] out@[a]).key) ==> out@[a].instance
                        >= orig.spec_next_instance(),
                forall|a: int|
                    0 <= a < i && orig.has_key((#[trigger] out@[a]).key) ==> out@[a].instance
                        < orig.spec_next_instance(),
                forall|a: int|
                    0 <= a < i ==> 1 <= (#[trigger] out@[a]).instance < self.spec_next_instance(),
                forall|a: int, b: int|
                    0 <= a < b < i ==> out@[a].instance != out@[b].instance,
            decreases entities@.len() - i,
        {
            let ent_id = entities[i].id;
            let val = match entities[i].value.get() {
                Ok(v) => v,
                Err(_) => {
                    proof {
                        assert(false);
                    }
                    0
                },
            };
            let inst: u64 = match self.find_instance(ent_id) {
                Some(found) => found,
                None => {
                    let fresh = self.next_instance;
                    self.next_instance = self.next_instance + 1;
                    fresh
                },
            };
            out.push(RenderedItem { key: ent_id, instance: inst, shown: val });
            proof {
                let n = i as int;
                assert forall|a: int| 0 <= a < n implies out@[a].instance != out@[n].instance by {
                    if orig.has_key(out@[a].key) {
                        let ja = choose|j: int|
                            0 <= j < orig.items().len() && orig.items()[j].key == out@[a].key;
                        assert(out@[a].instance == orig.items()[ja].instance);
                        if orig.has_key(entities@[n].id) {
                            let jn = choose|j: int|
                                0 <= j < orig.items().len() && orig.items()[j].key
                                    == entities@[n].id;
                            assert(out@[n].instance == orig.items()[jn].instance);
                            assert(out@[a].key == entities@[a].id);
                            assert(entities@[a].id != entities@[n].id);
                            assert(ja != jn);
                        }
                    }
                }
            }
            i = i + 1;
        }
        self.items = out;
        proof {
            assert forall|a: int, b: int|
                0 <= a < self.items().len() && 0 <= b < self.items().len() && a
                    != b implies self.items()[a].key != self.items()[b].key by {
                assert(self.items()[a].key == entities@[a].id);
                assert(self.items()[b].key == entities@[b].id);
            }
        }
    }

    /// Updates the displayed value of the item carrying `key`, leaving its
    /// instance, every other item and the order untouched. An absent key is
    /// a benign no-op.
    pub fn refresh_item(&mut self, key: u32, value: i32)
        requires
            old(self).wf(),
        ensures
            final(self).wf(),
            final(self).spec_next_instance() == old(self).spec_next_instance(),
            final(self).items().len() == old(self).items().len(),
            forall|j: int|
                0 <= j < old(self).items().len() && (#[trigger] old(self).items()[j]).key != key
                    ==> final(self).items()[j] == old(self).items()[j],
            forall|j: int|
                0 <= j < old(self).items().len() && (#[trigger] old(self).items()[j]).key == key
                    ==> final(self).items()[j].key == key && final(self).items()[j].instance
                    == old(self).items()[j].instance && final(self).items()[j].shown == value,
            !old(self).has_key(key) ==> *final(self) == *old(self),
    {
        match self.find_key_index(key) {
            Some(i) => {
                let it = self.items.remove(i);
                let updated = RenderedItem { key: it.key, instance: it.instance, shown: value };
                self.items.insert(i, updated);
                proof {
                    assert(self.items() =~= old(self).items().update(i as int, updated));
                }
            },
            None => {},
        }
    }
}

} // verus!
