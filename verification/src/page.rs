//! The page: a store seeded with three counters, a keyed list binding kept
//! in sync with it, and a render-error boundary around the displayed list.
//!
//! User interactions arrive as events (add, or a per-item command binding an
//! id to an action); handling one applies the store mutation, lets the
//! notified rendering scopes re-evaluate (the list binding reconciles on a
//! collection notification, a single item span refreshes on a value
//! notification), and records the completed render pass in the boundary.
//! Commands for ids that have already been removed are benign no-ops.

use vstd::prelude::*;
use crate::binding::ListBinding;
use crate::binding::RenderedItem;
use crate::boundary::BoundaryView;
use crate::boundary::ErrorBoundary;
use crate::entity::CounterData;
use crate::store::CounterStore;

verus! {

/// Key under which the list view is registered as the collection signal's
/// dependent. Item instances start at 1, so this key collides with no item.
pub const LIST_VIEW_KEY: u64 = 0;

/// What a counter item's buttons can ask for.
#[derive(Clone, Copy, PartialEq, Eq, Structural, Debug)]
pub enum CounterAction {
    Increase,
    Decrease,
    Remove,
}

/// A per-item command: the entity id an item's callbacks were bound to,
/// together with the requested action.
#[derive(Clone, Copy, PartialEq, Eq, Structural, Debug)]
pub struct CounterCommand {
    pub id: u32,
    pub action: CounterAction,
}

/// One user interaction delivered by the host event layer.
#[derive(Clone, Copy, PartialEq, Eq, Structural, Debug)]
pub enum PageEvent {
    AddCounter,
    Item(CounterCommand),
}

/// The page state: the counter store, the keyed list binding, and the
/// render-error boundary around the displayed list.
pub struct Page {
    store: CounterStore,
    binding: ListBinding,
    boundary: ErrorBoundary<Vec<RenderedItem>>,
}

impl Page {
    /// The counter store.
    pub closed spec fn store(self) -> CounterStore {
        self.store
    }

    /// The list binding.
    pub closed spec fn binding(self) -> ListBinding {
        self.binding
    }

    /// What the boundary currently displays.
    pub closed spec fn boundary_shown(self) -> BoundaryView<Vec<RenderedItem>> {
        self.boundary.shown()
    }

    /// Well-formedness: the store and binding are each well-formed, the
    /// rendered items mirror the records one to one (same key, same
    /// displayed value), each record's value signal has exactly its own
    /// rendered item as dependent (no dangling subscriptions), and the list
    /// view is the collection signal's only dependent.
    pub open spec fn wf(self) -> bool {
        &&& self.store().wf()
        &&& self.binding().wf()
        &&& self.binding().items().len() == self.store().entities().len()
        &&& forall|i: int|
            #![trigger self.store().entities()[i]]
            0 <= i < self.store().entities().len() ==> {
                &&& self.binding().items()[i].key == self.store().entities()[i].id
                &&& self.binding().items()[i].shown
                    == self.store().entities()[i].value.spec_value()
                &&& self.store().entities()[i].value.subs() == seq![
                    self.binding().items()[i].instance,
                ]
            }
        &&& self.store().collection_signal().subs() == seq![LIST_VIEW_KEY]
    }

    /// The boundary is in the normal state and displays the current
    /// rendered items.
    pub open spec fn display_in_sync(self) -> bool {
        self.boundary_shown() matches BoundaryView::Content(v) && v@ == self.binding().items()
    }

    /// The machine limits an event must respect: seeds and instance numbers
    /// must not exhaust their integer ranges, and a counter value must stay
    /// representable after a step of 10.
    pub open spec fn can_handle(self, event: PageEvent) -> bool {
        match event {
            PageEvent::AddCounter => {
                &&& self.store().spec_next_id() < u32::MAX
                &&& self.store().spec_next_value() <= i32::MAX - 10
                &&& self.binding().spec_next_instance() + self.store().entities().len() + 1
                    <= u64::MAX
            },
            PageEvent::Item(cmd) => match cmd.action {
                CounterAction::Increase => forall|j: int|
                    0 <= j < self.store().entities().len() && (#[trigger] self.store().entities()[j]).id
                        == cmd.id ==> self.store().entities()[j].value.spec_value() <= i32::MAX
                        - 10,
                CounterAction::Decrease => forall|j: int|
                    0 <= j < self.store().entities().len() && (#[trigger] self.store().entities()[j]).id
                        == cmd.id ==> self.store().entities()[j].value.spec_value() >= i32::MIN
                        + 10,
                CounterAction::Remove => self.binding().spec_next_instance()
                    + self.store().entities().len() <= u64::MAX,
            },
        }
    }

    /// Builds the page: three seeded counters with ids 0, 1, 2 and values
    /// 0, 10, 20, a reconciled and subscribed list view, and a boundary in
    /// the normal state.
    pub fn new() -> (p: Page)
        ensures
            p.wf(),
            p.display_in_sync(),
            p.store().entities().len() == 3,
            p.store().entities()[0].id == 0,
            p.store().entities()[1].id == 1,
            p.store().entities()[2].id == 2,
            p.store().entities()[0].value.spec_value() == 0,
            p.store().entities()[1].value.spec_value() == 10,
            p.store().entities()[2].value.spec_value() == 20,
            p.store().spec_next_id() == 3,
            p.store().spec_next_value() == 30,
    {
        let mut store = CounterStore::new();
        let _n0 = store.add_counter();
        let _n1 = store.add_counter();
        let _n2 = store.add_counter();
        let _count = store.track_collection(LIST_VIEW_KEY);
        proof {
            assert(store.collection_signal().subs() =~= seq![LIST_VIEW_KEY]);
        }
        let mut binding = ListBinding::new();
        binding.reconcile(store.counters());
        subscribe_from(&mut store, &binding, 0);
        let snapshot = copy_items(binding.rendered());
        let boundary = ErrorBoundary::new(snapshot);
        Page { store, binding, boundary }
    }

    /// Read access to the ordered counter records.
    pub fn counters(&self) -> (r: &Vec<CounterData>)
        ensures
            r@ == self.store().entities(),
    {
        self.store.counters()
    }

    /// Read access to the rendered items.
    pub fn rendered(&self) -> (r: &Vec<RenderedItem>)
        ensures
            r@ == self.binding().items(),
    {
        self.binding.rendered()
    }

    /// The id the next created record will get.
    pub fn next_id(&self) -> (r: u32)
        ensures
            r == self.store().spec_next_id(),
    {
        self.store.next_id()
    }

    /// The initial value the next created record will get.
    pub fn next_value(&self) -> (r: i32)
        ensures
            r == self.store().spec_next_value(),
    {
        self.store.next_value()
    }

    /// The number the next freshly instantiated item will get.
    pub fn next_instance(&self) -> (r: u64)
        ensures
            r == self.binding().spec_next_instance(),
    {
        self.binding.next_instance()
    }

    /// Read access to what the boundary displays.
    pub fn display(&self) -> (r: &BoundaryView<Vec<RenderedItem>>)
        ensures
            *r == self.boundary_shown(),
    {
        self.boundary.view_ref()
    }

    /// Applies one user interaction: the store mutation, the minimal
    /// re-render it notifies, and a completed render pass recorded in the
    /// boundary.
    ///
    /// Adding appends one record (never reordering or re-creating the
    /// existing items: their instances persist); removing a present id
    /// drops exactly that record and its item, keeping every other record,
    /// value and instance; increasing or decreasing changes only the
    /// targeted record's value and displayed span by 10 and leaves the
    /// collection signal untouched; a command for an absent id changes
    /// nothing.
    pub fn handle(&mut self, event: PageEvent)
        requires
            old(self).wf(),
            old(self).can_handle(event),
        ensures
            final(self).wf(),
            final(self).display_in_sync(),
            match event {
                PageEvent::AddCounter => {
                    &&& final(self).store().entities().len() == old(self).store().entities().len()
                        + 1
                    &&& forall|i: int|
                        0 <= i < old(self).store().entities().len() ==> {
                            &&& (#[trigger] final(self).store().entities()[i]).id == old(self).store().entities()[i].id
                            &&& final(self).store().entities()[i].value.spec_value() == old(self).store().entities()[i].value.spec_value()
                            &&& final(self).binding().items()[i].instance == old(self).binding().items()[i].instance
                        }
                    &&& final(self).store().entities()[old(self).store().entities().len() as int].id
                        == old(self).store().spec_next_id()
                    &&& final(self).store().entities()[old(self).store().entities().len() as int].value.spec_value() == old(self).store().spec_next_value()
                    &&& final(self).binding().items()[old(self).store().entities().len() as int].instance >= old(self).binding().spec_next_instance()
                    &&& final(self).store().spec_next_id() == old(self).store().spec_next_id() + 1
                    &&& final(self).store().spec_next_value() == old(self).store().spec_next_value() + 10
                },
                PageEvent::Item(cmd) => match cmd.action {
                    CounterAction::Remove => {
                        &&& old(self).store().contains_id(cmd.id) ==> exists|k: int|
                            0 <= k < old(self).store().entities().len()
                                && (#[trigger] old(self).store().entities()[k]).id == cmd.id
                                && final(self).store().entities() == old(self).store().entities().remove(k) && final(self).binding().items() == old(self).binding().items().remove(k)
                        &&& !final(self).store().contains_id(cmd.id)
                        &&& !old(self).store().contains_id(cmd.id) ==> final(self).store().entities() == old(self).store().entities() && final(self).binding().items() == old(self).binding().items()
                        &&& final(self).store().spec_next_id() == old(self).store().spec_next_id()
                        &&& final(self).store().spec_next_value() == old(self).store().spec_next_value()
                    },
                    CounterAction::Increase => {
                        &&& final(self).store().entities().len() == old(self).store().entities().len()
                        &&& forall|j: int|
                            0 <= j < old(self).store().entities().len() && (#[trigger] old(self).store().entities()[j]).id != cmd.id ==> final(self).store().entities()[j] == old(self).store().entities()[j] && final(self).binding().items()[j] == old(self).binding().items()[j]
                        &&& forall|j: int|
                            0 <= j < old(self).store().entities().len() && (#[trigger] old(self).store().entities()[j]).id == cmd.id ==> final(self).store().entities()[j].value.spec_value() == old(self).store().entities()[j].value.spec_value() + 10 && final(self).binding().items()[j].instance == old(self).binding().items()[j].instance
                        &&& final(self).store().collection_signal() == old(self).store().collection_signal()
                    },
                    CounterAction::Decrease => {
                        &&& final(self).store().entities().len() == old(self).store().entities().len()
                        &&& forall|j: int|
                            0 <= j < old(self).store().entities().len() && (#[trigger] old(self).store().entities()[j]).id != cmd.id ==> final(self).store().entities()[j] == old(self).store().entities()[j] && final(self).binding().items()[j] == old(self).binding().items()[j]
                        &&& forall|j: int|
                            0 <= j < old(self).store().entities().len() && (#[trigger] old(self).store().entities()[j]).id == cmd.id ==> final(self).store().entities()[j].value.spec_value() == old(self).store().entities()[j].value.spec_value() - 10 && final(self).binding().items()[j].instance == old(self).binding().items()[j].instance
                        &&& final(self).store().collection_signal() == old(self).store().collection_signal()
                    },
                },
            },
    {
        match event {
            PageEvent::AddCounter => {
                let start = self.store.counters().len();
                let _notified = self.store.add_counter();
                let ghost mid_store = self.store;
                let ghost oldb = self.binding;
                proof {
                    assert forall|j: int|
                        0 <= j < self.binding.items().len() implies (#[trigger] self.binding.items()[j]).key
                        != old(self).store().spec_next_id() by {
                        assert(self.binding.items()[j].key == old(self).store().entities()[j].id);
                    }
                }
                self.binding.reconcile(self.store.counters());
                subscribe_from(&mut self.store, &self.binding, start);
                proof {
                    let n = start as int;
                    assert forall|i: int| #![trigger self.store.entities()[i]]
                        0 <= i < self.store.entities().len() implies {
                        &&& self.binding.items()[i].key == self.store.entities()[i].id
                        &&& self.binding.items()[i].shown
                            == self.store.entities()[i].value.spec_value()
                        &&& self.store.entities()[i].value.subs() == seq![
                            self.binding.items()[i].instance,
                        ]
                        &&& (i < n ==> self.binding.items()[i].instance
                            == oldb.items()[i].instance)
                    } by {
                        assert(self.store.entities()[i].id == mid_store.entities()[i].id);
                        assert(self.binding.items()[i].key == mid_store.entities()[i].id);
                        assert(self.binding.items()[i].shown == mid_store.entities()[
                            i
                        ].value.spec_value());
                        if i < n {
                            assert(mid_store.entities()[i] == old(self).store().entities()[i]);
                            assert(oldb.items()[i].key == mid_store.entities()[i].id);
                            assert(self.binding.items()[i].instance == oldb.items()[i].instance);
                            assert(self.store.entities()[i].value.subs() == mid_store.entities()[
                                i
                            ].value.subs());
                            assert(mid_store.entities()[i].value.subs() == seq![
                                oldb.items()[i].instance,
                            ]);
                        } else {
                            assert(self.store.entities()[i].value.subs() == seq![
                                self.binding.items()[i].instance,
                            ]);
                        }
                    }
                    assert(!oldb.has_key(mid_store.entities()[n].id));
                    assert(self.binding.items()[n].instance >= oldb.spec_next_instance());
                }
                self.record_render();
            },
            PageEvent::Item(cmd) => {
                match cmd.action {
                    CounterAction::Remove => {
                        let r = self.store.remove_counter(cmd.id);
                        proof {
                            if r.0 is Some {
                                let k = choose|k: int|
                                    0 <= k < old(self).store().entities().len()
                                        && (#[trigger] old(self).store().entities()[k]).id
                                        == cmd.id && self.store.entities() == old(self).store().entities().remove(k);
                                assert forall|m: int|
                                    0 <= m < self.store.entities().len() implies (
                                    #[trigger] self.store.entities()[m]) == (if m < k {
                                        old(self).store().entities()[m]
                                    } else {
                                        old(self).store().entities()[m + 1]
                                    }) by {}
                            }
                        }
                        self.binding.reconcile(self.store.counters());
                        proof {
                            if old(self).store().contains_id(cmd.id) {
                                let k = choose|k: int|
                                    0 <= k < old(self).store().entities().len()
                                        && (#[trigger] old(self).store().entities()[k]).id
                                        == cmd.id && self.store.entities() == old(self).store().entities().remove(k);
                                assert forall|i: int| #![trigger self.store.entities()[i]]
                                    0 <= i < self.store.entities().len() implies {
                                    &&& self.binding.items()[i].key == self.store.entities()[i].id
                                    &&& self.binding.items()[i].shown
                                        == self.store.entities()[i].value.spec_value()
                                    &&& self.store.entities()[i].value.subs() == seq![
                                        self.binding.items()[i].instance,
                                    ]
                                    &&& self.binding.items()[i] == old(
                                        self,
                                    ).binding().items().remove(k)[i]
                                } by {
                                    let m = if i < k {
                                        i
                                    } else {
                                        i + 1
                                    };
                                    assert(self.store.entities()[i] == old(
                                        self,
                                    ).store().entities()[m]);
                                    assert(old(self).binding().items()[m].key == old(
                                        self,
                                    ).store().entities()[m].id);
                                    assert(self.binding.items()[i].instance == old(
                                        self,
                                    ).binding().items()[m].instance);
                                    assert(old(self).store().entities()[m].value.subs() == seq![
                                        old(self).binding().items()[m].instance,
                                    ]);
                                    assert(old(self).binding().items()[m].shown == old(
                                        self,
                                    ).store().entities()[m].value.spec_value());
                                }
                                assert(self.binding.items() =~= old(self).binding().items().remove(
                                    k,
                                ));
                            } else {
                                assert(self.store.entities() == old(self).store().entities());
                                assert forall|i: int| #![trigger self.store.entities()[i]]
                                    0 <= i < self.store.entities().len() implies {
                                    &&& self.binding.items()[i].key == self.store.entities()[i].id
                                    &&& self.binding.items()[i].shown
                                        == self.store.entities()[i].value.spec_value()
                                    &&& self.store.entities()[i].value.subs() == seq![
                                        self.binding.items()[i].instance,
                                    ]
                                    &&& self.binding.items()[i] == old(self).binding().items()[i]
                                } by {
                                    assert(old(self).binding().items()[i].key == old(
                                        self,
                                    ).store().entities()[i].id);
                                    assert(self.binding.items()[i].instance == old(
                                        self,
                                    ).binding().items()[i].instance);
                                }
                                assert(self.binding.items() =~= old(self).binding().items());
                            }
                        }
                        self.record_render();
                    },
                    CounterAction::Increase => {
                        let _notified = self.store.increase(cmd.id);
                        match self.store.get_value(cmd.id) {
                            Some(v) => {
                                self.binding.refresh_item(cmd.id, v);
                                proof {
                                    assert forall|j: int| #![trigger self.store.entities()[j]]
                                        0 <= j < self.store.entities().len() implies {
                                        &&& self.binding.items()[j].key
                                            == self.store.entities()[j].id
                                        &&& self.binding.items()[j].shown
                                            == self.store.entities()[j].value.spec_value()
                                        &&& self.store.entities()[j].value.subs() == seq![
                                            self.binding.items()[j].instance,
                                        ]
                                        &&& self.binding.items()[j].instance == old(
                                            self,
                                        ).binding().items()[j].instance
                                        &&& (old(self).store().entities()[j].id != cmd.id
                                            ==> self.binding.items()[j] == old(
                                            self,
                                        ).binding().items()[j])
                                    } by {
                                        assert(old(self).binding().items()[j].key == old(
                                            self,
                                        ).store().entities()[j].id);
                                        if old(self).store().entities()[j].id == cmd.id {
                                            assert(self.store.entities()[j].id == cmd.id);
                                            assert(v == self.store.entities()[j].value.spec_value());
                                            assert(self.binding.items()[j].shown == v);
                                            assert(self.binding.items()[j].instance == old(
                                                self,
                                            ).binding().items()[j].instance);
                                            assert(self.store.entities()[j].value.subs() == old(
                                                self,
                                            ).store().entities()[j].value.subs());
                                        } else {
                                            assert(self.store.entities()[j] == old(
                                                self,
                                            ).store().entities()[j]);
                                            assert(old(self).binding().items()[j].key != cmd.id);
                                            assert(self.binding.items()[j] == old(
                                                self,
                                            ).binding().items()[j]);
                                        }
                                    }
                                }
                            },
                            None => {
                                proof {
                                    if old(self).store().contains_id(cmd.id) {
                                        let j = choose|j: int|
                                            0 <= j < old(self).store().entities().len()
                                                && (#[trigger] old(self).store().entities()[j]).id
                                                == cmd.id;
                                        assert(self.store.entities()[j].id == cmd.id);
                                        assert(false);
                                    }
                                }
                            },
                        }
                        self.record_render();
                    },
                    CounterAction::Decrease => {
                        let _notified = self.store.decrease(cmd.id);
                        match self.store.get_value(cmd.id) {
                            Some(v) => {
                                self.binding.refresh_item(cmd.id, v);
                                proof {
                                    assert forall|j: int| #![trigger self.store.entities()[j]]
                                        0 <= j < self.store.entities().len() implies {
                                        &&& self.binding.items()[j].key
                                            == self.store.entities()[j].id
                                        &&& self.binding.items()[j].shown
                                            == self.store.entities()[j].value.spec_value()
                                        &&& self.store.entities()[j].value.subs() == seq![
                                            self.binding.items()[j].instance,
                                        ]
                                        &&& self.binding.items()[j].instance == old(
                                            self,
                                        ).binding().items()[j].instance
                                        &&& (old(self).store().entities()[j].id != cmd.id
                                            ==> self.binding.items()[j] == old(
                                            self,
                                        ).binding().items()[j])
                                    } by {
                                        assert(old(self).binding().items()[j].key == old(
                                            self,
                                        ).store().entities()[j].id);
                                        if old(self).store().entities()[j].id == cmd.id {
                                            assert(self.store.entities()[j].id == cmd.id);
                                            assert(v == self.store.entities()[j].value.spec_value());
                                            assert(self.binding.items()[j].shown == v);
                                            assert(self.binding.items()[j].instance == old(
                                                self,
                                            ).binding().items()[j].instance);
                                            assert(self.store.entities()[j].value.subs() == old(
                                                self,
                                            ).store().entities()[j].value.subs());
                                        } else {
                                            assert(self.store.entities()[j] == old(
                                                self,
                                            ).store().entities()[j]);
                                            assert(old(self).binding().items()[j].key != cmd.id);
                                            assert(self.binding.items()[j] == old(
                                                self,
                                            ).binding().items()[j]);
                                        }
                                    }
                                }
                            },
                            None => {
                                proof {
                                    if old(self).store().contains_id(cmd.id) {
                                        let j = choose|j: int|
                                            0 <= j < old(self).store().entities().len()
                                                && (#[trigger] old(self).store().entities()[j]).id
                                                == cmd.id;
                                        assert(self.store.entities()[j].id == cmd.id);
                                        assert(false);
                                    }
                                }
                            },
                        }
                        self.record_render();
                    },
                }
            },
        }
    }

    /// Reports a failed render pass of the wrapped scope: the boundary
    /// switches to the fallback listing exactly the captured error
    /// messages, while the state outside and behind the boundary — the
    /// store and the bound items — stays untouched.
    pub fn fail_render(&mut self, errors: Vec<String>)
        requires
            old(self).wf(),
        ensures
            final(self).wf(),
            final(self).store() == old(self).store(),
            final(self).binding() == old(self).binding(),
            final(self).boundary_shown() == BoundaryView::<Vec<RenderedItem>>::Fallback(errors),
    {
        self.boundary.observe(Err(errors));
    }

    /// Records a render pass of the wrapped scope that completed without
    /// raising: the boundary returns to (or stays in) the normal state and
    /// displays the current items.
    pub fn render(&mut self)
        requires
            old(self).wf(),
        ensures
            final(self).wf(),
            final(self).display_in_sync(),
            final(self).store() == old(self).store(),
            final(self).binding() == old(self).binding(),
    {
        self.record_render();
    }

    /// Feeds the current items to the boundary as a completed render pass.
    fn record_render(&mut self)
        ensures
            final(self).store() == old(self).store(),
            final(self).binding() == old(self).binding(),
            final(self).display_in_sync(),
    {
        let snapshot = copy_items(self.binding.rendered());
        self.boundary.observe(Ok(snapshot));
    }
}

/// Registers the rendered items from position `start` on as dependents of
/// their own records' value signals (the first render of a freshly
/// instantiated item reads its signal inside the item's rendering scope).
#[verifier::loop_isolation(false)]
fn subscribe_from(store: &mut CounterStore, binding: &ListBinding, start: usize)
    requires
        old(store).wf(),
        binding.wf(),
        binding.items().len() == old(store).entities().len(),
        forall|i: int|
            0 <= i < old(store).entities().len() ==> (#[trigger] binding.items()[i]).key == old(store).entities()[i].id,
        start <= old(store).entities().len(),
        forall|i: int|
            start <= i < old(store).entities().len() ==> (#[trigger] old(store).entities()[i]).value.subs() == Seq::<u64>::empty(),
    ensures
        final(store).wf(),
        final(store).entities().len() == old(store).entities().len(),
        final(store).spec_next_id() == old(store).spec_next_id(),
        final(store).spec_next_value() == old(store).spec_next_value(),
        final(store).collection_signal() == old(store).collection_signal(),
        forall|i: int|
            0 <= i < old(store).entities().len() ==> {
                &&& (#[trigger] final(store).entities()[i]).id == old(store).entities()[i].id
                &&& final(store).entities()[i].value.is_live()
                &&& final(store).entities()[i].value.spec_value() == old(store).entities()[i].value.spec_value()
            },
        forall|i: int|
            0 <= i < start ==> (#[trigger] final(store).entities()[i]).value.subs() == old(store).entities()[i].value.subs(),
        forall|i: int|
            start <= i < old(store).entities().len() ==> (#[trigger] final(store).entities()[i]).value.subs() == seq![binding.items()[i].instance],
{
    let ghost orig = *store;
    let total = store.counters().len();
    let mut i: usize = start;
    while i < total
        invariant
            store.wf(),
            orig.wf(),
            binding.wf(),
            start <= i <= total,
            total == orig.entities().len(),
            store.entities().len() == orig.entities().len(),
            store.spec_next_id() == orig.spec_next_id(),
            store.spec_next_value() == orig.spec_next_value(),
            store.collection_signal() == orig.collection_signal(),
            binding.items().len() == orig.entities().len(),
            forall|j: int|
                0 <= j < orig.entities().len() ==> (#[trigger] binding.items()[j]).key
                    == orig.entities()[j].id,
            forall|j: int|
                0 <= j < orig.entities().len() ==> {
                    &&& (#[trigger] store.entities()[j]).id == orig.entities()[j].id
                    &&& store.entities()[j].value.is_live()
                    &&& store.entities()[j].value.spec_value()
                        == orig.entities()[j].value.spec_value()
                },
            forall|j: int|
                0 <= j < start ==> (#[trigger] store.entities()[j]).value.subs()
                    == orig.entities()[j].value.subs(),
            forall|j: int|
                start <= j < i ==> (#[trigger] store.entities()[j]).value.subs() == seq![
                    binding.items()[j].instance,
                ],
            forall|j: int|
                i <= j < orig.entities().len() ==> (#[trigger] store.entities()[j]).value.subs()
                    == Seq::<u64>::empty(),
        decreases total - i,
    {
        let item: RenderedItem = binding.rendered()[i];
        proof {
            assert(store.entities()[i as int].id == item.key);
        }
        let ghost prev = *store;
        let _v = store.track_value(item.key, item.instance);
        proof {
            assert forall|j: int| #![trigger store.entities()[j]]
                0 <= j < prev.entities().len() && j != i as int implies store.entities()[j]
                == prev.entities()[j] by {
                assert(prev.entities()[j].id != prev.entities()[i as int].id);
                assert(prev.entities()[j].id != item.key);
            }
            assert(prev.entities()[i as int].id == item.key);
            assert(!prev.entities()[i as int].value.subs().contains(item.instance));
            assert(store.entities()[i as int].value.subs() =~= seq![item.instance]);
            assert(store.entities()[i as int].id == item.key);
            assert(store.entities()[i as int].value.is_live());
            assert(store.entities()[i as int].value.spec_value() == prev.entities()[
                i as int
            ].value.spec_value());
        }
        i = i + 1;
    }
}

/// Copies the rendered items for a boundary snapshot.
fn copy_items(items: &Vec<RenderedItem>) -> (r: Vec<RenderedItem>)
    ensures
        r@ == items@,
{
    let mut out: Vec<RenderedItem> = Vec::new();
    let mut i: usize = 0;
    while i < items.len()
        invariant
            i <= items@.len(),
            out@ == items@.subrange(0, i as int),
        decreases items@.len() - i,
    {
        out.push(items[i]);
        proof {
            assert(out@ =~= items@.subrange(0, (i + 1) as int));
        }
        i = i + 1;
    }
    proof {
        assert(out@ =~= items@);
    }
    out
}

} // verus!
