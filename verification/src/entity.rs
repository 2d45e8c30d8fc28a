//! The entity factory: produces a counter record with a monotonically
//! assigned identity and an initial value drawn from the page's seed
//! counters.

use vstd::prelude::*;
use crate::signal::Signal;

verus! {

/// One counter record: an immutable identity and its own value signal. The
/// id is the reconciliation key for the list binding; the signal is owned
/// exclusively by this record and is disposed when the record leaves the
/// store.
pub struct CounterData {
    /// Unique identity, never changed and never reused.
    pub id: u32,
    /// The counter's current value, independently mutable through the signal.
    pub value: Signal<i32>,
}

impl CounterData {
    /// Creates a record with identity `*id` and a fresh live value signal
    /// seeded with `*value`, then advances the id seed by 1 and the value
    /// seed by 10, so the next record gets a strictly larger id and starts
    /// 10 higher.
    pub fn new(id: &mut u32, value: &mut i32) -> (c: CounterData)
        requires
            *old(id) < u32::MAX,
            *old(value) <= i32::MAX - 10,
        ensures
            c.id == *old(id),
            c.value.is_live(),
            c.value.spec_value() == *old(value),
            c.value.subs() == Seq::<u64>::empty(),
            *final(id) == *old(id) + 1,
            *final(value) == *old(value) + 10,
    {
        let counter = CounterData { id: *id, value: Signal::new(*value) };
        *id = *id + 1;
        *value = *value + 10;
        counter
    }
}

} // verus!
