use counter_page::entity::CounterData;
use counter_page::signal::Signal;
use counter_page::signal::SignalError;
use counter_page::store::CounterStore;

#[test]
fn signal_read_write_round_trip() {
    let mut sig: Signal<i32> = Signal::new(5);
    assert_eq!(sig.get(), Ok(5));
    let notified = sig.write(7).unwrap();
    assert!(notified.is_empty());
    assert_eq!(sig.get(), Ok(7));
}

#[test]
fn signal_disposed_access_fails() {
    let mut sig: Signal<i32> = Signal::new(5);
    sig.dispose();
    assert_eq!(sig.get(), Err(SignalError::Disposed));
    assert_eq!(sig.write(9), Err(SignalError::Disposed));
    assert_eq!(sig.read_tracked(1), Err(SignalError::Disposed));
    assert!(sig.read().is_err());
}

#[test]
fn signal_tracked_read_registers_once() {
    let mut sig: Signal<i32> = Signal::new(1);
    assert_eq!(sig.read_tracked(7), Ok(1));
    assert_eq!(sig.read_tracked(7), Ok(1));
    assert_eq!(sig.read_tracked(9), Ok(1));
    let notified = sig.write(2).unwrap();
    assert_eq!(notified, vec![7, 9]);
}

#[test]
fn signal_dispose_detaches_dependents() {
    let mut sig: Signal<i32> = Signal::new(1);
    sig.read_tracked(7).unwrap();
    sig.dispose();
    let mut fresh: Signal<i32> = Signal::new(0);
    // A fresh cell shows what an empty dependent list looks like; the
    // disposed one can no longer be written at all.
    assert!(fresh.write(1).unwrap().is_empty());
    assert_eq!(sig.write(2), Err(SignalError::Disposed));
}

#[test]
fn factory_advances_both_seeds() {
    let mut id: u32 = 0;
    let mut value: i32 = 0;
    let first = CounterData::new(&mut id, &mut value);
    assert_eq!(first.id, 0);
    assert_eq!(first.value.get(), Ok(0));
    assert_eq!(id, 1);
    assert_eq!(value, 10);
    let second = CounterData::new(&mut id, &mut value);
    assert_eq!(second.id, 1);
    assert_eq!(second.value.get(), Ok(10));
    assert_eq!(id, 2);
    assert_eq!(value, 20);
}

#[test]
fn store_add_appends_in_order() {
    let mut store = CounterStore::new();
    store.add_counter();
    store.add_counter();
    store.add_counter();
    let counters = store.counters();
    assert_eq!(counters.len(), 3);
    let ids: Vec<u32> = counters.iter().map(|c| c.id).collect();
    assert_eq!(ids, vec![0, 1, 2]);
    let values: Vec<i32> = counters.iter().map(|c| c.value.get().unwrap()).collect();
    assert_eq!(values, vec![0, 10, 20]);
}

#[test]
fn store_remove_present_disposes_signal() {
    let mut store = CounterStore::new();
    store.add_counter();
    store.add_counter();
    store.add_counter();
    let (removed, _notified) = store.remove_counter(1);
    let mut removed = removed.expect("id 1 was present");
    assert_eq!(removed.id, 1);
    assert_eq!(removed.value.get(), Err(SignalError::Disposed));
    assert_eq!(removed.value.write(5), Err(SignalError::Disposed));
    let ids: Vec<u32> = store.counters().iter().map(|c| c.id).collect();
    assert_eq!(ids, vec![0, 2]);
}

#[test]
fn store_remove_absent_is_noop() {
    let mut store = CounterStore::new();
    store.add_counter();
    store.add_counter();
    let (removed, _notified) = store.remove_counter(9);
    assert!(removed.is_none());
    let ids: Vec<u32> = store.counters().iter().map(|c| c.id).collect();
    assert_eq!(ids, vec![0, 1]);
    let values: Vec<i32> = store.counters().iter().map(|c| c.value.get().unwrap()).collect();
    assert_eq!(values, vec![0, 10]);
}

#[test]
fn store_ids_never_reused_after_removal() {
    let mut store = CounterStore::new();
    store.add_counter();
    store.add_counter();
    store.remove_counter(1);
    store.add_counter();
    let ids: Vec<u32> = store.counters().iter().map(|c| c.id).collect();
    assert_eq!(ids, vec![0, 2]);
}

#[test]
fn store_step_changes_only_target() {
    let mut store = CounterStore::new();
    store.add_counter();
    store.add_counter();
    store.add_counter();
    store.increase(1);
    let values: Vec<i32> = store.counters().iter().map(|c| c.value.get().unwrap()).collect();
    assert_eq!(values, vec![0, 20, 20]);
    store.decrease(2);
    let values: Vec<i32> = store.counters().iter().map(|c| c.value.get().unwrap()).collect();
    assert_eq!(values, vec![0, 20, 10]);
    let ids: Vec<u32> = store.counters().iter().map(|c| c.id).collect();
    assert_eq!(ids, vec![0, 1, 2]);
}

#[test]
fn store_step_on_unknown_id_is_noop() {
    let mut store = CounterStore::new();
    store.add_counter();
    let notified = store.increase(42);
    assert!(notified.is_empty());
    let notified = store.decrease(42);
    assert!(notified.is_empty());
    assert_eq!(store.counters()[0].value.get(), Ok(0));
}

#[test]
fn store_notifies_registered_dependents() {
    let mut store = CounterStore::new();
    store.add_counter();
    let count = store.track_collection(5);
    assert_eq!(count, 1);
    let notified = store.add_counter();
    assert_eq!(notified, vec![5]);
    let read = store.track_value(0, 9);
    assert_eq!(read, Some(0));
    let notified = store.increase(0);
    assert_eq!(notified, vec![9]);
    assert_eq!(store.get_value(0), Some(10));
    // The collection signal fires on a remove too, even a vacuous one.
    let (_, notified) = store.remove_counter(77);
    assert_eq!(notified, vec![5]);
}
