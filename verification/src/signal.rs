//! The signal primitive: an observable value cell with separate read and
//! write operations, a subscription mechanism, and explicit disposal.
//!
//! A write is immediately visible to subsequent reads and synchronously
//! yields the set of dependents to notify (the caller re-evaluates exactly
//! those rendering scopes). After disposal every read or write surfaces
//! [`SignalError::Disposed`] instead of silently doing nothing, so a dangling
//! reference to a removed entity is reported, never swallowed.

use vstd::prelude::*;

verus! {

/// Error raised by lifecycle misuse: reading or writing a signal that has
/// already been disposed.
#[derive(Clone, Copy, PartialEq, Eq, Structural, Debug)]
pub enum SignalError {
    Disposed,
}

/// An observable value cell. Dependents are identified by `u64` keys; a
/// tracked read registers the reader's key, and a write reports every
/// registered key so the caller can re-evaluate those dependents.
pub struct Signal<T> {
    value: T,
    disposed: bool,
    subscribers: Vec<u64>,
}

impl<T> Signal<T> {
    /// The value most recently committed to the cell.
    pub closed spec fn spec_value(self) -> T {
        self.value
    }

    /// True until the cell is disposed.
    pub closed spec fn is_live(self) -> bool {
        !self.disposed
    }

    /// The keys of the currently registered dependents, in registration order.
    pub closed spec fn subs(self) -> Seq<u64> {
        self.subscribers@
    }

    /// Creates a live cell holding `initial`, with no dependents.
    pub fn new(initial: T) -> (s: Signal<T>)
        ensures
            s.is_live(),
            s.spec_value() == initial,
            s.subs() == Seq::<u64>::empty(),
    {
        Signal { value: initial, disposed: false, subscribers: Vec::new() }
    }

    /// Reads the current value without registering a dependent.
    pub fn read(&self) -> (r: Result<&T, SignalError>)
        ensures
            match r {
                Ok(v) => self.is_live() && *v == self.spec_value(),
                Err(e) => !self.is_live() && e == SignalError::Disposed,
            },
    {
        if self.disposed {
            Err(SignalError::Disposed)
        } else {
            Ok(&self.value)
        }
    }

    /// Replaces the value and hands back the keys of every dependent that
    /// must now re-evaluate (synchronous notification). Fails on a disposed
    /// cell, leaving it unchanged.
    pub fn write(&mut self, new_value: T) -> (r: Result<Vec<u64>, SignalError>)
        ensures
            match r {
                Ok(notified) => {
                    &&& old(self).is_live()
                    &&& final(self).is_live()
                    &&& final(self).spec_value() == new_value
                    &&& final(self).subs() == old(self).subs()
                    &&& notified@ == old(self).subs()
                },
                Err(e) => {
                    &&& !old(self).is_live()
                    &&& e == SignalError::Disposed
                    &&& *final(self) == *old(self)
                },
            },
    {
        if self.disposed {
            Err(SignalError::Disposed)
        } else {
            self.value = new_value;
            Ok(copy_keys(&self.subscribers))
        }
    }

    /// Detaches every dependent and marks the cell disposed: no further
    /// notification fires, and subsequent reads and writes fail.
    pub fn dispose(&mut self)
        ensures
            !final(self).is_live(),
            final(self).subs() == Seq::<u64>::empty(),
    {
        self.disposed = true;
        self.subscribers = Vec::new();
    }
}

impl<T: Copy> Signal<T> {
    /// Reads the current value by copy, without registering a dependent.
    pub fn get(&self) -> (r: Result<T, SignalError>)
        ensures
            match r {
                Ok(v) => self.is_live() && v == self.spec_value(),
                Err(e) => !self.is_live() && e == SignalError::Disposed,
            },
    {
        if self.disposed {
            Err(SignalError::Disposed)
        } else {
            Ok(self.value)
        }
    }

    /// Reads the current value from inside a reactive scope, registering
    /// `subscriber` as a dependent (at most once). Fails on a disposed cell,
    /// leaving it unchanged.
    pub fn read_tracked(&mut self, subscriber: u64) -> (r: Result<T, SignalError>)
        ensures
            match r {
                Ok(v) => {
                    &&& old(self).is_live()
                    &&& v == old(self).spec_value()
                    &&& final(self).is_live()
                    &&& final(self).spec_value() == old(self).spec_value()
                    &&& final(self).subs() == if old(self).subs().contains(subscriber) {
                        old(self).subs()
                    } else {
                        old(self).subs().push(subscriber)
                    }
                },
                Err(e) => {
                    &&& !old(self).is_live()
                    &&& e == SignalError::Disposed
                    &&& *final(self) == *old(self)
                },
            },
    {
        if self.disposed {
            Err(SignalError::Disposed)
        } else {
            if !contains_key(&self.subscribers, subscriber) {
                self.subscribers.push(subscriber);
            }
            Ok(self.value)
        }
    }
}

/// True exactly when `keys` holds `key`.
fn contains_key(keys: &Vec<u64>, key: u64) -> (b: bool)
    ensures
        b == keys@.contains(key),
{
    let mut i: usize = 0;
    while i < keys.len()
        invariant
            i <= keys@.len(),
            forall|j: int| 0 <= j < i ==> keys@[j] != key,
        decreases keys@.len() - i,
    {
        if keys[i] == key {
            return true;
        }
        i = i + 1;
    }
    false
}

/// Copies a list of dependent keys.
fn copy_keys(keys: &Vec<u64>) -> (r: Vec<u64>)
    ensures
        r@ == keys@,
{
    let mut out: Vec<u64> = Vec::new();
    let mut i: usize = 0;
    while i < keys.len()
        invariant
            i <= keys@.len(),
            out@ == keys@.subrange(0, i as int),
        decreases keys@.len() - i,
    {
        out.push(keys[i]);
        proof {
            assert(out@ =~= keys@.subrange(0, (i + 1) as int));
        }
        i = i + 1;
    }
    proof {
        assert(out@ =~= keys@);
    }
    out
}

} // verus!
