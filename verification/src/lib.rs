//! Reactive state model for a page of independent counters.
//!
//! The library holds the core of the page: an observable signal cell
//! ([`signal::Signal`]), a factory for counter records with monotonically
//! assigned identities ([`entity::CounterData`]), an ordered keyed store of
//! those records ([`store::CounterStore`]), a keyed list binding that reuses
//! rendered items whose identity persists across updates
//! ([`binding::ListBinding`]), a render-error boundary
//! ([`boundary::ErrorBoundary`]), and the page wiring that ties them together
//! ([`page::Page`]). The host view layer drives [`page::Page`] with events and
//! displays what the boundary shows.

pub mod binding;
pub mod boundary;
pub mod entity;
pub mod page;
pub mod signal;
pub mod store;
