//! The render-error boundary: a two-state machine wrapped around the
//! rendered tree.
//!
//! In the normal state it shows the wrapped content; when a render pass
//! raises, it substitutes a fallback listing every captured error's textual
//! message. A later render pass that completes without raising returns it to
//! the normal state; the boundary never retries by itself, it only reflects
//! the latest render outcome.

use vstd::prelude::*;

verus! {

/// What the boundary currently displays: the wrapped content, or the
/// fallback with the captured error messages.
pub enum BoundaryView<T> {
    Content(T),
    Fallback(Vec<String>),
}

/// The boundary itself; it holds the latest render outcome.
pub struct ErrorBoundary<T> {
    current: BoundaryView<T>,
}

impl<T> ErrorBoundary<T> {
    /// What is displayed now.
    pub closed spec fn shown(self) -> BoundaryView<T> {
        self.current
    }

    /// True while the fallback is displayed.
    pub open spec fn is_failed(self) -> bool {
        self.shown() is Fallback
    }

    /// Starts in the normal state, displaying `initial`.
    pub fn new(initial: T) -> (b: ErrorBoundary<T>)
        ensures
            b.shown() == BoundaryView::Content(initial),
            !b.is_failed(),
    {
        ErrorBoundary { current: BoundaryView::Content(initial) }
    }

    /// Records the outcome of one render pass of the wrapped scope: a pass
    /// that completed shows its content (normal state); a pass that raised
    /// shows the fallback listing exactly the captured error messages.
    pub fn observe(&mut self, outcome: Result<T, Vec<String>>)
        ensures
            match outcome {
                Ok(content) => final(self).shown() == BoundaryView::Content(content),
                Err(errors) => final(self).shown() == BoundaryView::<T>::Fallback(errors),
            },
    {
        match outcome {
            Ok(content) => {
                self.current = BoundaryView::Content(content);
            },
            Err(errors) => {
                self.current = BoundaryView::Fallback(errors);
            },
        }
    }

    /// Read access to what is displayed.
    pub fn view_ref(&self) -> (r: &BoundaryView<T>)
        ensures
            *r == self.shown(),
    {
        &self.current
    }
}

} // verus!
