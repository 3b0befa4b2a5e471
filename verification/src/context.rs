//! The state of a cancellation: a flag that, once raised, stays raised.

use vstd::prelude::*;

verus! {

/// What the holders of a context share: whether it has been cancelled.
#[derive(Debug)]
pub struct ContextInner {
    cancelled: bool,
}

impl ContextInner {
    /// Whether the context has been cancelled.
    pub closed spec fn cancelled(&self) -> bool {
        self.cancelled
    }

    /// A context that has not been cancelled.
    pub fn new() -> (context: Self)
        ensures
            !context.cancelled(),
    {
        ContextInner { cancelled: false }
    }

    /// Cancel the context.
    pub fn cancel(&mut self)
        ensures
            final(self).cancelled(),
    {
        self.cancelled = true;
    }

    /// Returns true iff the context has been cancelled.
    pub fn is_cancelled(&self) -> (cancelled: bool)
        ensures
            cancelled == self.cancelled(),
    {
        self.cancelled
    }
}

} // verus!
