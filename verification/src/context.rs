//! Handles: the opaque identifiers of listeners and connections.

use vstd::prelude::*;

verus! {

/// An opaque identifier. The task hands them out in increasing order and
/// never hands one out twice; clients also use the type for the value that a
/// Request carries and its Confirm reflects.
#[derive(Clone, Copy, Debug, PartialEq, Eq, Structural, Hash)]
pub struct Context(pub usize);

impl View for Context {
    type V = usize;

    open spec fn view(&self) -> usize {
        self.0
    }
}

impl Context {
    /// Wraps a number.
    pub fn new(value: usize) -> (c: Context)
        ensures
            c@ == value,
    {
        Context(value)
    }

    /// The number inside.
    pub fn as_usize(&self) -> (value: usize)
        ensures
            value == self@,
    {
        self.0
    }

    /// Hands out the current value and moves on to the next one.
    pub fn take(&mut self) -> (taken: Context)
        requires
            old(self)@ < usize::MAX,
        ensures
            taken == *old(self),
            final(self)@ == old(self)@ + 1,
    {
        let taken = Context(self.0);
        self.0 = self.0 + 1;
        taken
    }
}

} // verus!
