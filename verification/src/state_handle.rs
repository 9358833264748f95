//! The reactive cell: a plain observable value box.
//!
//! The UI framework's state cell is modelled as a value together with a
//! ghost version counter.  Every write bumps the version, which stands for
//! "dependents were told to recompute"; equality-based suppression of
//! redundant recomputation is the cell's consumer's business, never the
//! writer's, so a write bumps the version even when the value is unchanged.

use vstd::prelude::*;

verus! {

/// An observable single-value cell.
///
/// `spec_version()` counts how many times the cell has been written; a
/// contract that promises a bump promises that dependents were signalled.
pub struct UseStateHandle<T> {
    value: T,
    version: Ghost<int>,
}

impl<T> UseStateHandle<T> {
    /// The value currently held.
    pub closed spec fn spec_value(&self) -> T {
        self.value
    }

    /// How many times the cell has been written since construction.
    pub closed spec fn spec_version(&self) -> int {
        self.version@
    }

    /// Make a cell holding `value`, with no writes recorded yet.
    pub fn new(value: T) -> (h: Self)
        ensures
            h.spec_value() == value,
            h.spec_version() == 0,
    {
        UseStateHandle { value, version: Ghost(0) }
    }

    /// Borrow the current value.
    pub fn get(&self) -> (v: &T)
        ensures
            *v == self.spec_value(),
    {
        &self.value
    }

    /// Replace the value and signal dependents, unconditionally.
    pub fn set(&mut self, value: T)
        ensures
            final(self).spec_value() == value,
            final(self).spec_version() == old(self).spec_version() + 1,
    {
        self.value = value;
        self.version = Ghost(self.version@ + 1);
    }
}

} // verus!
