//! A cell that is filled once, after it is made.

use vstd::prelude::*;

verus! {

/// A value that is set once, some time after the cell is made.
pub struct DeferredCell<T> {
    val: Option<T>,
}

impl<T> DeferredCell<T> {
    /// The value, once it has been set.
    pub closed spec fn value(&self) -> Option<T> {
        self.val
    }

    /// An unset cell.
    pub fn new() -> (r: DeferredCell<T>)
        ensures
            r.value() is None,
    {
        DeferredCell { val: None }
    }

    /// Sets the value of a cell that has not been set yet.
    pub fn set(deferred: &mut DeferredCell<T>, value: T)
        requires
            old(deferred).value() is None,
        ensures
            final(deferred).value() == Some(value),
    {
        deferred.val = Some(value)
    }

    /// The value of a cell that has been set.
    pub fn get(&self) -> (r: &T)
        requires
            self.value() is Some,
        ensures
            *r == self.value()->0,
    {
        self.val.as_ref().unwrap()
    }
}

/// A value set in a cell is what the cell gives back.
pub proof fn lemma_get_after_set<T>(before: DeferredCell<T>, after: DeferredCell<T>, value: T)
    requires
        before.value() is None,
        after.value() == Some(value),
    ensures
        after.value()->0 == value,
{
}

} // verus!
