//! Single-core exclusive cell.
//!
//! On a machine with exactly one execution context there is no lock to
//! take: correctness of shared kernel state rests on the discipline that
//! at most one mutable access path to it is alive at a time, and that no
//! such access is held across a context switch.  Here that discipline is
//! not a runtime check but the borrow rule itself: `as_mut` demands
//! exclusive access to the cell, so a second live access cannot be
//! obtained at all.

use vstd::prelude::*;

verus! {

/// Wrapper granting exclusive mutable access to shared kernel state.
pub struct UPSafeCell<T> {
    inner: T,
}

impl<T> View for UPSafeCell<T> {
    type V = T;

    closed spec fn view(&self) -> T {
        self.inner
    }
}

impl<T> UPSafeCell<T> {
    /// Wraps `inner` in a fresh cell.
    pub fn new(inner: T) -> (r: Self)
        ensures
            r@ == inner,
    {
        UPSafeCell { inner }
    }

    /// Grants mutable access to the wrapped value.  The borrow ends, and
    /// with it the exclusive access, before control can leave to another
    /// task.
    pub fn as_mut(&mut self) -> (r: &mut T)
        ensures
            *r == old(self)@,
            final(self)@ == *final(r),
    {
        &mut self.inner
    }
}

} // verus!
