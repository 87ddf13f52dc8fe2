//! Kernel context: the callee-preserved register set that the raw switch
//! primitive saves and restores when control moves between tasks.
//!
//! The switch primitive itself is out-of-scope assembly; this module fixes
//! the data it operates on.  A task's very first scheduling works by
//! switching into a context whose return address points at the
//! privilege-restore trampoline, so that "returning" enters user mode.

use vstd::prelude::*;

verus! {

/// Saved callee-preserved kernel registers of one task: return address,
/// kernel stack pointer, and the twelve saved registers `s0`..`s11`.
/// The field order is a contract with the switch assembly, which indexes
/// this structure by offset.
#[derive(Copy, Clone, Debug)]
pub struct TaskContext {
    pub ra: usize,
    pub sp: usize,
    pub s: [usize; 12],
}

impl TaskContext {
    /// The zeroed "no previous task" placeholder, used once as the
    /// throwaway source of the very first switch and as the seed of
    /// uninitialized task slots.
    pub fn new_zero() -> (r: Self)
        ensures
            r.ra == 0,
            r.sp == 0,
            forall|i: int| 0 <= i < 12 ==> r.s@[i] == 0,
    {
        TaskContext { ra: 0, sp: 0, s: [0; 12] }
    }

    /// Context whose "return" enters the privilege-restore trampoline at
    /// `restore_entry` on the kernel stack `kstack_ptr`, so that the first
    /// switch into a task lands in user mode.
    pub fn goto_restore(restore_entry: usize, kstack_ptr: usize) -> (r: Self)
        ensures
            r.ra == restore_entry,
            r.sp == kstack_ptr,
            forall|i: int| 0 <= i < 12 ==> r.s@[i] == 0,
    {
        TaskContext { ra: restore_entry, sp: kstack_ptr, s: [0; 12] }
    }
}

} // verus!
