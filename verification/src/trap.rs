//! Privilege context: the register image loaded and stored verbatim by the
//! trap trampoline whenever control crosses between user and kernel mode.
//!
//! The supervisor status register is hardware state; only its raw bits and
//! the "previous privilege" field that the scheduler manipulates are
//! modeled here.  Reading the live register is left to the hardware edge,
//! which hands its bits in as a plain value.

use vstd::prelude::*;

verus! {

/// Bit of the supervisor status register holding the previous privilege
/// mode (clear for user mode, set for supervisor mode).
pub const SPP_BIT: usize = 0x100;

/// Previous privilege mode recorded in the status register: the mode the
/// hardware returns to when leaving the kernel.
#[derive(Copy, Clone, PartialEq, Eq, Structural, Debug)]
pub enum SPP {
    User,
    Supervisor,
}

/// Supervisor status register image, kept as raw bits so that the
/// trampoline can store it verbatim.
#[derive(Copy, Clone, PartialEq, Eq, Structural, Debug)]
pub struct Sstatus {
    pub bits: usize,
}

impl Sstatus {
    /// Previous privilege mode encoded in these bits.
    pub open spec fn spec_spp(self) -> SPP {
        if self.bits & SPP_BIT == 0 {
            SPP::User
        } else {
            SPP::Supervisor
        }
    }

    /// Reads the previous-privilege field.
    pub fn spp(&self) -> (r: SPP)
        ensures
            r == self.spec_spp(),
    {
        if self.bits & SPP_BIT == 0 {
            SPP::User
        } else {
            SPP::Supervisor
        }
    }

    /// Overwrites the previous-privilege field, leaving every other bit of
    /// the register unchanged.
    pub fn set_spp(&mut self, spp: SPP)
        ensures
            final(self).spec_spp() == spp,
            (final(self).bits == if spp == SPP::User {
                old(self).bits & !SPP_BIT
            } else {
                old(self).bits | SPP_BIT
            }),
    {
        let b = self.bits;
        match spp {
            SPP::User => {
                self.bits = b & !SPP_BIT;
                assert((b & !0x100usize) & 0x100usize == 0) by (bit_vector);
            },
            SPP::Supervisor => {
                self.bits = b | SPP_BIT;
                assert((b | 0x100usize) & 0x100usize != 0) by (bit_vector);
            },
        }
    }
}

/// Full register snapshot used when entering or leaving user mode: the 32
/// general-purpose registers, the supervisor status image, and the resume
/// program counter.  Field order and offsets are a contract with the trap
/// trampoline, which indexes this structure by offset.
#[derive(Copy, Clone, Debug)]
pub struct TrapContext {
    pub x: [usize; 32],
    pub sstatus: Sstatus,
    pub sepc: usize,
}

impl TrapContext {
    /// Overwrites only the stack-pointer register (`x2`).
    pub fn set_sp(&mut self, sp: usize)
        ensures
            final(self).x@ == old(self).x@.update(2, sp),
            final(self).sstatus == old(self).sstatus,
            final(self).sepc == old(self).sepc,
    {
        self.x[2] = sp;
    }

    /// Builds the initial context of an application: resume address at its
    /// entry point, stack pointer set, previous privilege mode marked user
    /// so that the restore trampoline drops into user mode, and every
    /// other general register zeroed.  `sstatus` carries the bits of the
    /// live status register, read at the hardware edge.
    pub fn app_init_context(entry: usize, sp: usize, sstatus: Sstatus) -> (r: Self)
        ensures
            r.sepc == entry,
            r.x@[2] == sp,
            forall|i: int| 0 <= i < 32 && i != 2 ==> r.x@[i] == 0,
            r.sstatus.spec_spp() == SPP::User,
            r.sstatus.bits == sstatus.bits & !SPP_BIT,
    {
        let mut sstatus = sstatus;
        sstatus.set_spp(SPP::User);
        let mut cx = TrapContext { x: [0; 32], sstatus, sepc: entry };
        cx.set_sp(sp);
        cx
    }
}

} // verus!
