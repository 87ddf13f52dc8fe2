//! Core of a minimal single-core cooperative kernel: a fixed set of
//! pre-loaded tasks is multiplexed onto one hardware thread by a strict
//! round-robin scheduler.  This crate holds the verified scheduling and
//! privilege-context logic; the raw trap/switch assembly, the loader and
//! the timer device are external collaborators whose inputs arrive as
//! plain values.

pub mod config;
pub mod context;
pub mod sync;
pub mod syscall;
pub mod task;
pub mod trap;
