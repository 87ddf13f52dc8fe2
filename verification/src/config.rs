//! Fixed capacities and syscall identifiers of the kernel core.

use vstd::prelude::*;

verus! {

/// Maximum number of task slots the manager can hold; exceeding it at boot
/// is a fatal kernel condition.
pub const MAX_APP_NUM: usize = 16;

/// Width of the per-task syscall counter table: one slot per recognized
/// syscall identifier.
pub const MAX_SYSCALL_NUM: usize = 500;

/// Identifier of the exit syscall.
pub const SYSCALL_EXIT: usize = 93;

/// Identifier of the yield syscall.
pub const SYSCALL_YIELD: usize = 124;

/// Identifier of the get-time syscall.
pub const SYSCALL_GET_TIME: usize = 169;

/// Identifier of the task-info syscall.
pub const SYSCALL_TASK_INFO: usize = 410;

} // verus!
