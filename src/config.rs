//! Kernel-wide constants.
use vstd::prelude::*;

verus! {

/// Size of a page in bytes.
pub const PAGE_SIZE: usize = 0x1000;

/// Number of slots of the per-task syscall counter array.
pub const MAX_SYSCALL_NUM: usize = 500;

/// Syscall identifier of `task_info`.
pub const SYSCALL_TASK_INFO: usize = 410;

} // verus!
