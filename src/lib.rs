//! The process-facing system calls of a small teaching kernel: task exit and
//! yield, wall-clock time, per-task introspection, anonymous memory mapping
//! and unmapping, and program-break adjustment.
//!
//! Every call takes the state it works on as an explicit argument (the
//! calling task's address space, its program break, a clock reading, the
//! task's bookkeeping), so that each contract states the whole effect of a
//! call on that state.
pub mod codec;
pub mod config;
pub mod addr;
pub mod memory_set;
pub mod process;
pub mod task;

pub use crate::addr::{VirtAddr, VirtPageNum};
pub use crate::memory_set::MemorySet;
pub use crate::process::{
    sys_exit, sys_get_time, sys_mmap, sys_munmap, sys_sbrk, sys_task_info, sys_yield,
    SchedulerRequest,
};
pub use crate::task::{count_syscall, ProgramBreak, TaskInfo, TaskStatus, TimeVal};
