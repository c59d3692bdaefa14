//! Process management system calls.
use vstd::prelude::*;

use crate::addr::{page_ceil, page_floor, VirtAddr};
use crate::config::{MAX_SYSCALL_NUM, PAGE_SIZE};
use crate::memory_set::{
    buffer_mapped, map_range, range_mapped, range_unmapped, unmap_range, write_bytes, MemorySet,
    PageView,
};
use crate::task::{
    task_info_bytes, time_val_bytes, time_val_of, ProgramBreak, TaskInfo, TaskStatus, TimeVal,
    MICROS_PER_SEC, TASK_INFO_SIZE, TIME_VAL_SIZE,
};

verus! {

/// What a system call asks of the scheduler.
#[derive(Clone, Copy, Debug, PartialEq, Eq, Structural)]
pub enum SchedulerRequest {
    /// End the calling task with this exit code and run the next one; the
    /// calling task never resumes.
    ExitCurrentAndRunNext { exit_code: i32 },
    /// Put the calling task back in the ready queue and run the next one.
    SuspendCurrentAndRunNext,
}

/// Permission bits name at least one of read, write and execute, and
/// nothing else.
pub open spec fn port_valid(port: usize) -> bool {
    1 <= port <= 7
}

/// The address space after `mmap(start, len, port)`, and its result.
pub open spec fn mmap_outcome(m: Map<usize, PageView>, start: usize, len: usize, port: usize) -> (
    Map<usize, PageView>,
    isize,
) {
    let s = page_floor(start as int) as usize;
    let e = page_ceil(start + len) as usize;
    if start % PAGE_SIZE != 0 || !port_valid(port) || !range_unmapped(m, s, e) {
        (m, -1isize)
    } else {
        (map_range(m, s, e, port), 0isize)
    }
}

/// The address space after `munmap(start, len)`, and its result.
pub open spec fn munmap_outcome(m: Map<usize, PageView>, start: usize, len: usize) -> (
    Map<usize, PageView>,
    isize,
) {
    let s = page_floor(start as int) as usize;
    let e = page_ceil(start + len) as usize;
    if start % PAGE_SIZE != 0 || !range_mapped(m, s, e) {
        (m, -1isize)
    } else {
        (unmap_range(m, s, e), 0isize)
    }
}

proof fn lemma_port_bits(port: usize)
    ensures
        ((port & !0x7usize) != 0 || (port & 0x7usize) == 0) == !(1 <= port && port <= 7),
{
    assert(((port & !0x7usize) != 0 || (port & 0x7usize) == 0) == !(1 <= port && port <= 7))
        by (bit_vector);
}

/// The calling task exits with `exit_code`: the scheduler is to end it and
/// run the next task.
pub fn sys_exit(exit_code: i32) -> (r: SchedulerRequest)
    ensures
        r == (SchedulerRequest::ExitCurrentAndRunNext { exit_code }),
{
    SchedulerRequest::ExitCurrentAndRunNext { exit_code }
}

/// The calling task gives up the processor; it reads 0 once it runs again.
pub fn sys_yield() -> (r: (SchedulerRequest, isize))
    ensures
        r == (SchedulerRequest::SuspendCurrentAndRunNext, 0isize),
{
    (SchedulerRequest::SuspendCurrentAndRunNext, 0)
}

/// Writes the clock reading `us`, in seconds and microseconds, to the
/// `TimeVal` at `ts` in the calling task's address space. The zone argument
/// `_tz` is ignored.
pub fn sys_get_time(ms: &mut MemorySet, ts: usize, _tz: usize, us: usize) -> (r: isize)
    requires
        old(ms).wf(),
        buffer_mapped(old(ms)@, ts, TIME_VAL_SIZE as nat),
    ensures
        r == 0,
        final(ms).wf(),
        final(ms)@ == write_bytes(old(ms)@, ts, time_val_bytes(time_val_of(us))),
        time_val_of(us).usec < MICROS_PER_SEC,
        time_val_of(us).sec * MICROS_PER_SEC + time_val_of(us).usec == us,
{
    let result = TimeVal::from_micros(us);
    let bytes = result.to_bytes();
    ms.write_user_buffer(ts, bytes.as_slice());
    0
}

/// Writes the calling task's status, syscall counters and running time, as
/// the task bookkeeping reported them, to the `TaskInfo` at `ti`; returns
/// -1 and writes nothing where one of the three is missing.
pub fn sys_task_info(
    ms: &mut MemorySet,
    ti: usize,
    status: Option<TaskStatus>,
    syscall_times: Option<[u32; MAX_SYSCALL_NUM]>,
    running_time: Option<usize>,
) -> (r: isize)
    requires
        old(ms).wf(),
        status is Some && syscall_times is Some && running_time is Some ==> buffer_mapped(
            old(ms)@,
            ti,
            TASK_INFO_SIZE as nat,
        ),
    ensures
        final(ms).wf(),
        match (status, syscall_times, running_time) {
            (Some(status), Some(syscall_times), Some(time)) => {
                &&& r == 0
                &&& final(ms)@ == write_bytes(
                    old(ms)@,
                    ti,
                    task_info_bytes(TaskInfo { status, syscall_times, time }),
                )
            },
            _ => r == -1 && final(ms)@ == old(ms)@,
        },
{
    match (status, syscall_times, running_time) {
        (Some(status), Some(syscall_times), Some(running_time)) => {
            let result = TaskInfo { status, syscall_times, time: running_time };
            let bytes = result.to_bytes();
            ms.write_user_buffer(ti, bytes.as_slice());
            0
        },
        _ => -1,
    }
}

/// Maps fresh zeroed pages over `[start, start + len)` in the calling task's
/// address space with permission bits `port` (read 1, write 2, execute 4).
/// Returns -1, changing nothing, where `start` is not page-aligned, `port`
/// is zero or has a bit above the low three, or a page of the range is
/// mapped already; 0 otherwise.
pub fn sys_mmap(ms: &mut MemorySet, start: usize, len: usize, port: usize) -> (r: isize)
    requires
        old(ms).wf(),
        start + len <= usize::MAX,
    ensures
        final(ms).wf(),
        (final(ms)@, r) == mmap_outcome(old(ms)@, start, len, port),
{
    let start_va = VirtAddr(start);
    if !start_va.aligned() {
        return -1;
    }
    proof {
        lemma_port_bits(port);
    }
    if (port & !0x7) != 0 || (port & 0x7) == 0 {
        return -1;
    }
    let end_va = VirtAddr(start + len);
    let start_vpn = start_va.floor();
    let end_vpn = end_va.ceil();
    if ms.mmap(start_vpn.0, end_vpn.0, port) {
        0
    } else {
        -1
    }
}

/// Unmaps the pages over `[start, start + len)` in the calling task's
/// address space. Returns -1, changing nothing, where `start` is not
/// page-aligned or a page of the range is not mapped; 0 otherwise.
pub fn sys_munmap(ms: &mut MemorySet, start: usize, len: usize) -> (r: isize)
    requires
        old(ms).wf(),
        start + len <= usize::MAX,
    ensures
        final(ms).wf(),
        (final(ms)@, r) == munmap_outcome(old(ms)@, start, len),
{
    let start_va = VirtAddr(start);
    if !start_va.aligned() {
        return -1;
    }
    let start_vpn = start_va.floor();
    let end_va = VirtAddr(start + len);
    let end_vpn = end_va.ceil();
    if ms.munmap(start_vpn.0, end_vpn.0) {
        0
    } else {
        -1
    }
}

/// Moves the calling task's program break by `size` bytes. Returns the
/// previous break, or -1, changing nothing, where the new break would leave
/// `[heap_bottom, limit]`.
pub fn sys_sbrk(pb: &mut ProgramBreak, size: i32) -> (r: isize)
    requires
        old(pb).wf(),
    ensures
        final(pb).wf(),
        final(pb).heap_bottom == old(pb).heap_bottom,
        final(pb).limit == old(pb).limit,
        old(pb).heap_bottom <= old(pb).brk + size <= old(pb).limit ==> r == old(pb).brk
            && final(pb).brk == old(pb).brk + size,
        !(old(pb).heap_bottom <= old(pb).brk + size <= old(pb).limit) ==> r == -1
            && final(pb).brk == old(pb).brk,
{
    if let Some(old_brk) = pb.change_program_brk(size) {
        old_brk as isize
    } else {
        -1
    }
}

/// Mapping a free page-aligned range with valid permission bits and then
/// unmapping it both return 0 and leave the address space as it was, so
/// that mapping the same range again with the same bits returns 0 too.
pub proof fn lemma_map_unmap_cycle(m: Map<usize, PageView>, start: usize, len: usize, port: usize)
    requires
        start % PAGE_SIZE == 0,
        port_valid(port),
        start + len <= usize::MAX,
        range_unmapped(m, page_floor(start as int) as usize, page_ceil(start + len) as usize),
    ensures
        mmap_outcome(m, start, len, port).1 == 0,
        munmap_outcome(mmap_outcome(m, start, len, port).0, start, len) == (m, 0isize),
        mmap_outcome(m, start, len, port) == mmap_outcome(
            munmap_outcome(mmap_outcome(m, start, len, port).0, start, len).0,
            start,
            len,
            port,
        ),
{
    let s = page_floor(start as int) as usize;
    let e = page_ceil(start + len) as usize;
    let m1 = map_range(m, s, e, port);
    assert(range_mapped(m1, s, e));
    assert(unmap_range(m1, s, e) =~= m);
}

/// `mmap` at an address that does not start a page returns -1 and changes
/// nothing, and `munmap` of the same range returns -1 as well.
pub proof fn lemma_misaligned_mmap_maps_nothing(
    m: Map<usize, PageView>,
    start: usize,
    len: usize,
    port: usize,
)
    requires
        start % PAGE_SIZE != 0,
    ensures
        mmap_outcome(m, start, len, port) == (m, -1isize),
        munmap_outcome(m, start, len) == (m, -1isize),
{
}

/// `mmap` with permission bits that are all zero, or that set a bit above
/// the low three, returns -1 and changes nothing.
pub proof fn lemma_invalid_port_refused(m: Map<usize, PageView>, start: usize, len: usize, port: usize)
    requires
        port == 0 || (port & !0x7usize) != 0,
    ensures
        mmap_outcome(m, start, len, port) == (m, -1isize),
{
    lemma_port_bits(port);
}

/// `munmap` of a non-empty range none of whose pages is mapped returns -1
/// and changes nothing.
pub proof fn lemma_munmap_of_unmapped_fails(m: Map<usize, PageView>, start: usize, len: usize)
    requires
        len > 0,
        start + len <= usize::MAX,
        range_unmapped(m, page_floor(start as int) as usize, page_ceil(start + len) as usize),
    ensures
        munmap_outcome(m, start, len) == (m, -1isize),
{
    let s = page_floor(start as int) as usize;
    assert(!m.contains_key(s));
}

} // verus!
