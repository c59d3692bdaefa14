//! The records a task reads about itself, with their byte layout in user
//! memory, and the task bookkeeping the system calls consult.
use vstd::prelude::*;

use crate::codec::{le_bytes, push_le, push_zeros, zero_bytes};
use crate::config::{MAX_SYSCALL_NUM, SYSCALL_TASK_INFO};

verus! {

/// Microseconds in a second.
pub const MICROS_PER_SEC: usize = 1_000_000;

/// Size in bytes of a `TimeVal` in user memory.
pub const TIME_VAL_SIZE: usize = 16;

/// Size in bytes of a `TaskInfo` in user memory.
pub const TASK_INFO_SIZE: usize = 2016;

/// A wall-clock reading split into whole seconds and residual microseconds.
#[derive(Clone, Copy, Debug, PartialEq, Eq, Structural)]
pub struct TimeVal {
    pub sec: usize,
    pub usec: usize,
}

/// The `TimeVal` of a clock reading of `us` microseconds.
pub open spec fn time_val_of(us: usize) -> TimeVal {
    TimeVal { sec: us / MICROS_PER_SEC, usec: us % MICROS_PER_SEC }
}

/// A `TimeVal` in user memory: seconds, then microseconds, each eight bytes
/// little-endian.
pub open spec fn time_val_bytes(t: TimeVal) -> Seq<u8> {
    le_bytes(t.sec as nat, 8) + le_bytes(t.usec as nat, 8)
}

impl TimeVal {
    /// Splits a reading of `us` microseconds.
    pub fn from_micros(us: usize) -> (r: TimeVal)
        ensures
            r == time_val_of(us),
            r.usec < MICROS_PER_SEC,
            r.sec * MICROS_PER_SEC + r.usec == us,
    {
        TimeVal { sec: us / MICROS_PER_SEC, usec: us % MICROS_PER_SEC }
    }

    /// The record's image in user memory.
    pub fn to_bytes(&self) -> (r: Vec<u8>)
        ensures
            r@ == time_val_bytes(*self),
            r@.len() == TIME_VAL_SIZE,
    {
        let mut out: Vec<u8> = Vec::new();
        push_le(&mut out, self.sec as u64, 8);
        push_le(&mut out, self.usec as u64, 8);
        assert(out@ =~= time_val_bytes(*self));
        proof {
            lemma_le_bytes_len(self.sec as nat, 8);
            lemma_le_bytes_len(self.usec as nat, 8);
        }
        out
    }
}

/// `le_bytes(x, n)` has `n` bytes.
pub proof fn lemma_le_bytes_len(x: nat, n: nat)
    ensures
        le_bytes(x, n).len() == n,
    decreases n,
{
    if n > 0 {
        lemma_le_bytes_len(x / 256, (n - 1) as nat);
    }
}

/// Where a task stands in its life cycle.
#[derive(Clone, Copy, Debug, PartialEq, Eq, Structural)]
pub enum TaskStatus {
    UnInit,
    Ready,
    Running,
    Exited,
}

/// The byte that stands for a status in user memory.
pub open spec fn status_code(s: TaskStatus) -> u8 {
    match s {
        TaskStatus::UnInit => 0,
        TaskStatus::Ready => 1,
        TaskStatus::Running => 2,
        TaskStatus::Exited => 3,
    }
}

impl TaskStatus {
    /// The byte that stands for the status in user memory.
    pub fn code(&self) -> (r: u8)
        ensures
            r == status_code(*self),
    {
        match self {
            TaskStatus::UnInit => 0,
            TaskStatus::Ready => 1,
            TaskStatus::Running => 2,
            TaskStatus::Exited => 3,
        }
    }
}

/// What a task learns about itself: its status, how often it has made each
/// system call, and how long it has run.
#[derive(Clone, Copy)]
pub struct TaskInfo {
    pub status: TaskStatus,
    pub syscall_times: [u32; MAX_SYSCALL_NUM],
    pub time: usize,
}

/// The counters in user memory: four bytes little-endian each, in order.
pub open spec fn counts_bytes(s: Seq<u32>) -> Seq<u8>
    decreases s.len(),
{
    if s.len() == 0 {
        Seq::empty()
    } else {
        counts_bytes(s.drop_last()) + le_bytes(s.last() as nat, 4)
    }
}

/// A `TaskInfo` in user memory: the status byte and three bytes of padding,
/// the counters, four bytes of padding, then the running time in eight bytes
/// little-endian.
pub open spec fn task_info_bytes(t: TaskInfo) -> Seq<u8> {
    seq![status_code(t.status)] + zero_bytes(3) + counts_bytes(t.syscall_times@) + zero_bytes(4)
        + le_bytes(t.time as nat, 8)
}

impl TaskInfo {
    /// The record's image in user memory.
    pub fn to_bytes(&self) -> (r: Vec<u8>)
        ensures
            r@ == task_info_bytes(*self),
            r@.len() == TASK_INFO_SIZE,
    {
        let mut out: Vec<u8> = Vec::new();
        out.push(self.status.code());
        push_zeros(&mut out, 3);
        let ghost head = out@;
        let mut k: usize = 0;
        assert(self.syscall_times@.take(0) =~= Seq::<u32>::empty());
        assert(head + counts_bytes(Seq::<u32>::empty()) =~= head);
        while k < MAX_SYSCALL_NUM
            invariant
                k <= MAX_SYSCALL_NUM,
                out@ == head + counts_bytes(self.syscall_times@.take(k as int)),
            decreases MAX_SYSCALL_NUM - k,
        {
            let ghost prev = out@;
            push_le(&mut out, self.syscall_times[k] as u64, 4);
            proof {
                let s = self.syscall_times@;
                assert(s.take(k + 1).drop_last() =~= s.take(k as int));
                assert(out@ =~= head + counts_bytes(s.take(k + 1)));
            }
            k = k + 1;
        }
        assert(self.syscall_times@.take(MAX_SYSCALL_NUM as int) =~= self.syscall_times@);
        push_zeros(&mut out, 4);
        push_le(&mut out, self.time as u64, 8);
        assert(out@ =~= task_info_bytes(*self));
        proof {
            lemma_counts_bytes_len(self.syscall_times@);
            lemma_le_bytes_len(self.time as nat, 8);
        }
        out
    }
}

/// `counts_bytes(s)` has four bytes for each counter.
pub proof fn lemma_counts_bytes_len(s: Seq<u32>)
    ensures
        counts_bytes(s).len() == 4 * s.len(),
    decreases s.len(),
{
    if s.len() > 0 {
        lemma_counts_bytes_len(s.drop_last());
        lemma_le_bytes_len(s.last() as nat, 4);
    }
}

/// `counts` after one more call of system call `id`; a counter that is
/// full stays full.
pub open spec fn counted(counts: Seq<u32>, id: int) -> Seq<u32> {
    counts.update(id, if counts[id] < u32::MAX { (counts[id] + 1) as u32 } else { u32::MAX })
}

/// Records one call of system call `id` in a task's counters.
pub fn count_syscall(syscall_times: &mut [u32; MAX_SYSCALL_NUM], id: usize)
    requires
        id < MAX_SYSCALL_NUM,
    ensures
        final(syscall_times)@ == counted(old(syscall_times)@, id as int),
{
    let c = syscall_times[id];
    syscall_times[id] = if c < u32::MAX { c + 1 } else { u32::MAX };
}

/// A task's program break: the top of its heap, which may move between the
/// heap's base and a limit.
pub struct ProgramBreak {
    pub heap_bottom: usize,
    pub brk: usize,
    pub limit: usize,
}

impl ProgramBreak {
    /// The break lies between base and limit, and the limit fits a signed
    /// result.
    pub open spec fn wf(&self) -> bool {
        self.heap_bottom <= self.brk <= self.limit <= isize::MAX
    }

    /// A heap of no bytes at `heap_bottom`, that may grow up to `limit`.
    pub fn new(heap_bottom: usize, limit: usize) -> (r: ProgramBreak)
        requires
            heap_bottom <= limit <= isize::MAX,
        ensures
            r.wf(),
            r.heap_bottom == heap_bottom,
            r.brk == heap_bottom,
            r.limit == limit,
    {
        ProgramBreak { heap_bottom, brk: heap_bottom, limit }
    }

    /// Moves the break by `size` bytes and returns where it was, or returns
    /// `None`, changing nothing, where it would leave `[heap_bottom, limit]`.
    pub fn change_program_brk(&mut self, size: i32) -> (r: Option<usize>)
        requires
            old(self).wf(),
        ensures
            final(self).wf(),
            final(self).heap_bottom == old(self).heap_bottom,
            final(self).limit == old(self).limit,
            old(self).heap_bottom <= old(self).brk + size <= old(self).limit ==> r == Some(
                old(self).brk,
            ) && final(self).brk == old(self).brk + size,
            !(old(self).heap_bottom <= old(self).brk + size <= old(self).limit) ==> r is None
                && final(self).brk == old(self).brk,
    {
        let old_brk = self.brk;
        let new_brk: i128 = self.brk as i128 + size as i128;
        if new_brk < self.heap_bottom as i128 || new_brk > self.limit as i128 {
            return None;
        }
        self.brk = new_brk as usize;
        Some(old_brk)
    }
}

/// Counter `k` sits at bytes `4 * k .. 4 * k + 4` of `counts_bytes(s)`.
pub proof fn lemma_counts_bytes_at(s: Seq<u32>, k: int)
    requires
        0 <= k < s.len(),
    ensures
        counts_bytes(s).subrange(4 * k, 4 * k + 4) == le_bytes(s[k] as nat, 4),
    decreases s.len(),
{
    let init = s.drop_last();
    lemma_counts_bytes_len(init);
    lemma_le_bytes_len(s.last() as nat, 4);
    if k == s.len() - 1 {
        assert(counts_bytes(s).subrange(4 * k, 4 * k + 4) =~= le_bytes(s[k] as nat, 4));
    } else {
        lemma_counts_bytes_at(init, k);
        assert(counts_bytes(s).subrange(4 * k, 4 * k + 4) =~= counts_bytes(init).subrange(
            4 * k,
            4 * k + 4,
        ));
    }
}

/// Once the current `task_info` call is counted, the record handed to the
/// task shows at least one `task_info` call: the counter is at least 1,
/// and its four bytes in the record's image are that counter.
pub proof fn lemma_task_info_counts_itself(
    status: TaskStatus,
    before: [u32; MAX_SYSCALL_NUM],
    after: [u32; MAX_SYSCALL_NUM],
    time: usize,
)
    requires
        after@ == counted(before@, SYSCALL_TASK_INFO as int),
    ensures
        after@[SYSCALL_TASK_INFO as int] >= 1,
        after@[SYSCALL_TASK_INFO as int] >= before@[SYSCALL_TASK_INFO as int],
        task_info_bytes(TaskInfo { status, syscall_times: after, time }).subrange(
            4 + 4 * SYSCALL_TASK_INFO,
            8 + 4 * SYSCALL_TASK_INFO,
        ) == le_bytes(after@[SYSCALL_TASK_INFO as int] as nat, 4),
{
    let k = SYSCALL_TASK_INFO as int;
    let cb = counts_bytes(after@);
    lemma_counts_bytes_len(after@);
    lemma_counts_bytes_at(after@, k);
    let img = task_info_bytes(TaskInfo { status, syscall_times: after, time });
    let head = seq![status_code(status)] + zero_bytes(3);
    assert(head.len() == 4);
    assert(img.subrange(4 + 4 * k, 8 + 4 * k) =~= cb.subrange(4 * k, 4 * k + 4));
}

} // verus!
