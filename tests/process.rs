use process_syscalls::config::SYSCALL_TASK_INFO;
use process_syscalls::{
    count_syscall, sys_exit, sys_get_time, sys_mmap, sys_sbrk, sys_task_info, sys_yield,
    MemorySet, ProgramBreak, SchedulerRequest, TaskStatus, TimeVal,
};

fn word(bytes: &[u8], at: usize) -> u64 {
    let mut b = [0u8; 8];
    b.copy_from_slice(&bytes[at..at + 8]);
    u64::from_le_bytes(b)
}

fn half(bytes: &[u8], at: usize) -> u32 {
    let mut b = [0u8; 4];
    b.copy_from_slice(&bytes[at..at + 4]);
    u32::from_le_bytes(b)
}

#[test]
fn exit_asks_scheduler_to_end_task() {
    assert_eq!(sys_exit(7), SchedulerRequest::ExitCurrentAndRunNext { exit_code: 7 });
    assert_eq!(sys_exit(-1), SchedulerRequest::ExitCurrentAndRunNext { exit_code: -1 });
}

#[test]
fn yield_returns_zero() {
    assert_eq!(sys_yield(), (SchedulerRequest::SuspendCurrentAndRunNext, 0));
}

#[test]
fn time_val_splits_micros() {
    assert_eq!(TimeVal::from_micros(3_500_123), TimeVal { sec: 3, usec: 500_123 });
    assert_eq!(TimeVal::from_micros(999_999), TimeVal { sec: 0, usec: 999_999 });
    assert_eq!(TimeVal::from_micros(1_000_000), TimeVal { sec: 1, usec: 0 });
    let t = TimeVal::from_micros(usize::MAX);
    assert!(t.usec < 1_000_000);
    assert_eq!(t.sec * 1_000_000 + t.usec, usize::MAX);
}

#[test]
fn get_time_writes_record() {
    let mut ms = MemorySet::new();
    assert_eq!(sys_mmap(&mut ms, 0x1000, 0x1000, 0b011), 0);
    assert_eq!(sys_get_time(&mut ms, 0x1100, 0, 12_345_678), 0);
    let bytes = ms.read_user_buffer(0x1100, 16).unwrap();
    assert_eq!(word(&bytes, 0), 12);
    assert_eq!(word(&bytes, 8), 345_678);
}

#[test]
fn get_time_record_split_across_pages() {
    let mut ms = MemorySet::new();
    assert_eq!(sys_mmap(&mut ms, 0x1000, 0x2000, 0b011), 0);
    assert_eq!(sys_get_time(&mut ms, 0x1ffc, 99, 2_000_001), 0);
    let bytes = ms.read_user_buffer(0x1ffc, 16).unwrap();
    assert_eq!(word(&bytes, 0), 2);
    assert_eq!(word(&bytes, 8), 1);
}

#[test]
fn task_info_missing_data_fails_without_write() {
    let mut ms = MemorySet::new();
    assert_eq!(sys_mmap(&mut ms, 0x1000, 0x1000, 0b011), 0);
    let times = [0u32; 500];
    assert_eq!(sys_task_info(&mut ms, 0x1000, None, Some(times), Some(5)), -1);
    assert_eq!(sys_task_info(&mut ms, 0x1000, Some(TaskStatus::Running), None, Some(5)), -1);
    assert_eq!(sys_task_info(&mut ms, 0x1000, Some(TaskStatus::Running), Some(times), None), -1);
    assert_eq!(ms.read_user_buffer(0x1000, 0x1000), Some(vec![0u8; 0x1000]));
}

#[test]
fn task_info_writes_record() {
    let mut ms = MemorySet::new();
    assert_eq!(sys_mmap(&mut ms, 0x1000, 0x1000, 0b011), 0);
    let mut times = [0u32; 500];
    count_syscall(&mut times, 64);
    count_syscall(&mut times, 64);
    count_syscall(&mut times, SYSCALL_TASK_INFO);
    assert_eq!(
        sys_task_info(&mut ms, 0x1010, Some(TaskStatus::Running), Some(times), Some(42)),
        0
    );
    let bytes = ms.read_user_buffer(0x1010, 2016).unwrap();
    assert_eq!(bytes[0], 2);
    assert_eq!(&bytes[1..4], &[0, 0, 0]);
    assert_eq!(half(&bytes, 4 + 4 * 64), 2);
    assert_eq!(half(&bytes, 4 + 4 * SYSCALL_TASK_INFO), 1);
    assert_eq!(half(&bytes, 4), 0);
    assert_eq!(word(&bytes, 2008), 42);
}

#[test]
fn task_info_record_reports_its_own_call() {
    let mut ms = MemorySet::new();
    assert_eq!(sys_mmap(&mut ms, 0x1000, 0x2000, 0b011), 0);
    let mut times = [0u32; 500];
    count_syscall(&mut times, SYSCALL_TASK_INFO);
    assert_eq!(
        sys_task_info(&mut ms, 0x1800, Some(TaskStatus::Ready), Some(times), Some(0)),
        0
    );
    let bytes = ms.read_user_buffer(0x1800, 2016).unwrap();
    assert!(half(&bytes, 4 + 4 * SYSCALL_TASK_INFO) >= 1);
}

#[test]
fn count_syscall_saturates() {
    let mut times = [0u32; 500];
    times[3] = u32::MAX;
    count_syscall(&mut times, 3);
    assert_eq!(times[3], u32::MAX);
    count_syscall(&mut times, 4);
    assert_eq!(times[4], 1);
}

#[test]
fn sbrk_moves_break() {
    let mut pb = ProgramBreak::new(0x10000, 0x20000);
    assert_eq!(sys_sbrk(&mut pb, 0x100), 0x10000);
    assert_eq!(pb.brk, 0x10100);
    assert_eq!(sys_sbrk(&mut pb, -0x80), 0x10100);
    assert_eq!(pb.brk, 0x10080);
    assert_eq!(sys_sbrk(&mut pb, 0), 0x10080);
}

#[test]
fn sbrk_refuses_out_of_bounds() {
    let mut pb = ProgramBreak::new(0x10000, 0x20000);
    assert_eq!(sys_sbrk(&mut pb, -1), -1);
    assert_eq!(pb.brk, 0x10000);
    assert_eq!(sys_sbrk(&mut pb, 0x10001), -1);
    assert_eq!(pb.brk, 0x10000);
    assert_eq!(sys_sbrk(&mut pb, 0x10000), 0x10000);
    assert_eq!(pb.brk, 0x20000);
}
