use process_syscalls::{sys_mmap, sys_munmap, MemorySet, VirtAddr};

#[test]
fn map_two_pages_then_unmap_twice() {
    let mut ms = MemorySet::new();
    assert_eq!(sys_mmap(&mut ms, 0x1000, 0x2000, 0b011), 0);
    assert!(ms.is_mapped(1));
    assert!(ms.is_mapped(2));
    assert!(!ms.is_mapped(3));
    assert_eq!(sys_munmap(&mut ms, 0x1000, 0x2000), 0);
    assert!(!ms.is_mapped(1));
    assert!(!ms.is_mapped(2));
    assert_eq!(sys_munmap(&mut ms, 0x1000, 0x2000), -1);
}

#[test]
fn mmap_misaligned_start_fails() {
    let mut ms = MemorySet::new();
    assert_eq!(sys_mmap(&mut ms, 0x1001, 0x1000, 0b001), -1);
    assert!(!ms.is_mapped(1));
}

#[test]
fn misaligned_mmap_leaves_nothing_to_unmap() {
    let mut ms = MemorySet::new();
    assert_eq!(sys_mmap(&mut ms, 0x5003, 0x3000, 0b111), -1);
    assert_eq!(sys_munmap(&mut ms, 0x5003, 0x3000), -1);
    assert_eq!(sys_munmap(&mut ms, 0x5000, 0x3000), -1);
}

#[test]
fn map_unmap_map_cycle() {
    let mut ms = MemorySet::new();
    for port in 1..=7usize {
        assert_eq!(sys_mmap(&mut ms, 0x10000, 0x1800, port), 0);
        assert_eq!(sys_munmap(&mut ms, 0x10000, 0x1800), 0);
        assert_eq!(sys_mmap(&mut ms, 0x10000, 0x1800, port), 0);
        assert_eq!(sys_munmap(&mut ms, 0x10000, 0x1800), 0);
    }
}

#[test]
fn mmap_rejects_bad_ports() {
    let mut ms = MemorySet::new();
    assert_eq!(sys_mmap(&mut ms, 0x1000, 0x1000, 0), -1);
    assert_eq!(sys_mmap(&mut ms, 0x1000, 0x1000, 0b1000), -1);
    assert_eq!(sys_mmap(&mut ms, 0x1000, 0x1000, 0b1011), -1);
    assert_eq!(sys_mmap(&mut ms, 0x1000, 0x1000, usize::MAX), -1);
    assert!(!ms.is_mapped(1));
}

#[test]
fn munmap_of_never_mapped_range_fails() {
    let mut ms = MemorySet::new();
    assert_eq!(sys_munmap(&mut ms, 0x4000, 0x1000), -1);
    assert_eq!(sys_mmap(&mut ms, 0x1000, 0x1000, 0b001), 0);
    assert_eq!(sys_munmap(&mut ms, 0x4000, 0x1000), -1);
    assert!(ms.is_mapped(1));
}

#[test]
fn munmap_partly_mapped_range_changes_nothing() {
    let mut ms = MemorySet::new();
    assert_eq!(sys_mmap(&mut ms, 0x1000, 0x1000, 0b011), 0);
    assert_eq!(sys_munmap(&mut ms, 0x1000, 0x2000), -1);
    assert!(ms.is_mapped(1));
}

#[test]
fn mmap_overlap_fails_and_changes_nothing() {
    let mut ms = MemorySet::new();
    assert_eq!(sys_mmap(&mut ms, 0x2000, 0x1000, 0b011), 0);
    assert_eq!(sys_mmap(&mut ms, 0x1000, 0x3000, 0b011), -1);
    assert!(!ms.is_mapped(1));
    assert!(ms.is_mapped(2));
    assert!(!ms.is_mapped(3));
}

#[test]
fn mmap_length_rounds_up_to_pages() {
    let mut ms = MemorySet::new();
    assert_eq!(sys_mmap(&mut ms, 0x3000, 1, 0b001), 0);
    assert!(ms.is_mapped(3));
    assert!(!ms.is_mapped(4));
    assert_eq!(sys_mmap(&mut ms, 0x8000, 0x1001, 0b001), 0);
    assert!(ms.is_mapped(8));
    assert!(ms.is_mapped(9));
    assert!(!ms.is_mapped(10));
}

#[test]
fn mmap_of_empty_range_succeeds() {
    let mut ms = MemorySet::new();
    assert_eq!(sys_mmap(&mut ms, 0x1000, 0, 0b001), 0);
    assert!(!ms.is_mapped(1));
}

#[test]
fn virt_addr_floor_ceil() {
    assert!(VirtAddr(0x2000).aligned());
    assert!(!VirtAddr(0x2001).aligned());
    assert_eq!(VirtAddr(0x2fff).floor().0, 2);
    assert_eq!(VirtAddr(0x2000).ceil().0, 2);
    assert_eq!(VirtAddr(0x2001).ceil().0, 3);
    assert_eq!(VirtAddr(0).ceil().0, 0);
    assert_eq!(VirtAddr(usize::MAX).ceil().0, usize::MAX / 0x1000 + 1);
}

#[test]
fn user_buffer_crosses_pages() {
    let mut ms = MemorySet::new();
    assert_eq!(sys_mmap(&mut ms, 0x1000, 0x2000, 0b011), 0);
    let data: Vec<u8> = (1..=10u8).collect();
    assert!(ms.write_user_buffer(0x1ffb, &data));
    assert_eq!(ms.read_user_buffer(0x1ffb, 10), Some(data));
    assert_eq!(ms.read_user_buffer(0x1ffa, 1), Some(vec![0]));
    assert_eq!(ms.read_user_buffer(0x2005, 1), Some(vec![0]));
}

#[test]
fn user_buffer_on_unmapped_page_fails() {
    let mut ms = MemorySet::new();
    assert_eq!(sys_mmap(&mut ms, 0x1000, 0x1000, 0b011), 0);
    assert!(!ms.write_user_buffer(0x1ffe, &[7, 7, 7, 7]));
    assert_eq!(ms.read_user_buffer(0x1ffe, 2), Some(vec![0, 0]));
    assert_eq!(ms.read_user_buffer(0x1ffe, 4), None);
    assert!(!ms.write_user_buffer(usize::MAX, &[1, 2]));
}
