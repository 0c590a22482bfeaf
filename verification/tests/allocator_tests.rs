use bulldog::allocator::align_up;
use bulldog::allocator::fixed_size_block::{block_sizes, list_index, list_index_for};
use bulldog::allocator::linked_list::{LinkedListAllocator, ListNode};
use bulldog::errno::{err, EINVAL, ENOMEM};
use bulldog::kernel::Kernel;
use bulldog::syscall::dispatcher::dispatch;
use bulldog::syscall::heap::{sys_alloc, sys_alloc_trampoline, sys_free, sys_free_trampoline};
use bulldog::syscall::table::{SYS_ALLOC, SYS_FREE};
use bulldog::usermem::UserMemory;

const HEAP: u64 = 0x4444_4444_0000;

fn heap(size: u64) -> LinkedListAllocator {
    let mut a = LinkedListAllocator::new();
    assert!(a.init(HEAP, size));
    a
}

#[test]
fn align_up_rounds_to_the_next_multiple() {
    assert_eq!(align_up(0, 8), 0);
    assert_eq!(align_up(1, 8), 8);
    assert_eq!(align_up(8, 8), 8);
    assert_eq!(align_up(9, 8), 16);
    assert_eq!(align_up(0x1001, 0x1000), 0x2000);
    assert_eq!(align_up(0x4444_4444_0000, 1024), 0x4444_4444_0000);
    assert_eq!(align_up(5, 1), 5);
    assert_eq!(align_up(u64::MAX - 7, 8), u64::MAX - 7);
}

#[test]
fn size_classes_are_the_powers_of_two_from_8_to_4096() {
    assert_eq!(block_sizes(), [8, 16, 32, 64, 128, 256, 512, 1024, 2048, 4096]);
    assert_eq!(list_index(1, 1), Some(0));
    assert_eq!(list_index(8, 8), Some(0));
    assert_eq!(list_index(9, 8), Some(1));
    assert_eq!(list_index(8, 64), Some(3));
    assert_eq!(list_index(4096, 8), Some(9));
    assert_eq!(list_index(4097, 8), None);
    assert_eq!(list_index(8, 8192), None);
    assert_eq!(list_index(0, 0), Some(0));
    assert_eq!(list_index_for(8), Some(0));
    assert_eq!(list_index_for(4096), Some(9));
    assert_eq!(list_index_for(128), Some(4));
    assert_eq!(list_index_for(100), None);
    assert_eq!(list_index_for(0), None);
}

#[test]
fn regions_report_their_bounds() {
    let n = ListNode::new(0x1000, 0x40);
    assert_eq!(n.start_addr(), 0x1000);
    assert_eq!(n.end_addr(), 0x1040);
    assert_eq!(n, ListNode { start: 0x1000, size: 0x40 });
}

#[test]
fn fit_takes_alignment_and_the_remainder_into_account() {
    let region = ListNode::new(0x1008, 0x100);
    assert_eq!(LinkedListAllocator::alloc_from_region(&region, 0x10, 8), Ok(0x1008));
    assert_eq!(LinkedListAllocator::alloc_from_region(&region, 0x10, 0x40), Ok(0x1040));
    assert_eq!(LinkedListAllocator::alloc_from_region(&region, 0x100, 8), Ok(0x1008));
    assert_eq!(LinkedListAllocator::alloc_from_region(&region, 0x101, 8), Err(()));
    assert_eq!(LinkedListAllocator::alloc_from_region(&region, 0xf8, 8), Err(()));
    assert_eq!(LinkedListAllocator::alloc_from_region(&region, 0xf0, 8), Ok(0x1008));
    assert_eq!(LinkedListAllocator::alloc_from_region(&region, 0x100, 0x10), Err(()));
    assert_eq!(LinkedListAllocator::alloc_from_region(&region, u64::MAX, 8), Err(()));
    let top = ListNode::new(u64::MAX - 0x1f, 0x10);
    assert_eq!(LinkedListAllocator::alloc_from_region(&top, 8, 0x1000), Err(()));
}

#[test]
fn requests_are_adjusted_to_what_a_free_region_needs() {
    assert_eq!(LinkedListAllocator::size_align(1, 1), Some((16, 8)));
    assert_eq!(LinkedListAllocator::size_align(16, 8), Some((16, 8)));
    assert_eq!(LinkedListAllocator::size_align(17, 8), Some((24, 8)));
    assert_eq!(LinkedListAllocator::size_align(100, 64), Some((128, 64)));
    assert_eq!(LinkedListAllocator::size_align(0, 8), Some((16, 8)));
    assert_eq!(LinkedListAllocator::size_align(u64::MAX, 8), None);
    assert_eq!(LinkedListAllocator::size_align(u64::MAX - 7, 8), Some((u64::MAX - 7, 8)));
}

#[test]
fn init_refuses_what_is_no_region() {
    let mut a = LinkedListAllocator::new();
    assert!(!a.init(HEAP, 8));
    assert!(!a.init(HEAP + 1, 0x100));
    assert!(!a.init(u64::MAX - 7, 0x100));
    assert!(a.free.is_empty());
    assert!(a.init(HEAP, 0x100));
    assert!(!a.init(HEAP + 0x80, 0x100));
    assert!(a.init(HEAP + 0x100, 0x100));
    assert_eq!(a.free, vec![ListNode::new(HEAP + 0x100, 0x100), ListNode::new(HEAP, 0x100)]);
}

#[test]
fn first_fit_splits_the_region_and_free_returns_the_block() {
    let mut a = heap(0x1000);
    assert_eq!(a.allocate(0x20, 8), Some(HEAP));
    assert_eq!(a.free, vec![ListNode::new(HEAP + 0x20, 0xfe0)]);
    assert_eq!(a.live, vec![ListNode::new(HEAP, 0x20)]);
    assert_eq!(a.allocate(1, 1), Some(HEAP + 0x20));
    assert_eq!(a.live[1], ListNode::new(HEAP + 0x20, 16));
    assert_eq!(a.allocate(0x1000, 8), None);
    assert!(a.deallocate(HEAP, 0x20, 8));
    assert_eq!(a.free, vec![ListNode::new(HEAP, 0x20), ListNode::new(HEAP + 0x30, 0xfd0)]);
    assert!(!a.deallocate(HEAP, 0x20, 8));
    assert!(!a.deallocate(HEAP + 0x20, 0x20, 8));
    assert!(!a.deallocate(HEAP + 0x20, u64::MAX, 8));
    assert_eq!(a.allocate(0x20, 8), Some(HEAP));
    assert_eq!(a.allocate(0x18, 8), Some(HEAP + 0x30));
    assert!(a.deallocate(HEAP + 0x20, 1, 1));
    assert!(a.live.iter().all(|b| b.start != HEAP + 0x20));
}

#[test]
fn find_region_takes_the_first_that_fits() {
    let mut a = LinkedListAllocator::new();
    assert!(a.init(HEAP, 0x20));
    assert!(a.init(HEAP + 0x1000, 0x100));
    assert!(a.init(HEAP + 0x2000, 0x40));
    assert_eq!(a.find_region(0x80, 8), Some((ListNode::new(HEAP + 0x1000, 0x100), HEAP + 0x1000)));
    assert_eq!(a.free, vec![ListNode::new(HEAP + 0x2000, 0x40), ListNode::new(HEAP, 0x20)]);
    assert_eq!(a.find_region(0x80, 8), None);
    assert_eq!(
        a.find_region(0x20, 8),
        Some((ListNode::new(HEAP + 0x2000, 0x40), HEAP + 0x2000))
    );
    assert_eq!(a.find_region(0x20, 8), Some((ListNode::new(HEAP, 0x20), HEAP)));
    assert!(a.free.is_empty());
    a.add_free_region(HEAP + 0x3000, 0x10);
    assert_eq!(a.free[0], ListNode::new(HEAP + 0x3000, 0x10));
}

#[test]
fn alloc_and_free_syscalls_encode_their_errors() {
    let mut k = Kernel::new();
    assert_eq!(sys_alloc_trampoline(&mut k, 64, 0, 0), err(ENOMEM));
    assert!(k.heap.init(HEAP, 0x1000));
    assert_eq!(sys_alloc_trampoline(&mut k, 0, 0, 0), err(EINVAL));
    assert_eq!(sys_alloc_trampoline(&mut k, u64::MAX, 0, 0), err(EINVAL));
    assert_eq!(sys_alloc_trampoline(&mut k, 0x7fff_ffff_ffff_fff9, 0, 0), err(EINVAL));
    assert_eq!(sys_alloc_trampoline(&mut k, 0x7fff_ffff_ffff_fff8, 0, 0), err(ENOMEM));
    let p = sys_alloc_trampoline(&mut k, 100, 7, 7);
    assert_eq!(p, HEAP);
    let q = sys_alloc_trampoline(&mut k, 8, 0, 0);
    assert_eq!(q, HEAP + 104);
    assert_eq!(sys_alloc_trampoline(&mut k, 0x1000, 0, 0), err(ENOMEM));
    assert_eq!(sys_free_trampoline(&mut k, 0, 100, 0), err(EINVAL));
    assert_eq!(sys_free_trampoline(&mut k, p, 0, 0), err(EINVAL));
    assert_eq!(sys_free_trampoline(&mut k, p, 50, 0), err(EINVAL));
    assert_eq!(sys_free_trampoline(&mut k, p + 8, 100, 0), err(EINVAL));
    assert_eq!(sys_free_trampoline(&mut k, p, u64::MAX, 0), err(EINVAL));
    assert_eq!(sys_free_trampoline(&mut k, p, 100, 9), 0);
    assert_eq!(sys_free_trampoline(&mut k, p, 100, 0), err(EINVAL));
    assert_eq!(sys_alloc(&mut k.heap, 104), Ok(HEAP));
    assert_eq!(sys_alloc(&mut k.heap, 0), Err(EINVAL));
    assert_eq!(sys_free(&mut k.heap, q, 8), Ok(()));
    assert_eq!(sys_free(&mut k.heap, q, 8), Err(EINVAL));
    let mut mem = UserMemory::new(0x1000, vec![]).unwrap();
    assert_eq!(dispatch(&mut k, &mut mem, SYS_ALLOC, 16, 0, 0), HEAP + 104);
    assert_eq!(dispatch(&mut k, &mut mem, SYS_FREE, HEAP + 104, 16, 0), 0);
    assert_eq!(dispatch(&mut k, &mut mem, SYS_FREE, HEAP + 104, 16, 0), err(EINVAL));
}
