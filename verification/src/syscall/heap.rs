//! The `alloc` and `free` syscalls: pass-throughs to the heap that report
//! failure in the error encoding of all syscalls.

use vstd::prelude::*;
use crate::allocator::linked_list::{LinkedListAllocator, ListNode, block_size};
use crate::allocator::{aligned, is_pow2};
use crate::errno::{EINVAL, ENOMEM, err, negated};
use crate::kernel::Kernel;

verus! {


/// The alignment of every block that `alloc` hands out.
pub const ALLOC_ALIGN: u64 = 8;

/// The largest size that `alloc` accepts: the largest that, rounded up to
/// the alignment, is still a size that a signed machine word can hold.
pub const ALLOC_MAX: u64 = 0x7fff_ffff_ffff_fff8;

/// What `sys_alloc` returns for a size, by the free list of the heap:
/// `EINVAL` for a size of 0 or beyond `ALLOC_MAX`, `ENOMEM` when no free
/// region fits, else the address of the block.
pub open spec fn alloc_outcome(free: Seq<ListNode>, size: u64) -> Result<u64, u64> {
    if size == 0 || size > ALLOC_MAX {
        Err(EINVAL)
    } else {
        match LinkedListAllocator::served(free, size, ALLOC_ALIGN) {
            Some(ptr) => Ok(ptr),
            None => Err(ENOMEM),
        }
    }
}

/// Hands out a block of `size` bytes from the heap.
pub fn sys_alloc(heap: &mut LinkedListAllocator, size: u64) -> (r: Result<u64, u64>)
    requires
        old(heap).wf(),
    ensures
        final(heap).wf(),
        r == alloc_outcome(old(heap).free@, size),
        r is Err ==> final(heap).free@ == old(heap).free@ && final(heap).live@ == old(heap).live@,
        r matches Ok(ptr) ==> aligned(ptr, ALLOC_ALIGN) && final(heap).live@ == old(heap).live@.push(
            ListNode { start: ptr, size: block_size(size, ALLOC_ALIGN) },
        ),
{
    if size == 0 {
        return Err(EINVAL);
    }
    if size > ALLOC_MAX {
        return Err(EINVAL);
    }
    proof {
        assert(is_pow2(8)) by (bit_vector);
    }
    match heap.allocate(size, ALLOC_ALIGN) {
        Some(ptr) => Ok(ptr),
        None => Err(ENOMEM),
    }
}

/// The contract of `sys_alloc_trampoline`, as a relation between the state
/// before, the argument, the result and the state after.
pub open spec fn alloc_post(pre: &Kernel, size: u64, r: u64, post: &Kernel) -> bool {
    &&& post.files@ == pre.files@
    &&& post.fds@ == pre.fds@
    &&& post.mounts == pre.mounts
    &&& post.exit_code == pre.exit_code
    &&& match alloc_outcome(pre.heap.free@, size) {
        Ok(ptr) => r == ptr && post.heap.live@ == pre.heap.live@.push(
            ListNode { start: ptr, size: block_size(size, ALLOC_ALIGN) },
        ),
        Err(e) => r == negated(e as int) && post.heap.free@ == pre.heap.free@ && post.heap.live@
            == pre.heap.live@,
    }
}

/// `alloc(size)` under the calling convention of the syscall table:
/// returns the address of the block, or the encoded error.
pub fn sys_alloc_trampoline(k: &mut Kernel, size: u64, arg1: u64, arg2: u64) -> (r: u64)
    requires
        old(k).wf(),
    ensures
        final(k).wf(),
        final(k).syscalls == old(k).syscalls,
        alloc_post(old(k), size, r, final(k)),
{
    match sys_alloc(&mut k.heap, size) {
        Ok(ptr) => ptr,
        Err(e) => err(e),
    }
}


/// A block of the address and size is live: `alloc` handed it out for a
/// request of that size, and it was not freed since.
pub open spec fn can_free(live: Seq<ListNode>, ptr: u64, size: u64) -> bool {
    &&& ptr != 0
    &&& 0 < size <= ALLOC_MAX
    &&& live.contains(ListNode { start: ptr, size: block_size(size, ALLOC_ALIGN) })
}

/// Gives the block at `ptr`, handed out for `size` bytes, back to the heap.
/// A null pointer, a size of 0 or beyond `ALLOC_MAX`, or a block that is
/// not live gives `EINVAL` and changes nothing.
pub fn sys_free(heap: &mut LinkedListAllocator, ptr: u64, size: u64) -> (r: Result<(), u64>)
    requires
        old(heap).wf(),
    ensures
        final(heap).wf(),
        can_free(old(heap).live@, ptr, size) ==> r is Ok && final(heap).free@ == old(
            heap,
        ).free@.insert(0, ListNode { start: ptr, size: block_size(size, ALLOC_ALIGN) })
            && exists|j: int|
            0 <= j < old(heap).live@.len() && #[trigger] old(heap).live@[j] == (ListNode {
                start: ptr,
                size: block_size(size, ALLOC_ALIGN),
            }) && final(heap).live@ == old(heap).live@.remove(j),
        !can_free(old(heap).live@, ptr, size) ==> r == Err::<(), u64>(EINVAL) && final(heap).free@
            == old(heap).free@ && final(heap).live@ == old(heap).live@,
{
    if ptr == 0 || size == 0 {
        return Err(EINVAL);
    }
    if size > ALLOC_MAX {
        return Err(EINVAL);
    }
    proof {
        assert(is_pow2(8)) by (bit_vector);
    }
    if heap.deallocate(ptr, size, ALLOC_ALIGN) {
        Ok(())
    } else {
        Err(EINVAL)
    }
}

/// The contract of `sys_free_trampoline`, as a relation between the state
/// before, the arguments, the result and the state after.
pub open spec fn free_post(pre: &Kernel, ptr: u64, size: u64, r: u64, post: &Kernel) -> bool {
    &&& post.files@ == pre.files@
    &&& post.fds@ == pre.fds@
    &&& post.mounts == pre.mounts
    &&& post.exit_code == pre.exit_code
    &&& if can_free(pre.heap.live@, ptr, size) {
        r == 0 && post.heap.free@ == pre.heap.free@.insert(
            0,
            ListNode { start: ptr, size: block_size(size, ALLOC_ALIGN) },
        ) && exists|j: int|
            0 <= j < pre.heap.live@.len() && #[trigger] pre.heap.live@[j] == (ListNode {
                start: ptr,
                size: block_size(size, ALLOC_ALIGN),
            }) && post.heap.live@ == pre.heap.live@.remove(j)
    } else {
        r == negated(EINVAL as int) && post.heap.free@ == pre.heap.free@ && post.heap.live@
            == pre.heap.live@
    }
}

/// `free(ptr, size)` under the calling convention of the syscall table:
/// returns 0, or the encoded error.
pub fn sys_free_trampoline(k: &mut Kernel, ptr: u64, size: u64, arg2: u64) -> (r: u64)
    requires
        old(k).wf(),
    ensures
        final(k).wf(),
        final(k).syscalls == old(k).syscalls,
        free_post(old(k), ptr, size, r, final(k)),
{
    match sys_free(&mut k.heap, ptr, size) {
        Ok(()) => 0,
        Err(e) => err(e),
    }
}

} // verus!
