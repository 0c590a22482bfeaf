//! The dispatcher: from a syscall number and three integers to the result
//! of the handler.

use vstd::prelude::*;
use crate::errno::{Errno, encode, encoded};
use crate::kernel::Kernel;
use crate::syscall::close::{close_post, sys_close_trampoline};
use crate::syscall::exit::{exit_post, sys_exit_trampoline};
use crate::syscall::heap::{alloc_post, free_post, sys_alloc_trampoline, sys_free_trampoline};
use crate::syscall::open::{open_post, sys_open};
use crate::syscall::read::{read_post, sys_read};
use crate::syscall::table::{SyscallFn, lookup};
use crate::syscall::write::{sys_write, write_post};
use crate::usermem::UserMemory;

verus! {

/// The vector of the software trap that carries a syscall.
pub const SYSCALL_VECTOR: u8 = 0x80;

/// Nothing of the I/O state has changed.
pub open spec fn io_unchanged(pre: &Kernel, post: &Kernel) -> bool {
    &&& post.files@ == pre.files@
    &&& post.fds@ == pre.fds@
    &&& post.mounts == pre.mounts
    &&& post.exit_code == pre.exit_code
}

/// The contract of `dispatch`: with no handler under the number the result
/// is the encoded `ENOSYS` and nothing changes; else result and state are
/// those of the handler, which gets the arguments it takes and whose result
/// is returned as it is.
pub open spec fn dispatch_post(
    pre: &Kernel,
    mem: &UserMemory,
    num: u64,
    arg0: u64,
    arg1: u64,
    arg2: u64,
    r: u64,
    post: &Kernel,
    mem_after: &UserMemory,
) -> bool {
    match pre.syscalls.found(num) {
        None => r == encoded(Errno::ENOSYS) && io_unchanged(pre, post) && post.heap == pre.heap
            && mem_after == mem,
        Some(SyscallFn::Write) => write_post(pre, mem, arg0, arg1, arg2, r, post) && post.heap
            == pre.heap && mem_after == mem,
        Some(SyscallFn::Exit) => exit_post(pre, arg0, r, post) && post.heap == pre.heap
            && mem_after == mem,
        Some(SyscallFn::Open) => open_post(pre, mem, arg0, arg1, r, post) && post.heap == pre.heap
            && mem_after == mem,
        Some(SyscallFn::Read) => read_post(pre, mem, arg0, arg1, arg2, r, post, mem_after)
            && post.heap == pre.heap,
        Some(SyscallFn::Alloc) => alloc_post(pre, arg0, r, post) && mem_after == mem,
        Some(SyscallFn::Free) => free_post(pre, arg0, arg1, r, post) && mem_after == mem,
        Some(SyscallFn::Close) => close_post(pre, arg0, r, post) && post.heap == pre.heap
            && mem_after == mem,
    }
}

/// Routes a syscall to its handler.
pub fn dispatch(k: &mut Kernel, mem: &mut UserMemory, num: u64, arg0: u64, arg1: u64, arg2: u64) -> (r:
    u64)
    requires
        old(k).wf(),
        old(mem).wf(),
    ensures
        final(k).wf(),
        final(mem).wf(),
        final(k).syscalls == old(k).syscalls,
        dispatch_post(old(k), old(mem), num, arg0, arg1, arg2, r, final(k), final(mem)),
{
    match lookup(&k.syscalls, num) {
        None => encode(Errno::ENOSYS),
        Some(SyscallFn::Write) => sys_write(k, mem, arg0, arg1, arg2),
        Some(SyscallFn::Exit) => sys_exit_trampoline(k, arg0, arg1, arg2),
        Some(SyscallFn::Open) => sys_open(k, mem, arg0, arg1, arg2),
        Some(SyscallFn::Read) => sys_read(k, mem, arg0, arg1, arg2),
        Some(SyscallFn::Alloc) => sys_alloc_trampoline(k, arg0, arg1, arg2),
        Some(SyscallFn::Free) => sys_free_trampoline(k, arg0, arg1, arg2),
        Some(SyscallFn::Close) => sys_close_trampoline(k, arg0, arg1, arg2),
    }
}

/// A number that the table has no slot for reaches no handler: the result is
/// the encoded `ENOSYS`, whatever the arguments.
pub proof fn lemma_unknown_syscall(
    pre: &Kernel,
    mem: &UserMemory,
    num: u64,
    arg0: u64,
    arg1: u64,
    arg2: u64,
    r: u64,
    post: &Kernel,
    mem_after: &UserMemory,
)
    requires
        pre.syscalls.wf(),
        num == 0 || num > 7,
        dispatch_post(pre, mem, num, arg0, arg1, arg2, r, post, mem_after),
    ensures
        r == encoded(Errno::ENOSYS),
        r == 0xffff_ffff_ffff_ffdau64,
        io_unchanged(pre, post),
{
    if num < 512 {
        assert(pre.syscalls.slots@[num as int] == crate::syscall::table::registered(num));
    }
}

} // verus!
