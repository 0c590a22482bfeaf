//! The `exit` syscall.

use vstd::prelude::*;
use crate::fd::FdEntry;
use crate::kernel::{Kernel, sweep, swept};

verus! {

/// The contract of `sys_exit`, as a relation between the state before, the
/// argument, the result and the state after.
pub open spec fn exit_post(pre: &Kernel, code: u64, r: u64, post: &Kernel) -> bool {
    &&& r == 0
    &&& post.fds@ == Map::<u64, FdEntry>::empty()
    &&& post.exit_code == Some(code)
    &&& post.files@ == swept(pre.files@, Map::<u64, FdEntry>::empty(), &pre.mounts)
    &&& post.mounts == pre.mounts
}

/// `exit(code)`: records the code and closes every descriptor, the
/// reserved ones too; a backend that only descriptors referred to is torn
/// down. Returns 0. It ends no scheduling context: there is no process
/// below it yet.
pub fn sys_exit(k: &mut Kernel, code: u64) -> (r: u64)
    requires
        old(k).wf(),
    ensures
        final(k).wf(),
        final(k).syscalls == old(k).syscalls,
        final(k).heap == old(k).heap,
        exit_post(old(k), code, r, final(k)),
{
    k.exit_code = Some(code);
    k.fds.clear_all();
    sweep(k);
    0
}

/// `sys_exit` under the calling convention of the syscall table.
pub fn sys_exit_trampoline(k: &mut Kernel, code: u64, arg1: u64, arg2: u64) -> (r: u64)
    requires
        old(k).wf(),
    ensures
        final(k).wf(),
        final(k).syscalls == old(k).syscalls,
        final(k).heap == old(k).heap,
        exit_post(old(k), code, r, final(k)),
{
    sys_exit(k, code)
}

} // verus!
