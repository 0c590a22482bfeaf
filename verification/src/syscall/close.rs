//! The `close` syscall.

use vstd::prelude::*;
use crate::errno::{Errno, encode, encoded};
use crate::fd::reserved;
use crate::kernel::{Kernel, dropped, reclaim};

verus! {

/// The contract of `sys_close`, as a relation between the state before, the
/// argument, the result and the state after.
pub open spec fn close_post(pre: &Kernel, fd: u64, r: u64, post: &Kernel) -> bool {
    &&& post.mounts == pre.mounts
    &&& post.exit_code == pre.exit_code
    &&& if reserved(fd) || !pre.fds@.contains_key(fd) {
        r == encoded(Errno::EBADF) && post.fds@ == pre.fds@ && post.files@ == pre.files@
    } else {
        r == 0 && post.fds@ == pre.fds@.remove(fd) && post.files@ == dropped(
            pre.files@,
            post.fds@,
            &pre.mounts,
            pre.fds@[fd].backend.id as nat,
        )
    }
}

/// `close(fd)`: closes a descriptor and returns 0. Its backend is torn
/// down if this was the last reference to it. A reserved descriptor, or one
/// that is not open, gives `EBADF`.
pub fn sys_close(k: &mut Kernel, fd: u64) -> (r: u64)
    requires
        old(k).wf(),
    ensures
        final(k).wf(),
        final(k).syscalls == old(k).syscalls,
        final(k).heap == old(k).heap,
        close_post(old(k), fd, r, final(k)),
{
    let entry = match k.fds.entry(fd) {
        Ok(e) => e,
        Err(e) => {
            return encode(e);
        },
    };
    match k.fds.close(&mut k.files, fd) {
        Ok(()) => {
            proof {
                assert forall|g: u64| #[trigger]
                    k.fds@.contains_key(g) implies k.files.holds(k.fds@[g].backend) by {
                    assert(old(k).fds@.contains_key(g));
                }
            }
            reclaim(k, entry.backend);
            0
        },
        Err(e) => encode(e),
    }
}

/// `sys_close` under the calling convention of the syscall table.
pub fn sys_close_trampoline(k: &mut Kernel, fd: u64, arg1: u64, arg2: u64) -> (r: u64)
    requires
        old(k).wf(),
    ensures
        final(k).wf(),
        final(k).syscalls == old(k).syscalls,
        final(k).heap == old(k).heap,
        close_post(old(k), fd, r, final(k)),
{
    sys_close(k, fd)
}

} // verus!
