//! The `write` syscall.

use vstd::prelude::*;
use crate::errno::{Errno, encode, encoded};
use crate::kernel::{Kernel, live_handles};
use crate::store::backend_at;
use crate::usermem::{UserMemory, copy_from_user, accessible};

verus! {

/// The longest buffer that one `write` accepts.
pub const MAX_WRITE: u64 = 4096;

/// The contract of `sys_write`, as a relation between the state before, the
/// arguments, the result and the state after.
pub open spec fn write_post(
    pre: &Kernel,
    mem: &UserMemory,
    fd: u64,
    buf_ptr: u64,
    len: u64,
    r: u64,
    post: &Kernel,
) -> bool {
    &&& post.fds@ == pre.fds@
    &&& post.mounts == pre.mounts
    &&& post.exit_code == pre.exit_code
    &&& if fd == 0 {
        r == encoded(Errno::EBADF) && post.files@ == pre.files@
    } else if len == 0 {
        r == 0 && post.files@ == pre.files@
    } else if len > MAX_WRITE {
        r == encoded(Errno::EINVAL) && post.files@ == pre.files@
    } else if !pre.fds@.contains_key(fd) {
        r == encoded(Errno::EBADF) && post.files@ == pre.files@
    } else if !accessible(mem, buf_ptr, len as usize) {
        r == encoded(Errno::EFAULT) && post.files@ == pre.files@
    } else {
        let h = pre.fds@[fd].backend.id as int;
        let data = mem.span(buf_ptr as int, len as int);
        &&& post.files@ == pre.files@.update(h, Some(backend_at(pre.files@, h).after_write(data)))
        &&& match backend_at(pre.files@, h).write_result(data) {
            Ok(n) => r == n,
            Err(e) => r == encoded(e),
        }
    }
}

/// `write(fd, buf_ptr, len)`: writes the `len` bytes of user memory at
/// `buf_ptr` to the backend of `fd` and returns how many bytes were taken.
///
/// Descriptor 0, the reserved input, is refused with `EBADF` whatever the
/// other arguments and whatever is open. A length of 0 then succeeds with 0
/// and touches nothing. Otherwise `EINVAL` for more than `MAX_WRITE` bytes,
/// `EBADF` for a descriptor that is not open, `EFAULT` for a buffer that
/// the guard refuses, and the error of the backend.
pub fn sys_write(k: &mut Kernel, mem: &UserMemory, fd: u64, buf_ptr: u64, len: u64) -> (r: u64)
    requires
        old(k).wf(),
        mem.wf(),
    ensures
        final(k).wf(),
        final(k).syscalls == old(k).syscalls,
        final(k).heap == old(k).heap,
        write_post(old(k), mem, fd, buf_ptr, len, r, final(k)),
{
    if fd == 0 {
        return encode(Errno::EBADF);
    }
    if len == 0 {
        return 0;
    }
    if len > MAX_WRITE {
        return encode(Errno::EINVAL);
    }
    let entry = match k.fds.entry(fd) {
        Ok(e) => e,
        Err(e) => {
            return encode(e);
        },
    };
    let data = match copy_from_user(mem, buf_ptr, len as usize) {
        Ok(v) => v,
        Err(e) => {
            return encode(e);
        },
    };
    assert(k.fds@.contains_key(fd));
    let h = entry.backend;
    assert(k.files.holds(h));
    let wrote = k.files.write(h, data.as_slice());
    proof {
        assert(live_handles(k.files@) =~= live_handles(old(k).files@));
    }
    match wrote {
        Ok(n) => n as u64,
        Err(e) => encode(e),
    }
}

} // verus!
