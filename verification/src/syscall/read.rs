//! The `read` syscall.

use vstd::prelude::*;
use vstd::slice::slice_subrange;
use crate::errno::{Errno, encode, encoded};
use crate::kernel::{Kernel, live_handles};
use crate::store::backend_at;
use crate::usermem::{UserMemory, copy_from_user, copy_to_user, accessible};

verus! {

/// The most that one `read` delivers: the size of the kernel's scratch
/// buffer.
pub const READ_MAX: u64 = 256;

/// How many bytes a `read` of `len` asks of the backend.
pub open spec fn read_window(len: u64) -> usize {
    if len <= READ_MAX {
        len as usize
    } else {
        READ_MAX as usize
    }
}

/// The contract of `sys_read`, as a relation between the state before, the
/// arguments, the result and the state after.
pub open spec fn read_post(
    pre: &Kernel,
    mem: &UserMemory,
    fd: u64,
    buf_ptr: u64,
    len: u64,
    r: u64,
    post: &Kernel,
    mem_after: &UserMemory,
) -> bool {
    let n = read_window(len);
    &&& post.fds@ == pre.fds@
    &&& post.mounts == pre.mounts
    &&& post.exit_code == pre.exit_code
    &&& mem_after.base == mem.base
    &&& if len == 0 {
        r == 0 && post.files@ == pre.files@ && mem_after.bytes@ == mem.bytes@
    } else if !pre.fds@.contains_key(fd) {
        r == encoded(Errno::EBADF) && post.files@ == pre.files@ && mem_after.bytes@ == mem.bytes@
    } else if !accessible(mem, buf_ptr, n) {
        r == encoded(Errno::EFAULT) && post.files@ == pre.files@ && mem_after.bytes@ == mem.bytes@
    } else {
        let h = pre.fds@[fd].backend.id as int;
        &&& post.files@ == pre.files@.update(
            h,
            Some(backend_at(pre.files@, h).after_read(n as nat)),
        )
        &&& match backend_at(pre.files@, h).read_result(n as nat) {
            Ok(bytes) => r == bytes.len() && mem_after.bytes@ == mem.patched(buf_ptr as int, bytes),
            Err(e) => r == encoded(e) && mem_after.bytes@ == mem.bytes@,
        }
    }
}

/// `read(fd, buf_ptr, len)`: reads from the backend of `fd` into user
/// memory at `buf_ptr` and returns how many bytes were delivered; 0 at the
/// end of a file.
///
/// A length of 0 succeeds with 0 at once, whatever the other arguments.
/// Otherwise `EBADF` for a descriptor that is not open or whose backend
/// cannot be read, `EFAULT` for a buffer that the guard refuses. At most
/// `READ_MAX` bytes are delivered by one call.
pub fn sys_read(k: &mut Kernel, mem: &mut UserMemory, fd: u64, buf_ptr: u64, len: u64) -> (r: u64)
    requires
        old(k).wf(),
        old(mem).wf(),
    ensures
        final(k).wf(),
        final(mem).wf(),
        final(k).syscalls == old(k).syscalls,
        final(k).heap == old(k).heap,
        read_post(old(k), old(mem), fd, buf_ptr, len, r, final(k), final(mem)),
{
    if len == 0 {
        return 0;
    }
    let entry = match k.fds.entry(fd) {
        Ok(e) => e,
        Err(e) => {
            return encode(e);
        },
    };
    let n: usize = if len <= READ_MAX {
        len as usize
    } else {
        READ_MAX as usize
    };
    let mut scratch = match copy_from_user(mem, buf_ptr, n) {
        Ok(v) => v,
        Err(e) => {
            return encode(e);
        },
    };
    assert(k.fds@.contains_key(fd));
    let h = entry.backend;
    assert(k.files.holds(h));
    let got = k.files.read(h, scratch.as_mut_slice());
    proof {
        assert(live_handles(k.files@) =~= live_handles(old(k).files@));
    }
    match got {
        Err(e) => encode(e),
        Ok(count) => {
            let got = slice_subrange(scratch.as_slice(), 0, count);
            proof {
                let bytes = backend_at(old(k).files@, h.id as int).read_result(n as nat)->Ok_0;
                assert(got@ =~= bytes);
            }
            let _ = copy_to_user(mem, buf_ptr, got);
            count as u64
        },
    }
}

} // verus!
