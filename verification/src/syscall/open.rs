//! The `open` syscall.

use vstd::prelude::*;
use vstd::slice::slice_subrange;
use crate::errno::{Errno, encode, encoded};
use crate::fd::{FdEntry, exhausted, lowest_free};
use crate::kernel::{Kernel, STDOUT_FILE, live_handles};
use crate::store::FileHandle;
use crate::usermem::{UserMemory, copy_cstr_from_user, cstr_at};
use crate::vfs::path::components;
use crate::vfs::resolve::resolve_bytes;
use crate::vfs::tree::{lemma_walk_in, resolved};

verus! {

/// The flags value that `open` refuses by convention.
pub const INVALID_FLAGS: u64 = 0xFFFF_FFFF;

/// How many bytes of a path in the filesystem namespace belong to the name
/// of the namespace: the prefix is `/vfs/`, and its last separator starts
/// the path inside the filesystem.
pub const VFS_PREFIX_LEN: usize = 4;

/// The prefix of the paths that are routed to the filesystem: `/vfs/`.
pub open spec fn vfs_prefix() -> Seq<u8> {
    seq![0x2fu8, 0x76u8, 0x66u8, 0x73u8, 0x2fu8]
}

/// The path lies in the filesystem namespace.
pub open spec fn under_vfs(path: Seq<u8>) -> bool {
    path.len() >= 5 && path.take(5) == vfs_prefix()
}

/// What a path is opened on: a path in the filesystem namespace on the file
/// that the rest of it resolves to, any other path on the console sink.
pub open spec fn open_target(k: &Kernel, path: Seq<u8>) -> Result<nat, Errno> {
    if under_vfs(path) {
        if k.mounts.mounted() {
            resolved(k.mounts.root(), components(path.skip(VFS_PREFIX_LEN as int)))
        } else {
            Err(Errno::ENOENT)
        }
    } else {
        Ok(STDOUT_FILE as nat)
    }
}

/// The entry of a descriptor that was just opened.
pub open spec fn fresh_entry(h: nat, flags: u64) -> FdEntry {
    FdEntry { backend: FileHandle { id: h as usize }, flags, offset: 0 }
}

/// What `open` returns and how it leaves the descriptors, by the path that
/// was handed in and the state before.
pub open spec fn open_outcome(k: &Kernel, path: Option<Seq<u8>>, flags: u64) -> Result<
    FdEntry,
    Errno,
> {
    match path {
        None => Err(Errno::EFAULT),
        Some(p) => if p.len() == 0 || flags == INVALID_FLAGS {
            Err(Errno::EINVAL)
        } else {
            match open_target(k, p) {
                Err(e) => Err(e),
                Ok(h) => if exhausted(k.fds@) {
                    Err(Errno::EMFILE)
                } else {
                    Ok(fresh_entry(h, flags))
                },
            }
        },
    }
}

/// The contract of `sys_open`, as a relation between the state before, the
/// arguments, the result and the state after.
pub open spec fn open_post(
    pre: &Kernel,
    mem: &UserMemory,
    path_ptr: u64,
    flags: u64,
    r: u64,
    post: &Kernel,
) -> bool {
    &&& post.files@ == pre.files@
    &&& post.mounts == pre.mounts
    &&& post.exit_code == pre.exit_code
    &&& match open_outcome(pre, cstr_at(mem, path_ptr), flags) {
        Ok(entry) => lowest_free(pre.fds@, r) && post.fds@ == pre.fds@.insert(r, entry),
        Err(e) => r == encoded(e) && post.fds@ == pre.fds@,
    }
}

/// Tells whether a path lies in the filesystem namespace.
pub fn is_vfs_path(path: &[u8]) -> (b: bool)
    ensures
        b == under_vfs(path@),
{
    let b = path.len() >= 5 && path[0] == 0x2f && path[1] == 0x76 && path[2] == 0x66 && path[3]
        == 0x73 && path[4] == 0x2f;
    proof {
        if path@.len() >= 5 {
            let head = path@.take(5);
            if b {
                assert(head =~= vfs_prefix());
            } else {
                assert(head[0] == path@[0] && head[1] == path@[1] && head[2] == path@[2]
                    && head[3] == path@[3] && head[4] == path@[4]);
            }
        }
    }
    b
}

/// `open(path_ptr, flags, mode)`: opens the path that the C string at
/// `path_ptr` names and returns the new descriptor, the lowest free one.
///
/// Fails with `EFAULT` on a pointer or string that the guard refuses,
/// `EINVAL` on an empty path or on the flags value `INVALID_FLAGS`, the
/// error of the resolution for a path in the filesystem namespace, and
/// `EMFILE` when no descriptor is free. A path outside the namespace is
/// opened on the console sink. The mode is not used.
pub fn sys_open(k: &mut Kernel, mem: &UserMemory, path_ptr: u64, flags: u64, mode: u64) -> (r: u64)
    requires
        old(k).wf(),
        mem.wf(),
    ensures
        final(k).wf(),
        final(k).syscalls == old(k).syscalls,
        final(k).heap == old(k).heap,
        open_post(old(k), mem, path_ptr, flags, r, final(k)),
{
    let path = match copy_cstr_from_user(mem, path_ptr) {
        Ok(p) => p,
        Err(e) => {
            return encode(e);
        },
    };
    if path.len() == 0 {
        return encode(Errno::EINVAL);
    }
    if flags == INVALID_FLAGS {
        return encode(Errno::EINVAL);
    }
    let target: Result<FileHandle, Errno> = if is_vfs_path(path.as_slice()) {
        let inner = slice_subrange(path.as_slice(), VFS_PREFIX_LEN, path.len());
        proof {
            assert(inner@ =~= path@.skip(VFS_PREFIX_LEN as int));
            if k.mounts.mounted() {
                lemma_walk_in(k.mounts.root(), components(inner@), live_handles(k.files@));
            }
        }
        resolve_bytes(&k.mounts, inner)
    } else {
        Ok(FileHandle { id: STDOUT_FILE })
    };
    match target {
        Err(e) => encode(e),
        Ok(h) => {
            let entry = FdEntry { backend: h, flags, offset: 0 };
            match k.fds.allocate(entry) {
                Ok(fd) => {
                    proof {
                        assert forall|g: u64| #[trigger]
                            k.fds@.contains_key(g) implies k.files.holds(k.fds@[g].backend) by {
                            if g != fd {
                                assert(old(k).fds@.contains_key(g));
                            }
                        }
                    }
                    fd
                },
                Err(e) => encode(e),
            }
        },
    }
}

} // verus!
