//! What holds of the I/O layer as a whole: statements that relate several
//! operations, each proved from the contracts of the operations.

use vstd::prelude::*;
use vstd::string::*;
use crate::errno::{Errno, encoded};
use crate::fd::{Descriptors, FIRST_FREE_FD, FdEntry, MAX_FD, exhausted, lowest_free, reserved};
use crate::kernel::{Kernel, swept};
use crate::store::{BackendView, Slots, backend_at, filled, lemma_next_slot, next_slot};
use crate::syscall::close::close_post;
use crate::syscall::exit::exit_post;
use crate::memfile::MemFileView;
use crate::syscall::open::{
    INVALID_FLAGS,
    VFS_PREFIX_LEN,
    open_outcome,
    open_post,
    fresh_entry,
    open_target,
    vfs_prefix,
};
use crate::syscall::read::{read_post, read_window};
use crate::syscall::write::write_post;
use crate::usermem::{UserMemory, cstr_at, accessible};
use crate::vfs::init::{boot_tree, hostname_bytes, lemma_path_etc_hostname, path_etc_hostname};
use crate::vfs::mount::MountTable;
use crate::vfs::tree::{
    Components,
    Tree,
    lemma_create_then_resolve,
    lemma_resolved_is_mentioned,
    resolved,
    wf_tree,
    with_file,
};

verus! {

/// Lowest free wins: an `open` that succeeds returns the smallest number
/// from 3 on that was not open, whatever was opened and closed before.
pub proof fn law_lowest_free_wins(
    pre: &Kernel,
    mem: &UserMemory,
    path_ptr: u64,
    flags: u64,
    r: u64,
    post: &Kernel,
)
    requires
        open_post(pre, mem, path_ptr, flags, r, post),
        open_outcome(pre, cstr_at(mem, path_ptr), flags) is Ok,
    ensures
        FIRST_FREE_FD <= r <= MAX_FD,
        !pre.fds@.contains_key(r),
        forall|g: u64| FIRST_FREE_FD <= g < r ==> pre.fds@.contains_key(g),
        post.fds@.contains_key(r),
{
}

/// A descriptor that `close` just closed is the one that the next `open`
/// returns, if every lower descriptor from 3 on is open.
pub proof fn law_close_then_open_reuses(
    k0: &Kernel,
    fd: u64,
    r1: u64,
    k1: &Kernel,
    mem: &UserMemory,
    path_ptr: u64,
    flags: u64,
    r2: u64,
    k2: &Kernel,
)
    requires
        !reserved(fd),
        k0.fds@.contains_key(fd),
        forall|g: u64| FIRST_FREE_FD <= g < fd ==> k0.fds@.contains_key(g),
        close_post(k0, fd, r1, k1),
        open_post(k1, mem, path_ptr, flags, r2, k2),
        open_outcome(k1, cstr_at(mem, path_ptr), flags) is Ok,
        fd <= MAX_FD,
    ensures
        r1 == 0,
        r2 == fd,
{
    assert(lowest_free(k1.fds@, fd));
    if r2 < fd {
        assert(k1.fds@.contains_key(r2));
    } else if fd < r2 {
        assert(k1.fds@.contains_key(fd));
    }
}

/// Opens of one path share the backend: two opens of the same path, with
/// nothing created in between, bind their descriptors to the same shared
/// handle, so what one descriptor reads or writes moves the cursor of the
/// other.
pub proof fn law_opens_share_backend(
    k0: &Kernel,
    mem: &UserMemory,
    path_ptr: u64,
    flags1: u64,
    r1: u64,
    k1: &Kernel,
    flags2: u64,
    r2: u64,
    k2: &Kernel,
)
    requires
        open_post(k0, mem, path_ptr, flags1, r1, k1),
        open_outcome(k0, cstr_at(mem, path_ptr), flags1) is Ok,
        open_post(k1, mem, path_ptr, flags2, r2, k2),
        open_outcome(k1, cstr_at(mem, path_ptr), flags2) is Ok,
    ensures
        r1 != r2,
        k2.fds@.contains_key(r1) && k2.fds@.contains_key(r2),
        k2.fds@[r1].backend == k2.fds@[r2].backend,
{
}

/// Reservation: a write to descriptor 0 fails with `EBADF` whatever is
/// open, and changes nothing.
pub proof fn law_write_to_stdin_fails(
    pre: &Kernel,
    mem: &UserMemory,
    buf_ptr: u64,
    len: u64,
    r: u64,
    post: &Kernel,
)
    requires
        write_post(pre, mem, 0, buf_ptr, len, r, post),
    ensures
        r == encoded(Errno::EBADF),
        r == 0xffff_ffff_ffff_fff7u64,
        post.fds@ == pre.fds@,
        post.files@ == pre.files@,
{
}

/// Reservation: closing a descriptor below 3 fails with `EBADF` whatever
/// is open, and changes nothing.
pub proof fn law_close_reserved_fails(pre: &Kernel, fd: u64, r: u64, post: &Kernel)
    requires
        fd < 3,
        close_post(pre, fd, r, post),
    ensures
        r == encoded(Errno::EBADF),
        post.fds@ == pre.fds@,
        post.files@ == pre.files@,
{
}

/// Exhaustion: with every descriptor from 3 to `MAX_FD` open, `open` fails
/// and opens nothing; where the path names something that can be opened,
/// the error is `EMFILE`.
pub proof fn law_exhaustion(
    pre: &Kernel,
    mem: &UserMemory,
    path_ptr: u64,
    flags: u64,
    r: u64,
    post: &Kernel,
)
    requires
        open_post(pre, mem, path_ptr, flags, r, post),
        exhausted(pre.fds@),
    ensures
        open_outcome(pre, cstr_at(mem, path_ptr), flags) is Err,
        post.fds@ == pre.fds@,
        r == encoded(open_outcome(pre, cstr_at(mem, path_ptr), flags)->Err_0),
        cstr_at(mem, path_ptr) matches Some(path) && path.len() > 0 && flags != INVALID_FLAGS
            && open_target(pre, path) is Ok ==> r == encoded(Errno::EMFILE) && r
            == 0xffff_ffff_ffff_ffe8u64,
{
}

/// Zero-length operations are free: a read of no bytes returns 0 for every
/// descriptor, a write of no bytes returns 0 for every descriptor but 0,
/// and neither touches the kernel or user memory.
pub proof fn law_zero_length_is_free(
    pre: &Kernel,
    mem: &UserMemory,
    fd: u64,
    ptr: u64,
    r_read: u64,
    after_read: &Kernel,
    mem_after: &UserMemory,
    r_write: u64,
    after_write: &Kernel,
)
    requires
        read_post(pre, mem, fd, ptr, 0, r_read, after_read, mem_after),
        write_post(pre, mem, fd, ptr, 0, r_write, after_write),
    ensures
        r_read == 0,
        after_read.files@ == pre.files@ && after_read.fds@ == pre.fds@,
        mem_after.bytes@ == mem.bytes@,
        fd != 0 ==> r_write == 0,
        after_write.files@ == pre.files@ && after_write.fds@ == pre.fds@,
{
}

/// Exit clears state: after `exit` no descriptor is open, and the next
/// `open` that succeeds returns 3.
pub proof fn law_exit_clears_state(
    k0: &Kernel,
    code: u64,
    r1: u64,
    k1: &Kernel,
    mem: &UserMemory,
    path_ptr: u64,
    flags: u64,
    r2: u64,
    k2: &Kernel,
)
    requires
        exit_post(k0, code, r1, k1),
        open_post(k1, mem, path_ptr, flags, r2, k2),
        open_outcome(k1, cstr_at(mem, path_ptr), flags) is Ok,
    ensures
        r1 == 0,
        k1.fds@ == Map::<u64, FdEntry>::empty(),
        forall|fd: u64| !k1.fds@.contains_key(fd),
        r2 == 3,
{
    if r2 > 3 {
        assert(k1.fds@.contains_key(3u64));
    }
}

/// A file that was created resolves to the backend it was created with:
/// its path leads to the handle that the backend got, the backend is in the
/// store under that handle, and no sweep tears it down.
pub proof fn law_created_file_resolves(
    slots: Slots,
    fds: Descriptors,
    root: Tree,
    comps: Components,
    h: int,
    backend: BackendView,
    after: &MountTable,
)
    requires
        wf_tree(root),
        h == next_slot(slots),
        with_file(root, comps, h as nat) is Ok,
        after.mounted(),
        after.root() == with_file(root, comps, h as nat)->Ok_0,
    ensures
        resolved(after.root(), comps) == Ok::<nat, Errno>(h as nat),
        swept(filled(slots, h, backend), fds, after)[h] == Some(backend),
{
    lemma_next_slot(slots);
    lemma_create_then_resolve(root, comps, h as nat);
    lemma_resolved_is_mentioned(after.root(), comps);
}

/// The path `/vfs/etc/hostname` as the bytes of a C string without its
/// terminator.
pub open spec fn hostname_path() -> Seq<u8> {
    seq![
        0x2fu8, 0x76u8, 0x66u8, 0x73u8, 0x2fu8, 0x65u8, 0x74u8, 0x63u8, 0x2fu8, 0x68u8, 0x6fu8,
        0x73u8, 0x74u8, 0x6eu8, 0x61u8, 0x6du8, 0x65u8,
    ]
}

/// The host name is read through the syscalls: in a kernel with the boot
/// tree and a free descriptor, opening `/vfs/etc/hostname` returns the
/// lowest free descriptor, and a read of 16 bytes from it returns 8 and
/// puts the host name, `bulldog` and a newline, at the start of the buffer.
pub proof fn law_hostname_is_read(
    k0: &Kernel,
    mem: &UserMemory,
    path_ptr: u64,
    flags: u64,
    fd: u64,
    k1: &Kernel,
    buf_ptr: u64,
    r: u64,
    k2: &Kernel,
    mem_after: &UserMemory,
)
    requires
        k0.mounts.mounted(),
        boot_tree(k0),
        !exhausted(k0.fds@),
        cstr_at(mem, path_ptr) == Some(hostname_path()),
        flags != INVALID_FLAGS,
        open_post(k0, mem, path_ptr, flags, fd, k1),
        accessible(mem, buf_ptr, 16),
        read_post(k1, mem, fd, buf_ptr, 16, r, k2, mem_after),
    ensures
        lowest_free(k0.fds@, fd),
        r == 8,
        mem_after.bytes@ == mem.patched(buf_ptr as int, hostname_bytes()),
{
    let path = hostname_path();
    assert(path.take(5) =~= vfs_prefix());
    let inner = path.skip(VFS_PREFIX_LEN as int);
    reveal_strlit("/etc/hostname");
    assert(is_ascii("/etc/hostname"));
    is_ascii_spec_bytes("/etc/hostname");
    assert(inner =~= "/etc/hostname".spec_bytes());
    lemma_path_etc_hostname();
    let h = resolved(k0.mounts.root(), path_etc_hostname())->Ok_0;
    assert(open_target(k0, path) == Ok::<nat, Errno>(h));
    assert(k0.files@.len() == k0.files.slots.len());
    assert(h as usize == h);
    assert(k1.fds@.contains_key(fd));
    assert(k1.fds@[fd] == fresh_entry(h, flags));
    assert(k1.fds@[fd].backend.id == h);
    let file = MemFileView { data: hostname_bytes(), offset: 0 };
    assert(backend_at(k1.files@, h as int) == BackendView::Mem(file));
    assert(file.read_count(16) == 8);
    assert(file.read_bytes(16) =~= hostname_bytes());
    assert(read_window(16) == 16);
}

} // verus!
