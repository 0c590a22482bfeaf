//! The user side of the syscalls: typed wrappers that put their arguments
//! into user memory, trap into the kernel, and decode what comes back.
//!
//! The trap is a direct call of the dispatcher. The wrappers stage their
//! buffers in a window of user memory of their own, at `STAGING_BASE`.

use vstd::prelude::*;
use vstd::slice::slice_to_vec;
use vstd::string::*;
use crate::errno::FAILURE_FLOOR;
use crate::user_errno::{Errno, decode_ret, decoded};
use crate::kernel::Kernel;
use crate::syscall::dispatcher::{dispatch, dispatch_post};
use crate::syscall::table::{SYS_CLOSE, SYS_OPEN, SYS_READ, SYS_WRITE, registered};
use crate::usermem::UserMemory;

verus! {

/// The address at which the wrappers stage their buffers.
pub const STAGING_BASE: u64 = 0x1000;

/// The value by which a wrapper reports that it could not make the call.
pub fn err() -> (r: u64)
    ensures
        r == u64::MAX,
{
    u64::MAX
}

/// Tells whether a raw return value reports a failure: whether it is
/// negative as a signed number.
pub fn is_err(ret: u64) -> (b: bool)
    ensures
        b == (ret >= FAILURE_FLOOR),
        b == (decoded(ret) is Err),
{
    ret >= FAILURE_FLOOR
}

/// Tells whether a raw return value reports success.
pub fn ok(ret: u64) -> (b: bool)
    ensures
        b == (ret < FAILURE_FLOOR),
        b == (decoded(ret) is Ok),
{
    !is_err(ret)
}

/// Stages `bytes` in a window of user memory.
fn stage(bytes: Vec<u8>) -> (r: Option<UserMemory>)
    ensures
        r is Some <==> STAGING_BASE + bytes@.len() <= u64::MAX,
        r matches Some(m) ==> m.wf() && m.base == STAGING_BASE && m.bytes@ == bytes@,
{
    UserMemory::new(STAGING_BASE, bytes)
}

/// What the kernel answers to a trap for which the caller's buffer holds
/// `bytes`: the raw value `r`, with the kernel left in `post`.
pub open spec fn trapped(
    pre: &Kernel,
    bytes: Seq<u8>,
    num: u64,
    arg0: u64,
    arg1: u64,
    arg2: u64,
    r: u64,
    post: &Kernel,
) -> bool {
    exists|mem: UserMemory, mem_after: UserMemory|
        mem.wf() && mem.base == STAGING_BASE && mem.bytes@ == bytes && dispatch_post(
            pre,
            &mem,
            num,
            arg0,
            arg1,
            arg2,
            r,
            post,
            &mem_after,
        )
}

/// Writes the bytes of `s` to a descriptor and returns the raw result of
/// the `write` syscall, or `err()` for a string too long to stage.
pub fn write_str(k: &mut Kernel, fd: u64, s: &str) -> (r: u64)
    requires
        old(k).wf(),
    ensures
        final(k).wf(),
        STAGING_BASE + s.spec_bytes().len() <= u64::MAX ==> trapped(
            old(k),
            s.spec_bytes(),
            SYS_WRITE,
            fd,
            STAGING_BASE,
            s.spec_bytes().len() as u64,
            r,
            final(k),
        ),
        STAGING_BASE + s.spec_bytes().len() > u64::MAX ==> r == u64::MAX && *final(k) == *old(k),
{
    let bytes = slice_to_vec(s.as_bytes());
    let len = bytes.len();
    match stage(bytes) {
        None => err(),
        Some(mem) => {
            let mut mem = mem;
            let ghost before = mem;
            let r = dispatch(k, &mut mem, SYS_WRITE, fd, STAGING_BASE, len as u64);
            proof {
                assert(dispatch_post(
                    old(k),
                    &before,
                    SYS_WRITE,
                    fd,
                    STAGING_BASE,
                    len as u64,
                    r,
                    k,
                    &mem,
                ));
            }
            r
        },
    }
}

/// Opens the path that `s` holds as a C string and returns the raw result
/// of the `open` syscall. A string that does not end in a NUL is no C
/// string: the call is not made and `err()` is returned.
pub fn open_cstr(k: &mut Kernel, s: &str, flags: u64) -> (r: u64)
    requires
        old(k).wf(),
    ensures
        final(k).wf(),
        s.spec_bytes().len() == 0 || s.spec_bytes().last() != 0 || STAGING_BASE
            + s.spec_bytes().len() > u64::MAX ==> r == u64::MAX && *final(k) == *old(k),
        s.spec_bytes().len() > 0 && s.spec_bytes().last() == 0 && STAGING_BASE
            + s.spec_bytes().len() <= u64::MAX ==> trapped(
            old(k),
            s.spec_bytes(),
            SYS_OPEN,
            STAGING_BASE,
            flags,
            0,
            r,
            final(k),
        ),
{
    let bytes = slice_to_vec(s.as_bytes());
    let len = bytes.len();
    if len == 0 || bytes[len - 1] != 0 {
        return err();
    }
    match stage(bytes) {
        None => err(),
        Some(mem) => {
            let mut mem = mem;
            let ghost before = mem;
            let r = dispatch(k, &mut mem, SYS_OPEN, STAGING_BASE, flags, 0);
            proof {
                assert(dispatch_post(old(k), &before, SYS_OPEN, STAGING_BASE, flags, 0, r, k, &mem));
            }
            r
        },
    }
}

/// Writes `buf` to a descriptor. Returns how many bytes were taken, or the
/// error of the syscall; `EFAULT` for a buffer too long to stage.
pub fn write(k: &mut Kernel, fd: u64, buf: &[u8]) -> (r: Result<u64, Errno>)
    requires
        old(k).wf(),
    ensures
        final(k).wf(),
        STAGING_BASE + buf@.len() <= u64::MAX ==> exists|raw: u64|
            r == decoded(raw) && #[trigger] trapped(
                old(k),
                buf@,
                SYS_WRITE,
                fd,
                STAGING_BASE,
                buf@.len() as u64,
                raw,
                final(k),
            ),
        STAGING_BASE + buf@.len() > u64::MAX ==> r == Err::<u64, Errno>(Errno::EFAULT) && *final(k)
            == *old(k),
{
    let bytes = slice_to_vec(buf);
    let len = bytes.len();
    match stage(bytes) {
        None => Err(Errno::EFAULT),
        Some(mem) => {
            let mut mem = mem;
            let ghost before = mem;
            let raw = dispatch(k, &mut mem, SYS_WRITE, fd, STAGING_BASE, len as u64);
            proof {
                assert(dispatch_post(
                    old(k),
                    &before,
                    SYS_WRITE,
                    fd,
                    STAGING_BASE,
                    len as u64,
                    raw,
                    k,
                    &mem,
                ));
                assert(trapped(old(k), buf@, SYS_WRITE, fd, STAGING_BASE, len as u64, raw, k));
            }
            decode_ret(raw)
        },
    }
}

/// What the kernel answers to a `read` for which the caller's buffer holds
/// `bytes`: the raw value `r`, with the kernel left in `post` and the
/// buffer holding `bytes_after`.
pub open spec fn trapped_read(
    pre: &Kernel,
    bytes: Seq<u8>,
    fd: u64,
    r: u64,
    post: &Kernel,
    bytes_after: Seq<u8>,
) -> bool {
    exists|mem: UserMemory, mem_after: UserMemory|
        mem.wf() && mem.base == STAGING_BASE && mem.bytes@ == bytes && mem_after.bytes@
            == bytes_after && dispatch_post(
            pre,
            &mem,
            SYS_READ,
            fd,
            STAGING_BASE,
            bytes.len() as u64,
            r,
            post,
            &mem_after,
        )
}

/// Reads from a descriptor into `buf`. Returns how many bytes were
/// delivered to the front of `buf`, or the error of the syscall; `EFAULT`
/// for a buffer too long to stage.
pub fn read(k: &mut Kernel, fd: u64, buf: &mut Vec<u8>) -> (r: Result<u64, Errno>)
    requires
        old(k).wf(),
    ensures
        final(k).wf(),
        final(buf)@.len() == old(buf)@.len(),
        STAGING_BASE + old(buf)@.len() <= u64::MAX ==> exists|raw: u64|
            r == decoded(raw) && #[trigger] trapped_read(
                old(k),
                old(buf)@,
                fd,
                raw,
                final(k),
                final(buf)@,
            ),
        STAGING_BASE + old(buf)@.len() > u64::MAX ==> r == Err::<u64, Errno>(Errno::EFAULT)
            && *final(k) == *old(k) && final(buf)@ == old(buf)@,
{
    let len = buf.len();
    let mut staged: Vec<u8> = Vec::new();
    std::mem::swap(&mut staged, buf);
    if len as u64 > u64::MAX - STAGING_BASE {
        std::mem::swap(&mut staged, buf);
        return Err(Errno::EFAULT);
    }
    let mut mem = UserMemory { base: STAGING_BASE, bytes: staged };
    let ghost before = mem;
    let raw = dispatch(k, &mut mem, SYS_READ, fd, STAGING_BASE, len as u64);
    proof {
        assert(dispatch_post(
            old(k),
            &before,
            SYS_READ,
            fd,
            STAGING_BASE,
            len as u64,
            raw,
            k,
            &mem,
        ));
        assert(before.wf() && before.base == STAGING_BASE && before.bytes@ == old(buf)@);
        assert(old(buf)@.len() as u64 == len);
        assert(trapped_read(old(k), old(buf)@, fd, raw, k, mem.bytes@));
        lemma_read_keeps_length(old(k), &before, fd, STAGING_BASE, len as u64, raw, k, &mem);
    }
    std::mem::swap(&mut mem.bytes, buf);
    decode_ret(raw)
}

/// A `read` leaves the window of user memory as long as it was.
proof fn lemma_read_keeps_length(
    pre: &Kernel,
    mem: &UserMemory,
    fd: u64,
    buf_ptr: u64,
    len: u64,
    r: u64,
    post: &Kernel,
    mem_after: &UserMemory,
)
    requires
        dispatch_post(pre, mem, SYS_READ, fd, buf_ptr, len, r, post, mem_after),
        pre.syscalls.wf(),
    ensures
        mem_after.bytes@.len() == mem.bytes@.len(),
{
    assert(pre.syscalls.slots@[SYS_READ as int] == registered(SYS_READ));
}

/// Opens `path` and returns the new descriptor, or the error of the
/// syscall. The path is handed to the kernel as a C string: a NUL is put
/// behind it.
pub fn open(k: &mut Kernel, path: &str, flags: u64) -> (r: Result<u64, Errno>)
    requires
        old(k).wf(),
    ensures
        final(k).wf(),
        STAGING_BASE + path.spec_bytes().len() + 1 <= u64::MAX ==> exists|raw: u64|
            r == decoded(raw) && #[trigger] trapped(
                old(k),
                path.spec_bytes().push(0u8),
                SYS_OPEN,
                STAGING_BASE,
                flags,
                0,
                raw,
                final(k),
            ),
        STAGING_BASE + path.spec_bytes().len() + 1 > u64::MAX ==> r == Err::<u64, Errno>(
            Errno::EFAULT,
        ) && *final(k) == *old(k),
{
    let mut bytes = slice_to_vec(path.as_bytes());
    if bytes.len() as u64 >= u64::MAX - STAGING_BASE {
        return Err(Errno::EFAULT);
    }
    bytes.push(0u8);
    match stage(bytes) {
        None => Err(Errno::EFAULT),
        Some(mem) => {
            let mut mem = mem;
            let ghost before = mem;
            let raw = dispatch(k, &mut mem, SYS_OPEN, STAGING_BASE, flags, 0);
            proof {
                assert(dispatch_post(
                    old(k),
                    &before,
                    SYS_OPEN,
                    STAGING_BASE,
                    flags,
                    0,
                    raw,
                    k,
                    &mem,
                ));
                assert(trapped(
                    old(k),
                    path.spec_bytes().push(0u8),
                    SYS_OPEN,
                    STAGING_BASE,
                    flags,
                    0,
                    raw,
                    k,
                ));
            }
            decode_ret(raw)
        },
    }
}

/// Closes a descriptor.
pub fn close(k: &mut Kernel, fd: u64) -> (r: Result<(), Errno>)
    requires
        old(k).wf(),
    ensures
        final(k).wf(),
        exists|raw: u64|
            #![trigger decoded(raw)]
            (r is Ok <==> decoded(raw) is Ok) && (r matches Err(e) ==> decoded(raw) == Err::<
                u64,
                Errno,
            >(e)) && trapped(old(k), Seq::<u8>::empty(), SYS_CLOSE, fd, 0, 0, raw, final(k)),
{
    let mut mem = UserMemory { base: STAGING_BASE, bytes: Vec::new() };
    let ghost before = mem;
    let raw = dispatch(k, &mut mem, SYS_CLOSE, fd, 0, 0);
    proof {
        assert(dispatch_post(old(k), &before, SYS_CLOSE, fd, 0, 0, raw, k, &mem));
        assert(trapped(old(k), Seq::<u8>::empty(), SYS_CLOSE, fd, 0, 0, raw, k));
    }
    match decode_ret(raw) {
        Ok(_) => Ok(()),
        Err(e) => Err(e),
    }
}

} // verus!
