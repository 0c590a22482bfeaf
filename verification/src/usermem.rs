//! The user-pointer guard and the only routines through which handlers touch
//! integers that claim to be user addresses.
//!
//! User memory is modelled as one window of bytes that starts at a base
//! address. An access succeeds when its address passes the guard and the whole
//! range lies inside the window; otherwise it fails with `EFAULT`.

use vstd::prelude::*;
use vstd::utf8::valid_utf8;
use crate::errno::Errno;
use crate::text::is_utf8;

verus! {

/// Highest address of the user half of the address space.
pub const USER_SPACE_MAX: u64 = 0x0000_7FFF_FFFF_FFFF;

/// Lowest address of the kernel half of the address space.
pub const KERNEL_SPACE_MIN: u64 = 0xFFFF_8000_0000_0000;

/// Longest C string, terminator included, that the kernel accepts from a user.
pub const CSTR_MAX: usize = 256;

/// An address is canonical when its upper seventeen bits are all equal.
pub open spec fn canonical_addr(addr: u64) -> bool {
    addr <= USER_SPACE_MAX || addr >= KERNEL_SPACE_MIN
}

/// The addresses that may legally come from user space: not null, canonical,
/// and not above the split between user and kernel.
pub open spec fn user_ptr(addr: u64) -> bool {
    addr != 0 && canonical_addr(addr) && addr <= USER_SPACE_MAX
}

/// The pointer guard.
pub fn is_user_ptr(addr: u64) -> (ok: bool)
    ensures
        ok == user_ptr(addr),
        ok == (0 < addr <= USER_SPACE_MAX),
{
    if addr == 0 {
        return false;
    }
    let canonical = addr <= USER_SPACE_MAX || addr >= KERNEL_SPACE_MIN;
    canonical && addr <= USER_SPACE_MAX
}

/// A window of user memory: `bytes` mapped at the addresses from `base` on.
pub struct UserMemory {
    pub base: u64,
    pub bytes: Vec<u8>,
}

impl UserMemory {
    /// The window does not wrap around the end of the address space.
    pub open spec fn wf(&self) -> bool {
        self.base + self.bytes@.len() <= u64::MAX
    }

    /// The `len` bytes from `addr` on all lie inside the window.
    pub open spec fn mapped(&self, addr: int, len: int) -> bool {
        0 <= len && self.base <= addr && addr + len <= self.base + self.bytes@.len()
    }

    /// The byte at `addr`.
    pub open spec fn byte(&self, addr: int) -> u8 {
        self.bytes@[addr - self.base]
    }

    /// The `len` bytes from `addr` on.
    pub open spec fn span(&self, addr: int, len: int) -> Seq<u8> {
        self.bytes@.subrange(addr - self.base, addr - self.base + len)
    }

    /// The window in which the bytes from `addr` on are replaced by `data`.
    pub open spec fn patched(&self, addr: int, data: Seq<u8>) -> Seq<u8> {
        Seq::new(
            self.bytes@.len(),
            |i: int|
                if addr <= self.base + i < addr + data.len() {
                    data[self.base + i - addr]
                } else {
                    self.bytes@[i]
                },
        )
    }

    /// A window that maps `bytes` at `base`, or `None` when it would reach
    /// past the last address.
    pub fn new(base: u64, bytes: Vec<u8>) -> (r: Option<UserMemory>)
        ensures
            r is Some <==> base + bytes@.len() <= u64::MAX,
            r matches Some(m) ==> m.wf() && m.base == base && m.bytes@ == bytes@,
    {
        if bytes.len() as u64 <= u64::MAX - base {
            Some(UserMemory { base, bytes })
        } else {
            None
        }
    }

    /// Where in the window the range starts, if the whole range is mapped.
    pub fn locate(&self, addr: u64, len: usize) -> (r: Option<usize>)
        requires
            self.wf(),
        ensures
            r is Some <==> self.mapped(addr as int, len as int),
            r matches Some(off) ==> off == addr - self.base,
    {
        if addr < self.base {
            return None;
        }
        let off: u64 = addr - self.base;
        let size: u64 = self.bytes.len() as u64;
        if off > size || len as u64 > size - off {
            return None;
        }
        Some(off as usize)
    }
}

/// The `len` bytes at `addr` may be read or written: the address passes the
/// guard, the range does not run past the last address, and all of it is
/// mapped.
pub open spec fn accessible(mem: &UserMemory, addr: u64, len: usize) -> bool {
    user_ptr(addr) && addr + len <= u64::MAX && mem.mapped(addr as int, len as int)
}

/// Copies `len` bytes from user memory at `src` into a kernel buffer.
pub fn copy_from_user(mem: &UserMemory, src: u64, len: usize) -> (r: Result<Vec<u8>, Errno>)
    requires
        mem.wf(),
    ensures
        match r {
            Ok(v) => accessible(mem, src, len) && v@ == mem.span(src as int, len as int),
            Err(e) => e == Errno::EFAULT && !accessible(mem, src, len),
        },
{
    if !is_user_ptr(src) {
        return Err(Errno::EFAULT);
    }
    if len as u64 > u64::MAX - src {
        return Err(Errno::EFAULT);
    }
    match mem.locate(src, len) {
        None => Err(Errno::EFAULT),
        Some(off) => {
            let total: usize = mem.bytes.len();
            let mut out: Vec<u8> = Vec::with_capacity(len);
            let mut i: usize = 0;
            while i < len
                invariant
                    i <= len,
                    off + len <= total == mem.bytes@.len(),
                    out@ == mem.bytes@.subrange(off as int, off + i),
                decreases len - i,
            {
                out.push(mem.bytes[off + i]);
                proof {
                    assert(out@ =~= mem.bytes@.subrange(off as int, off + i + 1));
                }
                i += 1;
            }
            Ok(out)
        },
    }
}

/// Copies `data` into user memory at `dst`.
pub fn copy_to_user(mem: &mut UserMemory, dst: u64, data: &[u8]) -> (r: Result<(), Errno>)
    requires
        old(mem).wf(),
    ensures
        final(mem).wf(),
        final(mem).base == old(mem).base,
        match r {
            Ok(()) => accessible(old(mem), dst, data@.len() as usize)
                && final(mem).bytes@ == old(mem).patched(dst as int, data@),
            Err(e) => e == Errno::EFAULT && !accessible(old(mem), dst, data@.len() as usize)
                && final(mem).bytes@ == old(mem).bytes@,
        },
{
    let len: usize = data.len();
    if !is_user_ptr(dst) {
        return Err(Errno::EFAULT);
    }
    if len as u64 > u64::MAX - dst {
        return Err(Errno::EFAULT);
    }
    match mem.locate(dst, len) {
        None => Err(Errno::EFAULT),
        Some(off) => {
            let total: usize = mem.bytes.len();
            let mut i: usize = 0;
            while i < len
                invariant
                    i <= len,
                    len == data@.len(),
                    off == dst - old(mem).base,
                    mem.base == old(mem).base,
                    mem.bytes@.len() == old(mem).bytes@.len(),
                    off + len <= total == mem.bytes@.len(),
                    forall|j: int| 0 <= j < off + i ==> mem.bytes@[j] == old(mem).patched(dst as int, data@)[j],
                    forall|j: int| off + i <= j < mem.bytes@.len() ==> mem.bytes@[j] == old(mem).bytes@[j],
                decreases len - i,
            {
                mem.bytes[off + i] = data[i];
                i += 1;
            }
            proof {
                assert(mem.bytes@ =~= old(mem).patched(dst as int, data@));
            }
            Ok(())
        },
    }
}

/// The position of the terminator of the C string at `ptr`: the first zero
/// byte among the first `limit` bytes, every byte up to it being mapped.
pub open spec fn cstr_end(mem: &UserMemory, ptr: u64, limit: int, n: int) -> bool {
    &&& 0 <= n < limit
    &&& mem.mapped(ptr as int, n + 1)
    &&& mem.byte(ptr + n) == 0
    &&& forall|a: int| ptr <= a < ptr + n ==> #[trigger] mem.byte(a) != 0
}

/// The C string at `ptr` can be taken: the pointer passes the guard, a
/// terminator comes within `CSTR_MAX` bytes, and what stands before it is
/// UTF-8.
pub open spec fn cstr_ok(mem: &UserMemory, ptr: u64, n: int) -> bool {
    &&& user_ptr(ptr)
    &&& cstr_end(mem, ptr, CSTR_MAX as int, n)
    &&& valid_utf8(mem.span(ptr as int, n))
}

/// The C string at `ptr`, without its terminator, if it can be taken.
pub open spec fn cstr_at(mem: &UserMemory, ptr: u64) -> Option<Seq<u8>> {
    if exists|n: int| cstr_ok(mem, ptr, n) {
        Some(mem.span(ptr as int, choose|n: int| cstr_ok(mem, ptr, n)))
    } else {
        None
    }
}

/// A C string has one terminator: its length is decided by the memory.
pub proof fn lemma_cstr_unique(mem: &UserMemory, ptr: u64, a: int, b: int)
    requires
        cstr_ok(mem, ptr, a),
        cstr_ok(mem, ptr, b),
    ensures
        a == b,
{
    if a < b {
        assert(mem.byte(ptr + a) != 0);
    } else if b < a {
        assert(mem.byte(ptr + b) != 0);
    }
}

/// Copies the NUL-terminated string at `ptr` out of user memory, without its
/// terminator. A string with no terminator among its first `CSTR_MAX` bytes
/// is refused, never cut short.
pub fn copy_cstr_from_user(mem: &UserMemory, ptr: u64) -> (r: Result<Vec<u8>, Errno>)
    requires
        mem.wf(),
    ensures
        match r {
            Ok(v) => cstr_ok(mem, ptr, v@.len() as int) && v@ == mem.span(ptr as int, v@.len() as int)
                && cstr_at(mem, ptr) == Some(v@) && v@.len() < CSTR_MAX,
            Err(e) => e == Errno::EFAULT && (forall|n: int| !cstr_ok(mem, ptr, n)) && cstr_at(
                mem,
                ptr,
            ) is None,
        },
{
    let r = copy_cstr_checked(mem, ptr);
    proof {
        if r is Ok {
            let n = choose|n: int| cstr_ok(mem, ptr, n);
            lemma_cstr_unique(mem, ptr, n, r->Ok_0@.len() as int);
        }
    }
    r
}

/// The scan behind `copy_cstr_from_user`.
fn copy_cstr_checked(mem: &UserMemory, ptr: u64) -> (r: Result<Vec<u8>, Errno>)
    requires
        mem.wf(),
    ensures
        match r {
            Ok(v) => cstr_ok(mem, ptr, v@.len() as int) && v@ == mem.span(ptr as int, v@.len() as int),
            Err(e) => e == Errno::EFAULT && forall|n: int| !cstr_ok(mem, ptr, n),
        },
{
    if !is_user_ptr(ptr) {
        return Err(Errno::EFAULT);
    }
    let mut out: Vec<u8> = Vec::new();
    let mut i: usize = 0;
    while i < CSTR_MAX
        invariant
            i <= CSTR_MAX,
            mem.wf(),
            user_ptr(ptr),
            out@.len() == i,
            i > 0 ==> mem.mapped(ptr as int, i as int) && out@ =~= mem.span(ptr as int, i as int),
            forall|a: int| ptr <= a < ptr + i ==> #[trigger] mem.byte(a) != 0,
        decreases CSTR_MAX - i,
    {
        let at: u64 = ptr + i as u64;
        match mem.locate(at, 1) {
            None => {
                proof {
                    assert forall|n: int| !cstr_ok(mem, ptr, n) by {
                        if cstr_ok(mem, ptr, n) {
                            if n < i {
                                assert(mem.byte(ptr + n) != 0);
                            } else {
                                assert(mem.mapped(ptr as int, n + 1));
                                assert(mem.mapped(at as int, 1));
                            }
                        }
                    }
                }
                return Err(Errno::EFAULT);
            },
            Some(off) => {
                let b: u8 = mem.bytes[off];
                assert(b == mem.byte(ptr + i));
                assert(mem.mapped(ptr as int, i + 1)) by {
                    if i > 0 {
                        assert(mem.mapped(ptr as int, i as int));
                    }
                }
                if b == 0 {
                    proof {
                        assert(out@ =~= mem.span(ptr as int, i as int));
                        assert(cstr_end(mem, ptr, CSTR_MAX as int, i as int));
                        assert forall|n: int| cstr_end(mem, ptr, CSTR_MAX as int, n) implies n == i by {
                            if n < i {
                                assert(mem.byte(ptr + n) != 0);
                            } else if n > i {
                                assert(mem.byte(ptr + i) != 0);
                            }
                        }
                    }
                    if is_utf8(out.as_slice()) {
                        return Ok(out);
                    } else {
                        return Err(Errno::EFAULT);
                    }
                }
                out.push(b);
                proof {
                    assert(out@ =~= mem.span(ptr as int, i + 1));
                }
            },
        }
        i += 1;
    }
    proof {
        assert forall|n: int| !cstr_ok(mem, ptr, n) by {
            if cstr_ok(mem, ptr, n) {
                assert(mem.byte(ptr + n) != 0);
            }
        }
    }
    Err(Errno::EFAULT)
}

/// The guard admits exactly the non-null addresses of the lower half: an
/// address it admits is canonical, and no address above the split passes.
pub proof fn lemma_guard_range(addr: u64)
    ensures
        user_ptr(addr) <==> 0 < addr <= USER_SPACE_MAX,
        !user_ptr(0),
        addr > USER_SPACE_MAX ==> !user_ptr(addr),
        !canonical_addr(addr) ==> !user_ptr(addr),
{
}

} // verus!
