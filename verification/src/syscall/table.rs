//! The syscall table: a fixed array from syscall number to handler.

use vstd::prelude::*;

verus! {

pub const SYS_WRITE: u64 = 1;
pub const SYS_EXIT: u64 = 2;
pub const SYS_OPEN: u64 = 3;
pub const SYS_READ: u64 = 4;
pub const SYS_ALLOC: u64 = 5;
pub const SYS_FREE: u64 = 6;
pub const SYS_CLOSE: u64 = 7;

/// The number of slots of the table.
pub const SYSCALL_TABLE_SIZE: usize = 512;

/// The handlers. Each takes three integer arguments and returns one; a
/// handler with fewer logical arguments ignores the rest.
#[derive(Clone, Copy, Debug, PartialEq, Eq, Structural)]
pub enum SyscallFn {
    Write,
    Exit,
    Open,
    Read,
    Alloc,
    Free,
    Close,
}

/// The handler that is registered under a number.
pub open spec fn registered(num: u64) -> Option<SyscallFn> {
    if num == SYS_WRITE {
        Some(SyscallFn::Write)
    } else if num == SYS_EXIT {
        Some(SyscallFn::Exit)
    } else if num == SYS_OPEN {
        Some(SyscallFn::Open)
    } else if num == SYS_READ {
        Some(SyscallFn::Read)
    } else if num == SYS_ALLOC {
        Some(SyscallFn::Alloc)
    } else if num == SYS_FREE {
        Some(SyscallFn::Free)
    } else if num == SYS_CLOSE {
        Some(SyscallFn::Close)
    } else {
        None
    }
}

/// The table: slot `n` holds the handler of syscall `n`, if there is one.
pub struct SyscallTable {
    pub slots: [Option<SyscallFn>; 512],
}

impl SyscallTable {
    /// Every slot holds what is registered under its number.
    pub open spec fn wf(&self) -> bool {
        forall|n: int| 0 <= n < SYSCALL_TABLE_SIZE ==> #[trigger] self.slots@[n] == registered(n as u64)
    }

    /// What a lookup of `num` finds: the slot, or nothing beyond the table.
    pub open spec fn found(&self, num: u64) -> Option<SyscallFn> {
        if num < SYSCALL_TABLE_SIZE {
            self.slots@[num as int]
        } else {
            None
        }
    }
}

/// The table with every handler in its slot.
pub fn init_table() -> (t: SyscallTable)
    ensures
        t.wf(),
{
    let mut slots: [Option<SyscallFn>; 512] = [None;512];
    slots[SYS_WRITE as usize] = Some(SyscallFn::Write);
    slots[SYS_EXIT as usize] = Some(SyscallFn::Exit);
    slots[SYS_OPEN as usize] = Some(SyscallFn::Open);
    slots[SYS_READ as usize] = Some(SyscallFn::Read);
    slots[SYS_ALLOC as usize] = Some(SyscallFn::Alloc);
    slots[SYS_FREE as usize] = Some(SyscallFn::Free);
    slots[SYS_CLOSE as usize] = Some(SyscallFn::Close);
    SyscallTable { slots }
}

/// Finds the handler of a syscall number: a bounds-checked read of the
/// table. A number beyond the table, or a slot without handler, gives
/// `None`.
pub fn lookup(table: &SyscallTable, num: u64) -> (r: Option<SyscallFn>)
    ensures
        r == table.found(num),
        table.wf() ==> r == registered(num),
{
    if num < SYSCALL_TABLE_SIZE as u64 {
        table.slots[num as usize]
    } else {
        None
    }
}

} // verus!
