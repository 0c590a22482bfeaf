//! The kernel context: the state that the syscall handlers work on.
//!
//! The descriptor table, the mount table and the backends are fields of one
//! value that is handed to each handler, not ambient globals.

use vstd::prelude::*;
use crate::allocator::linked_list::LinkedListAllocator;
use crate::fd::{Descriptors, FdEntry, FdTable, fd_refers};
use crate::file::{Stderr, Stdin, Stdout};
use crate::store::{Backend, BackendView, FileHandle, FileStore, Slots, backend_at, live};
use crate::text::rows;
use crate::syscall::table::{SyscallTable, init_table};
use crate::vfs::mount::MountTable;
use crate::vfs::node::node_mentions;
use crate::vfs::tree::{Tree, files_in, lemma_files_in_drop, mentions};

verus! {

/// The handle of the standard input stream.
pub const STDIN_FILE: usize = 0;

/// The handle of the standard output sink, which also backs every
/// descriptor opened on a path outside the filesystem namespace.
pub const STDOUT_FILE: usize = 1;

/// The handle of the standard error sink.
pub const STDERR_FILE: usize = 2;

/// The handles of the slots that are in use.
pub open spec fn live_handles(slots: Slots) -> Set<nat> {
    Set::new(|h: nat| live(slots, h as int))
}

/// Something refers to the backend with handle `h`: an open descriptor, or
/// a file of the tree.
pub open spec fn referenced(fds: Descriptors, mounts: &MountTable, h: nat) -> bool {
    fd_refers(fds, h) || (mounts.mounted() && mentions(mounts.root(), h))
}

/// The handle is one of the standard streams, which are never torn down.
pub open spec fn pinned(h: nat) -> bool {
    h < 3
}

/// The slots after the backend of `h` lost a reference: it is torn down if
/// nothing refers to it any more, unless it is pinned.
pub open spec fn dropped(slots: Slots, fds: Descriptors, mounts: &MountTable, h: nat) -> Slots {
    if h < slots.len() && !pinned(h) && !referenced(fds, mounts, h) {
        slots.update(h as int, None)
    } else {
        slots
    }
}

/// The slots after every backend that nothing refers to was torn down.
pub open spec fn swept(slots: Slots, fds: Descriptors, mounts: &MountTable) -> Slots {
    Seq::new(
        slots.len(),
        |i: int|
            if !pinned(i as nat) && !referenced(fds, mounts, i as nat) {
                None
            } else {
                slots[i]
            },
    )
}

/// The slots after every backend that neither a descriptor nor a file of
/// the tree `root` refers to was torn down.
pub open spec fn swept_in(slots: Slots, fds: Descriptors, root: Tree) -> Slots {
    Seq::new(
        slots.len(),
        |i: int|
            if !pinned(i as nat) && !fd_refers(fds, i as nat) && !mentions(root, i as nat) {
                None
            } else {
                slots[i]
            },
    )
}

/// With a root mounted, a sweep goes by the tree under it.
pub proof fn lemma_swept_in(slots: Slots, fds: Descriptors, mounts: &MountTable)
    requires
        mounts.mounted(),
    ensures
        swept(slots, fds, mounts) == swept_in(slots, fds, mounts.root()),
{
    assert(swept(slots, fds, mounts) =~= swept_in(slots, fds, mounts.root()));
}

/// The state of the kernel's I/O layer.
pub struct Kernel {
    /// The backends, shared by descriptors and the filesystem tree.
    pub files: FileStore,
    /// The open descriptors.
    pub fds: FdTable,
    /// The filesystem.
    pub mounts: MountTable,
    /// The handlers by syscall number.
    pub syscalls: SyscallTable,
    /// The heap that `alloc` and `free` serve from.
    pub heap: LinkedListAllocator,
    /// The code of the last `exit`, for the console to report.
    pub exit_code: Option<u64>,
}

impl Kernel {
    /// The invariant of the context: the three standard streams are the
    /// first backends, every open descriptor and every file of the tree has
    /// its backend in the store, and each part is well-formed by itself.
    pub open spec fn wf(&self) -> bool {
        &&& self.fds.wf()
        &&& self.mounts.wf()
        &&& self.syscalls.wf()
        &&& self.heap.wf()
        &&& self.files@.len() >= 3
        &&& self.files@[STDIN_FILE as int] matches Some(b) && b is Stdin
        &&& self.files@[STDOUT_FILE as int] matches Some(b) && b is Stdout
        &&& self.files@[STDERR_FILE as int] matches Some(b) && b is Stderr
        &&& forall|fd: u64| #[trigger]
            self.fds@.contains_key(fd) ==> self.files.holds(self.fds@[fd].backend)
        &&& self.mounts.mounted() ==> files_in(self.mounts.root(), live_handles(self.files@))
    }

    /// A context after boot: the standard streams exist, no descriptor is
    /// open, nothing is mounted, the heap has no memory, and the syscall
    /// table is filled.
    pub fn new() -> (k: Kernel)
        ensures
            k.wf(),
            k.files@.len() == 3,
            k.fds@ == Map::<u64, FdEntry>::empty(),
            !k.mounts.mounted(),
            k.exit_code is None,
            k.heap.free@.len() == 0,
            k.heap.live@.len() == 0,
    {
        let mut files = FileStore::new();
        let _ = files.insert(Backend::Stdin(Stdin));
        let _ = files.insert(Backend::Stdout(Stdout::new()));
        let _ = files.insert(Backend::Stderr(Stderr::new()));
        Kernel {
            files,
            fds: FdTable::new(),
            mounts: MountTable::new(),
            syscalls: init_table(),
            heap: LinkedListAllocator::new(),
            exit_code: None,
        }
    }
}

/// Tells whether an open descriptor or a file of the tree refers to the
/// backend of `h`.
pub fn is_referenced(k: &Kernel, h: FileHandle) -> (b: bool)
    requires
        k.wf(),
    ensures
        b == referenced(k.fds@, &k.mounts, h.id as nat),
{
    if k.fds.refers(h) {
        return true;
    }
    if k.mounts.mounts.len() == 0 {
        return false;
    }
    node_mentions(&k.mounts.mounts[0].root, h)
}

/// Tears down the backend of `h` if nothing refers to it any more. To be
/// called when a reference to it was dropped.
pub fn reclaim(k: &mut Kernel, h: FileHandle)
    requires
        old(k).wf(),
    ensures
        final(k).wf(),
        final(k).files@ == dropped(old(k).files@, old(k).fds@, &old(k).mounts, h.id as nat),
        final(k).fds@ == old(k).fds@,
        final(k).mounts == old(k).mounts,
        final(k).exit_code == old(k).exit_code,
        final(k).heap == old(k).heap,
        final(k).syscalls == old(k).syscalls,
{
    if h.id < 3 || h.id >= k.files.len() {
        return ;
    }
    if is_referenced(k, h) {
        return ;
    }
    proof {
        if k.mounts.mounted() {
            lemma_files_in_drop(k.mounts.root(), live_handles(k.files@), h.id as nat);
        }
    }
    let ghost before = k.files@;
    k.files.remove(h);
    proof {
        assert(k.files@ =~= before.update(h.id as int, None));
        assert(live_handles(k.files@) =~= live_handles(before).remove(h.id as nat));
        assert forall|fd: u64| #[trigger] k.fds@.contains_key(fd) implies k.files.holds(
            k.fds@[fd].backend,
        ) by {
            assert(k.fds@[fd].backend.id != h.id);
        }
    }
}

/// Tears down every backend that nothing refers to.
pub fn sweep(k: &mut Kernel)
    requires
        old(k).wf(),
    ensures
        final(k).wf(),
        final(k).files@ == swept(old(k).files@, old(k).fds@, &old(k).mounts),
        final(k).fds@ == old(k).fds@,
        final(k).mounts == old(k).mounts,
        final(k).exit_code == old(k).exit_code,
        final(k).heap == old(k).heap,
        final(k).syscalls == old(k).syscalls,
{
    let n: usize = k.files.len();
    let mut id: usize = 3;
    while id < n
        invariant
            3 <= id <= n || n < 3,
            n == old(k).files@.len(),
            k.wf(),
            k.files@.len() == n,
            k.fds@ == old(k).fds@,
            k.mounts == old(k).mounts,
            k.exit_code == old(k).exit_code,
            k.heap == old(k).heap,
            k.syscalls == old(k).syscalls,
            forall|i: int|
                0 <= i < id && i < n ==> #[trigger] k.files@[i] == swept(
                    old(k).files@,
                    old(k).fds@,
                    &old(k).mounts,
                )[i],
            forall|i: int| id <= i < n ==> #[trigger] k.files@[i] == old(k).files@[i],
        decreases n - id,
    {
        reclaim(k, FileHandle { id });
        id += 1;
    }
    proof {
        assert(k.files@ =~= swept(old(k).files@, old(k).fds@, &old(k).mounts));
    }
}

/// What the console has to show: the lines written to standard output and
/// those written to standard error.
pub struct ConsoleOutput {
    pub out: Vec<Vec<u8>>,
    pub err: Vec<Vec<u8>>,
}

/// Hands the lines of the two console sinks to the console and forgets
/// them. Nothing else of the kernel changes.
pub fn drain_console(k: &mut Kernel) -> (output: ConsoleOutput)
    requires
        old(k).wf(),
    ensures
        final(k).wf(),
        rows(output.out) == backend_at(old(k).files@, STDOUT_FILE as int).pending(),
        rows(output.err) == backend_at(old(k).files@, STDERR_FILE as int).pending(),
        final(k).files@ == old(k).files@.update(
            STDOUT_FILE as int,
            Some(BackendView::Stdout(Seq::empty())),
        ).update(STDERR_FILE as int, Some(BackendView::Stderr(Seq::empty()))),
        final(k).fds@ == old(k).fds@,
        final(k).mounts == old(k).mounts,
        final(k).exit_code == old(k).exit_code,
        final(k).heap == old(k).heap,
        final(k).syscalls == old(k).syscalls,
{
    let out = k.files.take_lines(FileHandle { id: STDOUT_FILE });
    let err = k.files.take_lines(FileHandle { id: STDERR_FILE });
    proof {
        assert(live_handles(k.files@) =~= live_handles(old(k).files@));
    }
    ConsoleOutput { out, err }
}

/// The entry of a reserved descriptor: the standard stream of that number.
pub open spec fn std_entry(fd: u64) -> FdEntry {
    FdEntry { backend: FileHandle { id: fd as usize }, flags: 0, offset: 0 }
}

/// Opens the three reserved descriptors on the standard streams: 0 on
/// input, 1 on output, 2 on error. One that is open is left as it is.
pub fn init_fd_table_with_std(k: &mut Kernel)
    requires
        old(k).wf(),
    ensures
        final(k).wf(),
        final(k).files@ == old(k).files@,
        final(k).mounts == old(k).mounts,
        final(k).exit_code == old(k).exit_code,
        final(k).heap == old(k).heap,
        final(k).syscalls == old(k).syscalls,
        forall|fd: u64|
            fd >= 3 ==> (#[trigger] final(k).fds@.contains_key(fd) == old(k).fds@.contains_key(fd)),
        forall|fd: u64|
            #![trigger final(k).fds@[fd]]
            old(k).fds@.contains_key(fd) ==> final(k).fds@[fd] == old(k).fds@[fd],
        forall|fd: u64|
            fd < 3 ==> #[trigger] final(k).fds@.contains_key(fd) && (!old(k).fds@.contains_key(fd)
                ==> final(k).fds@[fd] == std_entry(fd)),
{
    k.fds.seed(0, FdEntry { backend: FileHandle { id: STDIN_FILE }, flags: 0, offset: 0 });
    k.fds.seed(1, FdEntry { backend: FileHandle { id: STDOUT_FILE }, flags: 0, offset: 0 });
    k.fds.seed(2, FdEntry { backend: FileHandle { id: STDERR_FILE }, flags: 0, offset: 0 });
}

} // verus!
