//! The closed set of backends, and the store that holds them so that
//! several descriptors and the filesystem tree can share one.
//!
//! A shared handle is the position of a backend in the store. Whoever holds
//! the handle sees the same backend, cursor included. The store only holds
//! the backends; who refers to them, and when the last reference is gone,
//! is for the kernel context to know.

use vstd::prelude::*;
use crate::errno::Errno;
use crate::file::{FileLike, FileOps, Stderr, Stdin, Stdout, logged};
use crate::memfile::{MemFile, MemFileView};
use crate::text::rows;

verus! {

/// A resource that a descriptor can be bound to.
pub enum Backend {
    Stdin(Stdin),
    Stdout(Stdout),
    Stderr(Stderr),
    Mem(MemFile),
}

/// The abstract state of a backend: the lines of a console sink, the bytes
/// and cursor of a file.
pub enum BackendView {
    Stdin,
    Stdout(Seq<Seq<u8>>),
    Stderr(Seq<Seq<u8>>),
    Mem(MemFileView),
}

impl View for Backend {
    type V = BackendView;

    open spec fn view(&self) -> BackendView {
        match self {
            Backend::Stdin(_) => BackendView::Stdin,
            Backend::Stdout(s) => BackendView::Stdout(rows(s.lines)),
            Backend::Stderr(s) => BackendView::Stderr(rows(s.lines)),
            Backend::Mem(f) => BackendView::Mem(f@),
        }
    }
}

impl BackendView {
    /// What a read into a buffer of `len` bytes delivers: a file gives what
    /// lies at its cursor, the streams refuse with `EBADF`.
    pub open spec fn read_result(self, len: nat) -> Result<Seq<u8>, Errno> {
        match self {
            BackendView::Mem(f) => Ok(f.read_bytes(len)),
            _ => Err(Errno::EBADF),
        }
    }

    /// The backend after that read.
    pub open spec fn after_read(self, len: nat) -> BackendView {
        match self {
            BackendView::Mem(f) => BackendView::Mem(f.after_read(len)),
            _ => self,
        }
    }

    /// What a write of `data` returns: the sinks and a file that can grow
    /// take all of it, the input stream refuses with `EBADF`, a file that
    /// cannot grow with `ENOMEM`.
    pub open spec fn write_result(self, data: Seq<u8>) -> Result<nat, Errno> {
        match self {
            BackendView::Stdin => Err(Errno::EBADF),
            BackendView::Stdout(_) => Ok(data.len()),
            BackendView::Stderr(_) => Ok(data.len()),
            BackendView::Mem(f) => if f.can_write(data.len()) {
                Ok(data.len())
            } else {
                Err(Errno::ENOMEM)
            },
        }
    }

    /// The backend after that write.
    pub open spec fn after_write(self, data: Seq<u8>) -> BackendView {
        match self {
            BackendView::Stdin => self,
            BackendView::Stdout(lines) => BackendView::Stdout(logged(lines, data)),
            BackendView::Stderr(lines) => BackendView::Stderr(logged(lines, data)),
            BackendView::Mem(f) => if f.can_write(data.len()) {
                BackendView::Mem(f.after_write(data))
            } else {
                self
            },
        }
    }

    /// The lines that a console sink holds for the console to show; none
    /// for any other backend.
    pub open spec fn pending(self) -> Seq<Seq<u8>> {
        match self {
            BackendView::Stdout(lines) => lines,
            BackendView::Stderr(lines) => lines,
            _ => Seq::empty(),
        }
    }

    /// The backend after its lines were handed to the console.
    pub open spec fn flushed(self) -> BackendView {
        match self {
            BackendView::Stdout(_) => BackendView::Stdout(Seq::empty()),
            BackendView::Stderr(_) => BackendView::Stderr(Seq::empty()),
            _ => self,
        }
    }

    /// The backend with its cursor at the start; only a file has one.
    pub open spec fn rewound(self) -> BackendView {
        match self {
            BackendView::Mem(f) => BackendView::Mem(f.rewound()),
            _ => self,
        }
    }
}

impl Backend {
    /// Reads from the backend into the front of `buf`.
    pub fn read(&mut self, buf: &mut [u8]) -> (r: Result<usize, Errno>)
        ensures
            final(self)@ == old(self)@.after_read(old(buf)@.len()),
            final(buf)@.len() == old(buf)@.len(),
            match old(self)@.read_result(old(buf)@.len()) {
                Ok(bytes) => r == Ok::<usize, Errno>(bytes.len() as usize) && bytes.len() <= old(
                    buf,
                )@.len() && final(buf)@ == bytes + old(buf)@.skip(bytes.len() as int),
                Err(e) => r == Err::<usize, Errno>(e) && final(buf)@ == old(buf)@,
            },
    {
        match self {
            Backend::Stdin(s) => s.read(buf),
            Backend::Stdout(s) => s.read(buf),
            Backend::Stderr(s) => s.read(buf),
            Backend::Mem(f) => f.read(buf),
        }
    }

    /// Writes `data` to the backend.
    pub fn write(&mut self, data: &[u8]) -> (r: Result<usize, Errno>)
        ensures
            final(self)@ == old(self)@.after_write(data@),
            match old(self)@.write_result(data@) {
                Ok(n) => r == Ok::<usize, Errno>(n as usize),
                Err(e) => r == Err::<usize, Errno>(e),
            },
    {
        match self {
            Backend::Stdin(s) => s.write(data),
            Backend::Stdout(s) => s.write(data),
            Backend::Stderr(s) => s.write(data),
            Backend::Mem(f) => f.write(data),
        }
    }

    /// Closes the backend. None of the backends has anything to release, so
    /// this succeeds and changes nothing.
    pub fn close(&mut self) -> (r: Result<(), Errno>)
        ensures
            r is Ok,
            final(self)@ == old(self)@,
    {
        match self {
            Backend::Stdin(s) => s.close(),
            Backend::Stdout(s) => s.close(),
            Backend::Stderr(s) => s.close(),
            Backend::Mem(f) => f.close(),
        }
    }

    /// Hands out the lines of a console sink and forgets them; nothing for
    /// any other backend.
    pub fn take_lines(&mut self) -> (lines: Vec<Vec<u8>>)
        ensures
            final(self)@ == old(self)@.flushed(),
            rows(lines) == old(self)@.pending(),
    {
        match self {
            Backend::Stdout(s) => s.take_lines(),
            Backend::Stderr(s) => s.take_lines(),
            _ => {
                let lines: Vec<Vec<u8>> = Vec::new();
                proof {
                    assert(rows(lines) =~= Seq::<Seq<u8>>::empty());
                }
                lines
            },
        }
    }

    /// Puts the cursor of the backend at the start.
    pub fn rewind(&mut self)
        ensures
            final(self)@ == old(self)@.rewound(),
    {
        match self {
            Backend::Mem(f) => f.rewind(),
            _ => {},
        }
    }
}

/// A shared handle: the position of a backend in the store.
#[derive(Clone, Copy, Debug, PartialEq, Eq, Structural)]
pub struct FileHandle {
    pub id: usize,
}

/// The backends of the kernel, each in the slot that its handles name. A
/// slot whose backend was torn down is empty until it is used again.
pub struct FileStore {
    pub slots: Vec<Option<Backend>>,
}

/// What the slots of a store hold.
pub type Slots = Seq<Option<BackendView>>;

/// The view of a slot.
pub open spec fn slot_view(slot: Option<Backend>) -> Option<BackendView> {
    match slot {
        Some(b) => Some(b@),
        None => None,
    }
}

/// The slot is in use.
pub open spec fn live(slots: Slots, h: int) -> bool {
    0 <= h < slots.len() && slots[h] is Some
}

/// The backend in a slot that is in use.
pub open spec fn backend_at(slots: Slots, h: int) -> BackendView {
    slots[h]->Some_0
}

/// `h` is the slot that the next backend goes to: the first empty one, or
/// the one behind the last.
pub open spec fn next_free(slots: Slots, h: int) -> bool {
    &&& 0 <= h <= slots.len()
    &&& h < slots.len() ==> slots[h] is None
    &&& forall|i: int| 0 <= i < h ==> (#[trigger] slots[i]) is Some
}

/// The slot that the next backend goes to.
pub open spec fn next_slot(slots: Slots) -> int {
    choose|h: int| next_free(slots, h)
}

/// The slots after a backend went to slot `h`.
pub open spec fn filled(slots: Slots, h: int, backend: BackendView) -> Slots {
    if h < slots.len() {
        slots.update(h, Some(backend))
    } else {
        slots.push(Some(backend))
    }
}

impl View for FileStore {
    type V = Slots;

    open spec fn view(&self) -> Slots {
        Seq::new(self.slots@.len(), |i: int| slot_view(self.slots@[i]))
    }
}

impl FileStore {
    /// The handle names a backend of this store.
    pub open spec fn holds(&self, h: FileHandle) -> bool {
        live(self@, h.id as int)
    }

    /// A store without backends.
    pub fn new() -> (s: FileStore)
        ensures
            s@ == Seq::<Option<BackendView>>::empty(),
    {
        let s = FileStore { slots: Vec::new() };
        proof {
            assert(s@ =~= Seq::<Option<BackendView>>::empty());
        }
        s
    }

    /// The number of slots.
    pub fn len(&self) -> (n: usize)
        ensures
            n == self@.len(),
    {
        self.slots.len()
    }

    /// Tells whether the handle names a backend of this store.
    pub fn has(&self, h: FileHandle) -> (b: bool)
        ensures
            b == self.holds(h),
    {
        h.id < self.slots.len() && self.slots[h.id].is_some()
    }

    /// The handle that the next backend gets.
    pub fn next_handle(&self) -> (h: FileHandle)
        ensures
            next_free(self@, h.id as int),
            h.id == next_slot(self@),
    {
        let h = self.first_empty();
        proof {
            lemma_next_free_unique(self@, h.id as int, next_slot(self@));
        }
        h
    }

    /// The first empty slot, or the slot behind the last.
    fn first_empty(&self) -> (h: FileHandle)
        ensures
            next_free(self@, h.id as int),
    {
        let mut i: usize = 0;
        while i < self.slots.len()
            invariant
                i <= self.slots@.len(),
                forall|j: int| 0 <= j < i ==> (#[trigger] self@[j]) is Some,
            decreases self.slots@.len() - i,
        {
            if self.slots[i].is_none() {
                return FileHandle { id: i };
            }
            i += 1;
        }
        FileHandle { id: i }
    }

    /// Puts a backend into the first empty slot, or behind the last slot,
    /// and returns its handle.
    pub fn insert(&mut self, backend: Backend) -> (h: FileHandle)
        ensures
            next_free(old(self)@, h.id as int),
            h.id == next_slot(old(self)@),
            final(self)@ == filled(old(self)@, h.id as int, backend@),
            final(self).holds(h),
    {
        let h = self.next_handle();
        if h.id < self.slots.len() {
            self.slots[h.id] = Some(backend);
        } else {
            self.slots.push(Some(backend));
        }
        proof {
            assert(self@ =~= filled(old(self)@, h.id as int, backend@));
        }
        h
    }

    /// Tears down the backend of `h`: its slot becomes empty. A handle that
    /// names nothing changes nothing.
    pub fn remove(&mut self, h: FileHandle)
        ensures
            old(self).holds(h) ==> final(self)@ == old(self)@.update(h.id as int, None),
            !old(self).holds(h) ==> final(self)@ == old(self)@,
    {
        if h.id < self.slots.len() {
            self.slots[h.id] = None;
            proof {
                assert(self@ =~= old(self)@.update(h.id as int, None));
                if !old(self).holds(h) {
                    assert(self@ =~= old(self)@);
                }
            }
        }
    }

    /// Reads from the backend of `h` into the front of `buf`. A handle that
    /// names nothing gives `EBADF`.
    pub fn read(&mut self, h: FileHandle, buf: &mut [u8]) -> (r: Result<usize, Errno>)
        ensures
            final(buf)@.len() == old(buf)@.len(),
            !old(self).holds(h) ==> r == Err::<usize, Errno>(Errno::EBADF) && final(self)@ == old(
                self,
            )@ && final(buf)@ == old(buf)@,
            old(self).holds(h) ==> final(self)@ == old(self)@.update(
                h.id as int,
                Some(backend_at(old(self)@, h.id as int).after_read(old(buf)@.len())),
            ) && match backend_at(old(self)@, h.id as int).read_result(old(buf)@.len()) {
                Ok(bytes) => r == Ok::<usize, Errno>(bytes.len() as usize) && bytes.len() <= old(
                    buf,
                )@.len() && final(buf)@ == bytes + old(buf)@.skip(bytes.len() as int),
                Err(e) => r == Err::<usize, Errno>(e) && final(buf)@ == old(buf)@,
            },
    {
        if h.id >= self.slots.len() {
            return Err(Errno::EBADF);
        }
        match &mut self.slots[h.id] {
            None => Err(Errno::EBADF),
            Some(backend) => {
                let r = backend.read(buf);
                proof {
                    assert(self@ =~= old(self)@.update(
                        h.id as int,
                        Some(backend_at(old(self)@, h.id as int).after_read(old(buf)@.len())),
                    ));
                }
                r
            },
        }
    }

    /// Writes `data` to the backend of `h`. A handle that names nothing
    /// gives `EBADF`.
    pub fn write(&mut self, h: FileHandle, data: &[u8]) -> (r: Result<usize, Errno>)
        ensures
            !old(self).holds(h) ==> r == Err::<usize, Errno>(Errno::EBADF) && final(self)@ == old(
                self,
            )@,
            old(self).holds(h) ==> final(self)@ == old(self)@.update(
                h.id as int,
                Some(backend_at(old(self)@, h.id as int).after_write(data@)),
            ) && match backend_at(old(self)@, h.id as int).write_result(data@) {
                Ok(n) => r == Ok::<usize, Errno>(n as usize),
                Err(e) => r == Err::<usize, Errno>(e),
            },
    {
        if h.id >= self.slots.len() {
            return Err(Errno::EBADF);
        }
        match &mut self.slots[h.id] {
            None => Err(Errno::EBADF),
            Some(backend) => {
                let r = backend.write(data);
                proof {
                    assert(self@ =~= old(self)@.update(
                        h.id as int,
                        Some(backend_at(old(self)@, h.id as int).after_write(data@)),
                    ));
                }
                r
            },
        }
    }

    /// Closes the backend of `h` on behalf of one holder. The backend stays
    /// in the store for the others. A handle that names nothing gives
    /// `EBADF`.
    pub fn close(&mut self, h: FileHandle) -> (r: Result<(), Errno>)
        ensures
            final(self)@ == old(self)@,
            r is Ok <==> old(self).holds(h),
            r is Err ==> r == Err::<(), Errno>(Errno::EBADF),
    {
        if h.id >= self.slots.len() {
            return Err(Errno::EBADF);
        }
        match &mut self.slots[h.id] {
            None => Err(Errno::EBADF),
            Some(backend) => {
                let r = backend.close();
                proof {
                    assert(self@ =~= old(self)@);
                }
                r
            },
        }
    }

    /// Hands out the lines that the backend of `h` holds for the console.
    /// A handle that names nothing has none.
    pub fn take_lines(&mut self, h: FileHandle) -> (lines: Vec<Vec<u8>>)
        ensures
            !old(self).holds(h) ==> final(self)@ == old(self)@ && rows(lines) == Seq::<
                Seq<u8>,
            >::empty(),
            old(self).holds(h) ==> final(self)@ == old(self)@.update(
                h.id as int,
                Some(backend_at(old(self)@, h.id as int).flushed()),
            ) && rows(lines) == backend_at(old(self)@, h.id as int).pending(),
    {
        if h.id >= self.slots.len() {
            let lines: Vec<Vec<u8>> = Vec::new();
            proof {
                assert(rows(lines) =~= Seq::<Seq<u8>>::empty());
            }
            return lines;
        }
        match &mut self.slots[h.id] {
            None => {
                let lines: Vec<Vec<u8>> = Vec::new();
                proof {
                    assert(rows(lines) =~= Seq::<Seq<u8>>::empty());
                }
                lines
            },
            Some(backend) => {
                let lines = backend.take_lines();
                proof {
                    assert(self@ =~= old(self)@.update(
                        h.id as int,
                        Some(backend_at(old(self)@, h.id as int).flushed()),
                    ));
                }
                lines
            },
        }
    }

    /// Puts the cursor of the backend of `h` at the start. A handle that
    /// names nothing gives `EBADF`.
    pub fn rewind(&mut self, h: FileHandle) -> (r: Result<(), Errno>)
        ensures
            !old(self).holds(h) ==> r == Err::<(), Errno>(Errno::EBADF) && final(self)@ == old(
                self,
            )@,
            old(self).holds(h) ==> r is Ok && final(self)@ == old(self)@.update(
                h.id as int,
                Some(backend_at(old(self)@, h.id as int).rewound()),
            ),
    {
        if h.id >= self.slots.len() {
            return Err(Errno::EBADF);
        }
        match &mut self.slots[h.id] {
            None => Err(Errno::EBADF),
            Some(backend) => {
                backend.rewind();
                proof {
                    assert(self@ =~= old(self)@.update(
                        h.id as int,
                        Some(backend_at(old(self)@, h.id as int).rewound()),
                    ));
                }
                Ok(())
            },
        }
    }
}

/// There is a slot for the next backend, and `next_slot` is it.
pub proof fn lemma_next_slot(slots: Slots)
    ensures
        next_free(slots, next_slot(slots)),
        0 <= next_slot(slots) <= slots.len(),
{
    lemma_some_next_free(slots, 0);
}

/// Behind slots that are all in use comes a slot for the next backend.
proof fn lemma_some_next_free(slots: Slots, from: int)
    requires
        0 <= from <= slots.len(),
        forall|i: int| 0 <= i < from ==> (#[trigger] slots[i]) is Some,
    ensures
        exists|h: int| next_free(slots, h),
    decreases slots.len() - from,
{
    if from < slots.len() && slots[from] is Some {
        lemma_some_next_free(slots, from + 1);
    } else {
        assert(next_free(slots, from));
    }
}

/// The slot that the next backend goes to is decided by the slots.
pub proof fn lemma_next_free_unique(slots: Slots, a: int, b: int)
    requires
        next_free(slots, a),
        next_free(slots, b),
    ensures
        a == b,
{
    if a < b {
        assert(slots[a] is Some);
    } else if b < a {
        assert(slots[b] is Some);
    }
}

} // verus!
