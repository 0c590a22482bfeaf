//! The descriptor table: from small integers to open resources.
//!
//! Descriptors 0 to 2 are reserved for the standard streams. The allocator
//! hands out the lowest free descriptor from 3 on, up to `MAX_FD`.

use std::collections::BTreeMap;
use vstd::prelude::*;
use vstd::std_specs::btree::group_btree_axioms;
use crate::errno::Errno;
use crate::store::{FileHandle, FileStore};

verus! {

broadcast use group_btree_axioms;

/// The highest descriptor.
pub const MAX_FD: u64 = 64;

/// The lowest descriptor that the allocator hands out.
pub const FIRST_FREE_FD: u64 = 3;

/// An open descriptor: the shared handle of its backend, the flags it was
/// opened with, and a byte cursor.
#[derive(Clone, Copy, Debug, PartialEq, Eq, Structural)]
pub struct FdEntry {
    pub backend: FileHandle,
    pub flags: u64,
    pub offset: u64,
}

/// The table of open descriptors: an ordered map from descriptor to entry.
pub struct FdTable {
    pub entries: BTreeMap<u64, FdEntry>,
}

/// The open descriptors with their entries.
pub type Descriptors = Map<u64, FdEntry>;

impl View for FdTable {
    type V = Descriptors;

    open spec fn view(&self) -> Descriptors {
        self.entries@
    }
}

/// The descriptor is one of the three that are reserved.
pub open spec fn reserved(fd: u64) -> bool {
    fd < FIRST_FREE_FD
}

/// `fd` is the lowest free descriptor: the smallest number from 3 to
/// `MAX_FD` that is not open.
pub open spec fn lowest_free(open: Descriptors, fd: u64) -> bool {
    &&& FIRST_FREE_FD <= fd <= MAX_FD
    &&& !open.contains_key(fd)
    &&& forall|g: u64| FIRST_FREE_FD <= g < fd ==> open.contains_key(g)
}

/// Some open descriptor is bound to the backend with handle `h`.
pub open spec fn fd_refers(open: Descriptors, h: nat) -> bool {
    exists|fd: u64| #[trigger] open.contains_key(fd) && open[fd].backend.id == h
}

/// No descriptor is free: every number from 3 to `MAX_FD` is open.
pub open spec fn exhausted(open: Descriptors) -> bool {
    forall|g: u64| FIRST_FREE_FD <= g <= MAX_FD ==> open.contains_key(g)
}

/// The entry of a descriptor in the map, to change it. Calls
/// `BTreeMap::get_mut`, which returns a reference to the value of a key
/// that the map holds, and `None` for any other key; the contract states
/// that, and that the map changes nowhere but in that value.
#[verifier::external_body]
fn entry_mut(entries: &mut BTreeMap<u64, FdEntry>, fd: u64) -> (r: Option<&mut FdEntry>)
    ensures
        match r {
            Some(entry) => old(entries)@.contains_key(fd) && *entry == old(entries)@[fd] && final(entries)@ == old(entries)@.insert(fd, *final(entry)),
            None => !old(entries)@.contains_key(fd) && final(entries)@ == old(entries)@,
        },
{
    entries.get_mut(&fd)
}

impl FdTable {
    /// No descriptor beyond `MAX_FD` is ever open.
    pub open spec fn wf(&self) -> bool {
        forall|fd: u64| #[trigger] self@.contains_key(fd) ==> fd <= MAX_FD
    }

    /// A table in which no descriptor is open.
    pub fn new() -> (t: FdTable)
        ensures
            t.wf(),
            t@ == Map::<u64, FdEntry>::empty(),
    {
        FdTable { entries: BTreeMap::new() }
    }

    /// Binds `entry` to the lowest free descriptor and returns it. With no
    /// descriptor free it fails with `EMFILE`.
    pub fn allocate(&mut self, entry: FdEntry) -> (r: Result<u64, Errno>)
        requires
            old(self).wf(),
        ensures
            final(self).wf(),
            match r {
                Ok(fd) => lowest_free(old(self)@, fd) && final(self)@ == old(self)@.insert(
                    fd,
                    entry,
                ),
                Err(e) => e == Errno::EMFILE && exhausted(old(self)@) && final(self)@ == old(self)@,
            },
    {
        let mut fd: u64 = FIRST_FREE_FD;
        while fd <= MAX_FD
            invariant
                FIRST_FREE_FD <= fd <= MAX_FD + 1,
                self.wf(),
                self@ == old(self)@,
                forall|g: u64| FIRST_FREE_FD <= g < fd ==> old(self)@.contains_key(g),
            decreases MAX_FD + 1 - fd,
        {
            if !self.entries.contains_key(&fd) {
                let _ = self.entries.insert(fd, entry);
                proof {
                    assert forall|g: u64| #[trigger] self@.contains_key(g) implies g <= MAX_FD by {
                        if g != fd {
                            assert(old(self)@.contains_key(g));
                        }
                    }
                }
                return Ok(fd);
            }
            fd += 1;
        }
        Err(Errno::EMFILE)
    }

    /// The entry of an open descriptor, to read or to change. A descriptor
    /// that is not open gives `EBADF`.
    pub fn get(&mut self, fd: u64) -> (r: Result<&mut FdEntry, Errno>)
        requires
            old(self).wf(),
        ensures
            final(self).wf(),
            match r {
                Ok(entry) => old(self)@.contains_key(fd) && *entry == old(self)@[fd] && final(self)@ == old(self)@.insert(fd, *final(entry)),
                Err(e) => e == Errno::EBADF && !old(self)@.contains_key(fd) && final(self)@
                    == old(self)@,
            },
    {
        proof {
            assert forall|after: Descriptors, g: u64|
                (exists|e: FdEntry| after == #[trigger] old(self)@.insert(fd, e)) && old(self)@.contains_key(fd) && #[trigger] after.contains_key(g) implies g <= MAX_FD by {
                assert(old(self)@.contains_key(g));
            }
        }
        match entry_mut(&mut self.entries, fd) {
            Some(entry) => Ok(entry),
            None => Err(Errno::EBADF),
        }
    }

    /// The entry of an open descriptor. A descriptor that is not open gives
    /// `EBADF`.
    pub fn entry(&self, fd: u64) -> (r: Result<FdEntry, Errno>)
        ensures
            match r {
                Ok(entry) => self@.contains_key(fd) && entry == self@[fd],
                Err(e) => e == Errno::EBADF && !self@.contains_key(fd),
            },
    {
        match self.entries.get(&fd) {
            Some(entry) => Ok(*entry),
            None => Err(Errno::EBADF),
        }
    }

    /// Closes a descriptor: its entry leaves the table and its backend is
    /// told. A reserved descriptor, or one that is not open, gives `EBADF`
    /// and nothing changes.
    pub fn close(&mut self, files: &mut FileStore, fd: u64) -> (r: Result<(), Errno>)
        requires
            old(self).wf(),
        ensures
            final(self).wf(),
            final(files)@ == old(files)@,
            reserved(fd) || !old(self)@.contains_key(fd) ==> r == Err::<(), Errno>(Errno::EBADF)
                && final(self)@ == old(self)@,
            !reserved(fd) && old(self)@.contains_key(fd) ==> r is Ok && final(self)@ == old(self)@.remove(fd),
    {
        if fd < FIRST_FREE_FD {
            return Err(Errno::EBADF);
        }
        let removed = self.entries.remove(&fd);
        proof {
            assert forall|g: u64| #[trigger] self@.contains_key(g) implies g <= MAX_FD by {
                assert(old(self)@.contains_key(g));
            }
            if !old(self)@.contains_key(fd) {
                assert(self@ =~= old(self)@);
            }
        }
        match removed {
            None => Err(Errno::EBADF),
            Some(entry) => {
                let _ = files.close(entry.backend);
                Ok(())
            },
        }
    }

    /// Tells whether some open descriptor is bound to the backend of `h`.
    pub fn refers(&self, h: FileHandle) -> (b: bool)
        requires
            self.wf(),
        ensures
            b == fd_refers(self@, h.id as nat),
    {
        let mut fd: u64 = 0;
        while fd <= MAX_FD
            invariant
                fd <= MAX_FD + 1,
                self.wf(),
                forall|g: u64| g < fd && #[trigger] self@.contains_key(g) ==> self@[g].backend.id != h.id,
            decreases MAX_FD + 1 - fd,
        {
            match self.entries.get(&fd) {
                Some(entry) => {
                    if entry.backend.id == h.id {
                        proof {
                            assert(self@.contains_key(fd) && self@[fd].backend.id == h.id);
                        }
                        return true;
                    }
                },
                None => {},
            }
            fd += 1;
        }
        false
    }

    /// Opens a reserved descriptor on `entry`, unless it is open already.
    pub fn seed(&mut self, fd: u64, entry: FdEntry)
        requires
            old(self).wf(),
            reserved(fd),
        ensures
            final(self).wf(),
            old(self)@.contains_key(fd) ==> final(self)@ == old(self)@,
            !old(self)@.contains_key(fd) ==> final(self)@ == old(self)@.insert(fd, entry),
    {
        if !self.entries.contains_key(&fd) {
            let _ = self.entries.insert(fd, entry);
            proof {
                assert forall|g: u64| #[trigger] self@.contains_key(g) implies g <= MAX_FD by {
                    if g != fd {
                        assert(old(self)@.contains_key(g));
                    }
                }
            }
        }
    }

    /// Closes every descriptor, the reserved ones too.
    pub fn clear_all(&mut self)
        ensures
            final(self).wf(),
            final(self)@ == Map::<u64, FdEntry>::empty(),
    {
        self.entries.clear();
    }
}

/// The lowest free descriptor is unique: what `allocate` returns is decided by
/// which descriptors are open.
pub proof fn lemma_lowest_free_unique(open: Descriptors, a: u64, b: u64)
    requires
        lowest_free(open, a),
        lowest_free(open, b),
    ensures
        a == b,
{
    if a < b {
        assert(open.contains_key(a));
    } else if b < a {
        assert(open.contains_key(b));
    }
}

/// A descriptor that was just closed is the next one handed out, if every
/// lower one from 3 on is open: closing 5 while 3, 4 and 6 are open makes
/// the next allocation return 5, not 7.
pub proof fn lemma_closed_is_reused(open: Descriptors, fd: u64)
    requires
        FIRST_FREE_FD <= fd <= MAX_FD,
        forall|g: u64| FIRST_FREE_FD <= g < fd ==> open.contains_key(g),
    ensures
        lowest_free(open.remove(fd), fd),
{
}

/// Descriptors are handed out in order: while the descriptors from 3 up to
/// `n` are open and `n` is not, the next allocation returns `n`, and after
/// it the descriptors from 3 up to `n + 1` are open. With `MAX_FD` reached
/// the table is exhausted.
pub proof fn lemma_fill_in_order(open: Descriptors, n: u64, entry: FdEntry)
    requires
        FIRST_FREE_FD <= n <= MAX_FD,
        forall|g: u64| FIRST_FREE_FD <= g < n ==> open.contains_key(g),
        !open.contains_key(n),
    ensures
        lowest_free(open, n),
        forall|g: u64| FIRST_FREE_FD <= g <= n ==> open.insert(n, entry).contains_key(g),
        n == MAX_FD ==> exhausted(open.insert(n, entry)),
{
}

/// A table is exhausted exactly when it has no lowest free descriptor, so
/// allocation fails with `EMFILE` only then.
pub proof fn lemma_exhausted_iff_none_free(open: Descriptors)
    ensures
        exhausted(open) <==> forall|fd: u64| !lowest_free(open, fd),
{
    if !exhausted(open) {
        let g = choose|g: u64| FIRST_FREE_FD <= g <= MAX_FD && !open.contains_key(g);
        lemma_some_lowest(open, g);
    }
}

/// Below a free descriptor there is a lowest free one.
proof fn lemma_some_lowest(open: Descriptors, g: u64)
    requires
        FIRST_FREE_FD <= g <= MAX_FD,
        !open.contains_key(g),
    ensures
        exists|fd: u64| lowest_free(open, fd),
    decreases g,
{
    if forall|h: u64| FIRST_FREE_FD <= h < g ==> open.contains_key(h) {
        assert(lowest_free(open, g));
    } else {
        let h = choose|h: u64| FIRST_FREE_FD <= h < g && !open.contains_key(h);
        lemma_some_lowest(open, h);
    }
}

/// In a table in which only reserved descriptors are open, the first
/// allocation returns 3.
pub proof fn lemma_first_alloc_is_three(open: Descriptors)
    requires
        forall|fd: u64| open.contains_key(fd) ==> reserved(fd),
    ensures
        lowest_free(open, FIRST_FREE_FD),
{
    if open.contains_key(FIRST_FREE_FD) {
        assert(reserved(FIRST_FREE_FD));
    }
}

} // verus!
