//! The in-memory file: a growable byte store with a cursor.

use vstd::prelude::*;
use crate::errno::Errno;
use crate::file::FileOps;

verus! {

/// A file held in memory. Reads and writes start at `offset` and move it.
pub struct MemFile {
    pub data: Vec<u8>,
    pub offset: usize,
}

/// The abstract state of an in-memory file.
pub struct MemFileView {
    pub data: Seq<u8>,
    pub offset: nat,
}

impl View for MemFile {
    type V = MemFileView;

    open spec fn view(&self) -> MemFileView {
        MemFileView { data: self.data@, offset: self.offset as nat }
    }
}

impl MemFileView {
    /// How many bytes a read into a buffer of `len` bytes delivers: what is
    /// left between the cursor and the end, at most `len`, and nothing once
    /// the cursor has reached the end.
    pub open spec fn read_count(self, len: nat) -> nat {
        if self.offset >= self.data.len() {
            0
        } else if self.data.len() - self.offset <= len {
            (self.data.len() - self.offset) as nat
        } else {
            len
        }
    }

    /// The bytes that a read into a buffer of `len` bytes delivers.
    pub open spec fn read_bytes(self, len: nat) -> Seq<u8> {
        if self.read_count(len) == 0 {
            Seq::empty()
        } else {
            self.data.subrange(self.offset as int, (self.offset + self.read_count(len)) as int)
        }
    }

    /// The file after that read: the cursor has moved past what was read.
    pub open spec fn after_read(self, len: nat) -> MemFileView {
        MemFileView { data: self.data, offset: self.offset + self.read_count(len) }
    }

    /// The file after `bytes` were written at the cursor: the store reaches
    /// at least to the end of the written range, a gap between the old end
    /// and the cursor is filled with zeros, the range holds `bytes`, and the
    /// cursor stands behind it.
    pub open spec fn after_write(self, bytes: Seq<u8>) -> MemFileView {
        let end = self.offset + bytes.len();
        let size = if end > self.data.len() {
            end
        } else {
            self.data.len()
        };
        MemFileView {
            data: Seq::new(
                size,
                |i: int|
                    if self.offset <= i < end {
                        bytes[i - self.offset]
                    } else if i < self.data.len() {
                        self.data[i]
                    } else {
                        0u8
                    },
            ),
            offset: end,
        }
    }

    /// The file with its cursor back at the start.
    pub open spec fn rewound(self) -> MemFileView {
        MemFileView { data: self.data, offset: 0 }
    }

    /// A write of `len` bytes fits: its end is still an index a machine word
    /// can hold.
    pub open spec fn can_write(self, len: nat) -> bool {
        self.offset + len <= usize::MAX
    }
}

impl MemFile {
    /// A file that holds `initial`, with the cursor at the start.
    pub fn new(initial: Vec<u8>) -> (f: MemFile)
        ensures
            f@ == (MemFileView { data: initial@, offset: 0 }),
    {
        MemFile { data: initial, offset: 0 }
    }
}

impl FileOps for MemFile {
    /// Copies what lies between the cursor and the end of the file, at most
    /// `buf.len()` bytes, to the front of `buf`. At the end of the file it
    /// delivers nothing and reports success with 0.
    fn read(&mut self, buf: &mut [u8]) -> (r: Result<usize, Errno>)
        ensures
            r == Ok::<usize, Errno>(old(self)@.read_count(old(buf)@.len()) as usize),
            final(self)@ == old(self)@.after_read(old(buf)@.len()),
            final(buf)@ == old(self)@.read_bytes(old(buf)@.len()) + old(buf)@.skip(
                old(self)@.read_count(old(buf)@.len()) as int,
            ),
    {
        let size: usize = self.data.len();
        if self.offset >= size {
            proof {
                assert(buf@ =~= old(self)@.read_bytes(old(buf)@.len()) + old(buf)@.skip(0));
            }
            return Ok(0);
        }
        let remaining: usize = size - self.offset;
        let count: usize = if remaining <= buf.len() {
            remaining
        } else {
            buf.len()
        };
        let start: usize = self.offset;
        let mut i: usize = 0;
        while i < count
            invariant
                i <= count,
                start + count <= size,
                size == self.data@.len(),
                count <= buf@.len(),
                buf@.len() == old(buf)@.len(),
                self.data@ == old(self).data@,
                self.offset == start,
                forall|j: int| 0 <= j < i ==> buf@[j] == self.data@[start + j],
                forall|j: int| i <= j < buf@.len() ==> buf@[j] == old(buf)@[j],
            decreases count - i,
        {
            buf[i] = self.data[start + i];
            i += 1;
        }
        self.offset = start + count;
        proof {
            assert(buf@ =~= old(self)@.read_bytes(old(buf)@.len()) + old(buf)@.skip(count as int));
            assert(buf@.skip(count as int) =~= old(buf)@.skip(count as int));
        }
        Ok(count)
    }

    /// Writes `buf` at the cursor, growing the file when the range reaches
    /// past its end. Refused with `ENOMEM`, the file unchanged, when the end
    /// of the range is no index that a machine word can hold.
    fn write(&mut self, buf: &[u8]) -> (r: Result<usize, Errno>)
        ensures
            old(self)@.can_write(buf@.len()) ==> r == Ok::<usize, Errno>(buf@.len() as usize)
                && final(self)@ == old(self)@.after_write(buf@),
            !old(self)@.can_write(buf@.len()) ==> r == Err::<usize, Errno>(Errno::ENOMEM)
                && final(self)@ == old(self)@,
    {
        let len: usize = buf.len();
        if len > usize::MAX - self.offset {
            return Err(Errno::ENOMEM);
        }
        let start: usize = self.offset;
        let end: usize = start + len;
        while self.data.len() < end
            invariant
                self.offset == start,
                self.data@.len() >= old(self).data@.len(),
                self.data@.len() <= end || self.data@.len() == old(self).data@.len(),
                forall|j: int| 0 <= j < old(self).data@.len() ==> self.data@[j] == old(self).data@[j],
                forall|j: int| old(self).data@.len() <= j < self.data@.len() ==> self.data@[j] == 0u8,
            decreases end - self.data.len(),
        {
            self.data.push(0u8);
        }
        let ghost grown = self.data@;
        let mut i: usize = 0;
        while i < len
            invariant
                i <= len,
                len == buf@.len(),
                end == start + len,
                self.offset == start,
                self.data@.len() == grown.len(),
                end <= grown.len(),
                forall|j: int| 0 <= j < start ==> self.data@[j] == grown[j],
                forall|j: int| start <= j < start + i ==> self.data@[j] == buf@[j - start],
                forall|j: int| start + i <= j < grown.len() ==> self.data@[j] == grown[j],
            decreases len - i,
        {
            self.data[start + i] = buf[i];
            i += 1;
        }
        self.offset = end;
        proof {
            let want = old(self)@.after_write(buf@).data;
            assert(self.data@.len() == want.len());
            assert forall|j: int| 0 <= j < want.len() implies self.data@[j] == want[j] by {
                if j < start {
                    assert(self.data@[j] == grown[j]);
                } else if j >= end {
                    assert(self.data@[j] == grown[j]);
                }
            }
            assert(self@.data =~= want);
        }
        Ok(len)
    }

    /// Moves the cursor to the start of the file.
    fn rewind(&mut self)
        ensures
            final(self)@ == old(self)@.rewound(),
    {
        self.offset = 0;
    }

    /// A file of its own with the bytes and the cursor of this one.
    fn clone_box(&self) -> (copy: MemFile)
        ensures
            copy@ == self@,
    {
        let mut data: Vec<u8> = Vec::new();
        let mut i: usize = 0;
        while i < self.data.len()
            invariant
                i <= self.data@.len(),
                data@ =~= self.data@.take(i as int),
            decreases self.data@.len() - i,
        {
            data.push(self.data[i]);
            proof {
                assert(data@ =~= self.data@.take(i + 1));
            }
            i += 1;
        }
        proof {
            assert(data@ =~= self.data@);
        }
        MemFile { data, offset: self.offset }
    }
}

/// What was written at the start of a file is read back after a rewind:
/// writing `bytes` with the cursor at 0, rewinding, and reading as many
/// bytes as were written delivers exactly `bytes`.
pub proof fn lemma_write_rewind_read(f: MemFileView, bytes: Seq<u8>)
    requires
        f.offset == 0,
    ensures
        f.after_write(bytes).rewound().read_count(bytes.len()) == bytes.len(),
        f.after_write(bytes).rewound().read_bytes(bytes.len()) == bytes,
{
    let g = f.after_write(bytes).rewound();
    assert(g.read_bytes(bytes.len()) =~= bytes);
}

/// A read at the position of the last write returns what was written there,
/// wherever the cursor stood.
pub proof fn lemma_read_back(f: MemFileView, bytes: Seq<u8>)
    ensures
        (MemFileView { data: f.after_write(bytes).data, offset: f.offset }).read_bytes(
            bytes.len(),
        ) == bytes,
{
    let g = MemFileView { data: f.after_write(bytes).data, offset: f.offset };
    assert(g.read_bytes(bytes.len()) =~= bytes);
}

/// A read at the end of the file delivers nothing and leaves the file as it
/// is.
pub proof fn lemma_read_at_end(f: MemFileView, len: nat)
    requires
        f.offset >= f.data.len(),
    ensures
        f.read_count(len) == 0,
        f.after_read(len) == f,
{
}

} // verus!
