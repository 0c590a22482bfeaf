//! The capability interfaces that every open resource offers, and the
//! resources themselves: the standard streams and the in-memory file.

use vstd::prelude::*;
use vstd::slice::slice_to_vec;
use vstd::utf8::valid_utf8;
use crate::errno::Errno;
use crate::text::{is_utf8, rows};

verus! {

/// What a descriptor can do. Every operation has a default that fails
/// cleanly, so a resource overrides only what it supports.
pub trait FileLike: Sized {
    /// Reads into `buf` and returns how many bytes were delivered. Bytes of
    /// `buf` past that count keep their value. By default refused: `EBADF`.
    fn read(&mut self, buf: &mut [u8]) -> (r: Result<usize, Errno>)
        ensures
            final(buf)@.len() == old(buf)@.len(),
            r matches Ok(n) ==> n <= old(buf)@.len() && final(buf)@.skip(n as int) == old(
                buf,
            )@.skip(n as int),
            r is Err ==> final(buf)@ == old(buf)@,
        default_ensures
            r == Err::<usize, Errno>(Errno::EBADF),
            *final(self) == *old(self),
    {
        Err(Errno::EBADF)
    }

    /// Writes `buf` and returns how many bytes were taken. By default
    /// refused: `EBADF`.
    fn write(&mut self, buf: &[u8]) -> (r: Result<usize, Errno>)
        ensures
            r matches Ok(n) ==> n <= buf@.len(),
        default_ensures
            r == Err::<usize, Errno>(Errno::EBADF),
            *final(self) == *old(self),
    {
        Err(Errno::EBADF)
    }

    /// Releases the resource. By default succeeds and does nothing.
    fn close(&mut self) -> (r: Result<(), Errno>)
        default_ensures
            r is Ok,
            *final(self) == *old(self),
    {
        Ok(())
    }

    /// Moves the cursor to `offset`. By default refused: `EINVAL`.
    fn seek(&mut self, offset: usize) -> (r: Result<(), Errno>)
        default_ensures
            r == Err::<(), Errno>(Errno::EINVAL),
            *final(self) == *old(self),
    {
        Err(Errno::EINVAL)
    }
}

/// What a file of the virtual filesystem can do. A backend that does not
/// override an operation reports it as unimplemented.
pub trait FileOps: Sized {
    /// Reads into `buf` and returns how many bytes were delivered. Bytes of
    /// `buf` past that count keep their value. By default `ENOSYS`.
    fn read(&mut self, buf: &mut [u8]) -> (r: Result<usize, Errno>)
        ensures
            final(buf)@.len() == old(buf)@.len(),
            r matches Ok(n) ==> n <= old(buf)@.len() && final(buf)@.skip(n as int) == old(
                buf,
            )@.skip(n as int),
            r is Err ==> final(buf)@ == old(buf)@,
        default_ensures
            r == Err::<usize, Errno>(Errno::ENOSYS),
            *final(self) == *old(self),
    {
        Err(Errno::ENOSYS)
    }

    /// Writes `buf` and returns how many bytes were taken. By default
    /// `ENOSYS`.
    fn write(&mut self, buf: &[u8]) -> (r: Result<usize, Errno>)
        ensures
            r matches Ok(n) ==> n <= buf@.len(),
        default_ensures
            r == Err::<usize, Errno>(Errno::ENOSYS),
            *final(self) == *old(self),
    {
        Err(Errno::ENOSYS)
    }

    /// Releases the backend. By default succeeds and does nothing.
    fn close(&mut self) -> (r: Result<(), Errno>)
        default_ensures
            r is Ok,
            *final(self) == *old(self),
    {
        Ok(())
    }

    /// Puts the cursor back at the start. By default does nothing.
    fn rewind(&mut self)
        default_ensures
            *final(self) == *old(self),
    {
    }

    /// A backend of its own in the state of this one. Every backend has to
    /// say how it is copied.
    fn clone_box(&self) -> (copy: Self)
    ;
}

/// The reserved input descriptor: nothing can be read from it yet, and
/// nothing written to it.
pub struct Stdin;

impl FileLike for Stdin {

}

/// The lines of a sink after it was handed `data`: a record that is
/// well-formed UTF-8 becomes its newest line, any other is dropped.
pub open spec fn logged(lines: Seq<Seq<u8>>, data: Seq<u8>) -> Seq<Seq<u8>> {
    if valid_utf8(data) {
        lines.push(data)
    } else {
        lines
    }
}

/// Appends `data` to `lines` as `logged` says.
fn log_line(lines: &mut Vec<Vec<u8>>, data: &[u8])
    ensures
        rows(*final(lines)) == logged(rows(*old(lines)), data@),
{
    if is_utf8(data) {
        lines.push(slice_to_vec(data));
        proof {
            assert(rows(*lines) =~= rows(*old(lines)).push(data@));
        }
    }
}

/// Standard output: a write-only sink that keeps each record written to it
/// as a line, for the console to show.
pub struct Stdout {
    pub lines: Vec<Vec<u8>>,
}

impl Stdout {
    /// An empty sink.
    pub fn new() -> (s: Stdout)
        ensures
            rows(s.lines) == Seq::<Seq<u8>>::empty(),
    {
        let s = Stdout { lines: Vec::new() };
        proof {
            assert(rows(s.lines) =~= Seq::<Seq<u8>>::empty());
        }
        s
    }
}

impl Stdout {
    /// Hands out the lines that were written since the last call, oldest
    /// first, and forgets them.
    pub fn take_lines(&mut self) -> (lines: Vec<Vec<u8>>)
        ensures
            rows(lines) == rows(old(self).lines),
            rows(final(self).lines) == Seq::<Seq<u8>>::empty(),
    {
        let mut lines: Vec<Vec<u8>> = Vec::new();
        std::mem::swap(&mut lines, &mut self.lines);
        proof {
            assert(rows(self.lines) =~= Seq::<Seq<u8>>::empty());
        }
        lines
    }
}

impl FileLike for Stdout {
    /// Takes the whole of `buf` as one record.
    fn write(&mut self, buf: &[u8]) -> (r: Result<usize, Errno>)
        ensures
            r == Ok::<usize, Errno>(buf@.len() as usize),
            rows(final(self).lines) == logged(rows(old(self).lines), buf@),
    {
        log_line(&mut self.lines, buf);
        Ok(buf.len())
    }
}

/// Standard error: a sink like `Stdout`, kept apart so that the console can
/// tell the two streams from each other.
pub struct Stderr {
    pub lines: Vec<Vec<u8>>,
}

impl Stderr {
    /// An empty sink.
    pub fn new() -> (s: Stderr)
        ensures
            rows(s.lines) == Seq::<Seq<u8>>::empty(),
    {
        let s = Stderr { lines: Vec::new() };
        proof {
            assert(rows(s.lines) =~= Seq::<Seq<u8>>::empty());
        }
        s
    }
}

impl Stderr {
    /// Hands out the lines that were written since the last call, oldest
    /// first, and forgets them.
    pub fn take_lines(&mut self) -> (lines: Vec<Vec<u8>>)
        ensures
            rows(lines) == rows(old(self).lines),
            rows(final(self).lines) == Seq::<Seq<u8>>::empty(),
    {
        let mut lines: Vec<Vec<u8>> = Vec::new();
        std::mem::swap(&mut lines, &mut self.lines);
        proof {
            assert(rows(self.lines) =~= Seq::<Seq<u8>>::empty());
        }
        lines
    }
}

impl FileLike for Stderr {
    /// Takes the whole of `buf` as one record.
    fn write(&mut self, buf: &[u8]) -> (r: Result<usize, Errno>)
        ensures
            r == Ok::<usize, Errno>(buf@.len() as usize),
            rows(final(self).lines) == logged(rows(old(self).lines), buf@),
    {
        log_line(&mut self.lines, buf);
        Ok(buf.len())
    }
}

} // verus!
