//! Errors as user code sees them, and the decoding of raw return values.
//!
//! User code knows six of the kernel's error numbers by name. Any other
//! number is carried as it is.

use vstd::prelude::*;
use crate::errno::{FAILURE_FLOOR, code_of, encoded};

verus! {

/// An error of a syscall, as decoded on the user side.
#[derive(Clone, Copy, Debug, PartialEq, Eq, Structural)]
pub enum Errno {
    EBADF,
    EFAULT,
    EINVAL,
    ENOSYS,
    ENOMEM,
    EMFILE,
    /// A number that user code has no name for.
    Unknown(i64),
}

pub type SysResult<T> = Result<T, Errno>;

/// The error that a number decodes to: one of the six names for its
/// number, `Unknown` with the number for every other.
pub open spec fn errno_of(raw: int) -> Errno {
    if raw == 9 {
        Errno::EBADF
    } else if raw == 14 {
        Errno::EFAULT
    } else if raw == 22 {
        Errno::EINVAL
    } else if raw == 38 {
        Errno::ENOSYS
    } else if raw == 12 {
        Errno::ENOMEM
    } else if raw == 24 {
        Errno::EMFILE
    } else {
        Errno::Unknown(raw as i64)
    }
}

/// The number of an error.
pub open spec fn number_of(e: Errno) -> int {
    match e {
        Errno::EBADF => 9,
        Errno::EFAULT => 14,
        Errno::EINVAL => 22,
        Errno::ENOSYS => 38,
        Errno::ENOMEM => 12,
        Errno::EMFILE => 24,
        Errno::Unknown(x) => x as int,
    }
}

/// What a raw return value means: the value itself when it is non-negative
/// as a signed number, else the error whose number is its negation. The
/// most negative number has no negation and is carried as it is.
pub open spec fn decoded(raw: u64) -> Result<u64, Errno> {
    if raw < FAILURE_FLOOR {
        Ok(raw)
    } else if raw == FAILURE_FLOOR {
        Err(Errno::Unknown(i64::MIN))
    } else {
        Err(errno_of(0x1_0000_0000_0000_0000 - raw))
    }
}

impl Errno {
    /// Decodes an error number.
    pub fn from_raw(raw: i64) -> (e: Errno)
        ensures
            e == errno_of(raw as int),
            number_of(e) == raw,
    {
        match raw {
            9 => Errno::EBADF,
            14 => Errno::EFAULT,
            22 => Errno::EINVAL,
            38 => Errno::ENOSYS,
            12 => Errno::ENOMEM,
            24 => Errno::EMFILE,
            x => Errno::Unknown(x),
        }
    }
}

/// Splits a raw return value into the success value or the error.
pub fn decode_ret(raw: u64) -> (r: Result<u64, Errno>)
    ensures
        r == decoded(raw),
{
    if raw < FAILURE_FLOOR {
        Ok(raw)
    } else if raw == FAILURE_FLOOR {
        Err(Errno::from_raw(i64::MIN))
    } else {
        let magnitude: u64 = u64::MAX - raw + 1;
        Err(Errno::from_raw(magnitude as i64))
    }
}

/// Decoding is one to one: two numbers that decode to the same error are
/// the same number, so `Unknown` never carries one of the six numbers that
/// have a name.
pub proof fn lemma_from_raw_injective(a: i64, b: i64)
    ensures
        number_of(errno_of(a as int)) == a,
        errno_of(a as int) == errno_of(b as int) ==> a == b,
        errno_of(a as int) is Unknown <==> a != 9 && a != 14 && a != 22 && a != 38 && a != 12
            && a != 24,
{
}

/// What user code sees of an error that a handler encoded: the error of
/// its number, so one of the six by name and any other as `Unknown` with
/// the kernel's number.
pub proof fn lemma_encode_round_trip(e: crate::errno::Errno)
    ensures
        decoded(encoded(e) as u64) == Err::<u64, Errno>(errno_of(code_of(e))),
        number_of(errno_of(code_of(e))) == code_of(e),
{
}

/// A success value, one below the failure floor, decodes to itself.
pub proof fn lemma_success_round_trip(v: u64)
    requires
        v < FAILURE_FLOOR,
    ensures
        decoded(v) == Ok::<u64, Errno>(v),
{
}

} // verus!
