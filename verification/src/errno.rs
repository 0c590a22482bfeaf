//! Error taxonomy of the kernel and the encoding of errors in a raw return value.
//!
//! A syscall reports success as a non-negative value and failure as the
//! two's-complement negation of an error code, so the raw `u64` read as a signed
//! number is negative exactly when the call failed.

use vstd::prelude::*;

verus! {

pub const EPERM: u64 = 1;
pub const ENOENT: u64 = 2;
pub const ESRCH: u64 = 3;
pub const EINTR: u64 = 4;
pub const EIO: u64 = 5;
pub const ENXIO: u64 = 6;
pub const E2BIG: u64 = 7;
pub const ENOEXEC: u64 = 8;
pub const EBADF: u64 = 9;
pub const ECHILD: u64 = 10;
pub const EAGAIN: u64 = 11;
pub const ENOMEM: u64 = 12;
pub const EACCES: u64 = 13;
pub const EFAULT: u64 = 14;
pub const ENOTBLK: u64 = 15;
pub const EBUSY: u64 = 16;
pub const EEXIST: u64 = 17;
pub const EXDEV: u64 = 18;
pub const ENODEV: u64 = 19;
pub const ENOTDIR: u64 = 20;
pub const EISDIR: u64 = 21;
pub const EINVAL: u64 = 22;
pub const ENFILE: u64 = 23;
pub const EMFILE: u64 = 24;
pub const ENOTTY: u64 = 25;
pub const ETXTBSY: u64 = 26;
pub const EFBIG: u64 = 27;
pub const ENOSPC: u64 = 28;
pub const ESPIPE: u64 = 29;
pub const EROFS: u64 = 30;
pub const EMLINK: u64 = 31;
pub const EPIPE: u64 = 32;
pub const EDOM: u64 = 33;
pub const ERANGE: u64 = 34;
pub const EDEADLK: u64 = 35;
pub const ENAMETOOLONG: u64 = 36;
pub const ENOLCK: u64 = 37;
pub const ENOSYS: u64 = 38;
pub const ENOTEMPTY: u64 = 39;
pub const ELOOP: u64 = 40;
pub const ENOMSG: u64 = 42;
pub const EIDRM: u64 = 43;
pub const ECHRNG: u64 = 44;
pub const EL2NSYNC: u64 = 45;
pub const EL3HLT: u64 = 46;
pub const EL3RST: u64 = 47;
pub const ELNRNG: u64 = 48;
pub const EUNATCH: u64 = 49;
pub const ENOCSI: u64 = 50;
pub const EL2HLT: u64 = 51;
pub const EBADE: u64 = 52;
pub const EBADR: u64 = 53;
pub const EXFULL: u64 = 54;
pub const ENOANO: u64 = 55;
pub const EBADRQC: u64 = 56;
pub const EBADSLT: u64 = 57;
pub const EBFONT: u64 = 59;
pub const ENOSTR: u64 = 60;
pub const ENODATA: u64 = 61;
pub const ETIME: u64 = 62;
pub const ENOSR: u64 = 63;
pub const ENONET: u64 = 64;
pub const ENOPKG: u64 = 65;
pub const EREMOTE: u64 = 66;
pub const ENOLINK: u64 = 67;
pub const EADV: u64 = 68;
pub const ESRMNT: u64 = 69;
pub const ECOMM: u64 = 70;
pub const EPROTO: u64 = 71;
pub const EMULTIHOP: u64 = 72;
pub const EDOTDOT: u64 = 73;
pub const EBADMSG: u64 = 74;
pub const EOVERFLOW: u64 = 75;
pub const ENOTUNIQ: u64 = 76;
pub const EBADFD: u64 = 77;
pub const EREMCHG: u64 = 78;
pub const ELIBACC: u64 = 79;
pub const ELIBBAD: u64 = 80;
pub const ELIBSCN: u64 = 81;
pub const ELIBMAX: u64 = 82;
pub const ELIBEXEC: u64 = 83;
pub const EILSEQ: u64 = 84;
pub const ERESTART: u64 = 85;
pub const ESTRPIPE: u64 = 86;
pub const EUSERS: u64 = 87;
pub const ENOTSOCK: u64 = 88;
pub const EDESTADDRREQ: u64 = 89;
pub const EMSGSIZE: u64 = 90;
pub const EPROTOTYPE: u64 = 91;
pub const ENOPROTOOPT: u64 = 92;
pub const EPROTONOSUPPORT: u64 = 93;
pub const ESOCKTNOSUPPORT: u64 = 94;
pub const EOPNOTSUPP: u64 = 95;
pub const EPFNOSUPPORT: u64 = 96;
pub const EAFNOSUPPORT: u64 = 97;
pub const EADDRINUSE: u64 = 98;
pub const EADDRNOTAVAIL: u64 = 99;
pub const ENETDOWN: u64 = 100;
pub const ENETUNREACH: u64 = 101;
pub const ENETRESET: u64 = 102;
pub const ECONNABORTED: u64 = 103;
pub const ECONNRESET: u64 = 104;
pub const ENOBUFS: u64 = 105;
pub const EISCONN: u64 = 106;
pub const ENOTCONN: u64 = 107;
pub const ESHUTDOWN: u64 = 108;
pub const ETOOMANYREFS: u64 = 109;
pub const ETIMEDOUT: u64 = 110;
pub const ECONNREFUSED: u64 = 111;
pub const EHOSTDOWN: u64 = 112;
pub const EHOSTUNREACH: u64 = 113;
pub const EALREADY: u64 = 114;
pub const EINPROGRESS: u64 = 115;
pub const ESTALE: u64 = 116;
pub const EUCLEAN: u64 = 117;
pub const ENOTNAM: u64 = 118;
pub const ENAVAIL: u64 = 119;
pub const EISNAM: u64 = 120;
pub const EREMOTEIO: u64 = 121;
pub const EDQUOT: u64 = 122;
pub const ENOMEDIUM: u64 = 123;
pub const EMEDIUMTYPE: u64 = 124;
pub const ECANCELED: u64 = 125;
pub const ENOKEY: u64 = 126;
pub const EKEYEXPIRED: u64 = 127;
pub const EKEYREVOKED: u64 = 128;
pub const EKEYREJECTED: u64 = 129;
pub const EOWNERDEAD: u64 = 130;
pub const ENOTRECOVERABLE: u64 = 131;
pub const ERFKILL: u64 = 132;
pub const EHWPOISON: u64 = 133;

/// Smallest raw return value that denotes a failure.
pub const FAILURE_FLOOR: u64 = 0x8000_0000_0000_0000;

/// The error codes that the kernel reports: a closed set.
#[derive(Clone, Copy, Debug, PartialEq, Eq, Structural)]
pub enum Errno {
    EPERM,
    ENOENT,
    EBADF,
    EAGAIN,
    ENOMEM,
    EACCES,
    EFAULT,
    EEXIST,
    ENOTDIR,
    EISDIR,
    EINVAL,
    EMFILE,
    ENOSYS,
}

/// The number of an error.
pub open spec fn code_of(e: Errno) -> int {
    match e {
        Errno::EPERM => 1,
        Errno::ENOENT => 2,
        Errno::EBADF => 9,
        Errno::EAGAIN => 11,
        Errno::ENOMEM => 12,
        Errno::EACCES => 13,
        Errno::EFAULT => 14,
        Errno::EEXIST => 17,
        Errno::ENOTDIR => 20,
        Errno::EISDIR => 21,
        Errno::EINVAL => 22,
        Errno::EMFILE => 24,
        Errno::ENOSYS => 38,
    }
}

/// Two's-complement negation of `code` in 64 bits.
pub open spec fn negated(code: int) -> int {
    if code == 0 {
        0
    } else {
        0x1_0000_0000_0000_0000 - code
    }
}

/// The raw return value that reports the error `e`.
pub open spec fn encoded(e: Errno) -> int {
    negated(code_of(e))
}

impl Errno {
    /// The number of this error.
    pub fn code(&self) -> (c: u64)
        ensures
            c == code_of(*self),
    {
        match self {
            Errno::EPERM => 1,
            Errno::ENOENT => 2,
            Errno::EBADF => 9,
            Errno::EAGAIN => 11,
            Errno::ENOMEM => 12,
            Errno::EACCES => 13,
            Errno::EFAULT => 14,
            Errno::EEXIST => 17,
            Errno::ENOTDIR => 20,
            Errno::EISDIR => 21,
            Errno::EINVAL => 22,
            Errno::EMFILE => 24,
            Errno::ENOSYS => 38,
        }
    }
}

/// Encodes an error number as a raw return value: its negation in 64 bits.
pub fn err(errno: u64) -> (r: u64)
    ensures
        r == negated(errno as int),
        0 < errno <= FAILURE_FLOOR ==> r >= FAILURE_FLOOR,
{
    if errno == 0 {
        0
    } else {
        u64::MAX - errno + 1
    }
}

/// Encodes an error as a raw return value.
pub fn encode(e: Errno) -> (r: u64)
    ensures
        r == encoded(e),
        r > FAILURE_FLOOR,
        r == 0x1_0000_0000_0000_0000 - code_of(e),
{
    err(e.code())
}

/// A short description of an error number, for diagnostics.
pub fn strerror(errno: u64) -> (msg: &'static str)
    ensures
        msg@ == message_of(errno),
{
    match errno {
        1 => "Operation not permitted",
        2 => "No such file or directory",
        3 => "No such process",
        4 => "Interrupted system call",
        5 => "I/O error",
        6 => "No such device or address",
        7 => "Argument list too long",
        8 => "Exec format error",
        9 => "Bad file descriptor",
        10 => "No child processes",
        11 => "Try again",
        12 => "Out of memory",
        13 => "Permission denied",
        14 => "Bad address",
        15 => "Block device required",
        16 => "Device or resource busy",
        17 => "File exists",
        18 => "Cross-device link",
        19 => "No such device",
        20 => "Not a directory",
        21 => "Is a directory",
        22 => "Invalid argument",
        23 => "File table overflow",
        24 => "Too many open files",
        25 => "Not a typewriter",
        26 => "Text file busy",
        27 => "File too large",
        28 => "No space left on device",
        29 => "Illegal seek",
        30 => "Read-only file system",
        31 => "Too many links",
        32 => "Broken pipe",
        33 => "Math argument out of domain of func",
        34 => "Math result not representable",
        35 => "Resource deadlock would occur",
        36 => "File name too long",
        37 => "No record locks available",
        38 => "Function not implemented",
        39 => "Directory not empty",
        40 => "Too many symbolic links encountered",
        42 => "No message of desired type",
        43 => "Identifier removed",
        44 => "Channel number out of range",
        45 => "Level 2 not synchronized",
        46 => "Level 3 halted",
        47 => "Level 3 reset",
        48 => "Link number out of range",
        49 => "Protocol driver not attached",
        50 => "No CSI structure available",
        51 => "Level 2 halted",
        52 => "Invalid exchange",
        53 => "Invalid request descriptor",
        54 => "Exchange full",
        55 => "No anode",
        56 => "Invalid request code",
        57 => "Invalid slot",
        59 => "Bad font file format",
        60 => "Device not a stream",
        61 => "No data available",
        62 => "Timer expired",
        63 => "Out of streams",
        64 => "Machine is not on the network",
        65 => "Package not installed",
        66 => "Object is remote",
        67 => "Link has been severed",
        68 => "Advertise error",
        69 => "Srmount error",
        70 => "Communication error on send",
        71 => "Protocol error",
        72 => "Multihop attempted",
        73 => "RFS specific error",
        74 => "Not a data message",
        75 => "Value too large for defined data type",
        76 => "Name not unique",
        77 => "File descriptor in bad state",
        78 => "Remote address changed",
        79 => "Can not access a needed shared library",
        80 => "Accessing a corrupted shared library",
        81 => ".lib section in a.out corrupted",
        82 => "Attempting to link in too many shared libraries",
        83 => "Cannot exec a shared library directly",
        84 => "Illegal byte sequence",
        85 => "Interrupted system call should be restarted",
        86 => "Streams pipe error",
        87 => "Too many users",
        88 => "Socket operation on non-socket",
        89 => "Destination address required",
        90 => "Message too long",
        91 => "Protocol wrong type for socket",
        92 => "Protocol not available",
        93 => "Protocol not supported",
        94 => "Socket type not supported",
        95 => "Operation not supported on transport endpoint",
        96 => "Protocol family not supported",
        97 => "Address family not supported by protocol",
        98 => "Address already in use",
        99 => "Cannot assign requested address",
        100 => "Network is down",
        101 => "Network is unreachable",
        102 => "Network dropped connection because of reset",
        103 => "Software caused connection abort",
        104 => "Connection reset by peer",
        105 => "No buffer space available",
        106 => "Transport endpoint is already connected",
        107 => "Transport endpoint is not connected",
        108 => "Cannot send after transport endpoint shutdown",
        109 => "Too many references: cannot splice",
        110 => "Connection timed out",
        111 => "Connection refused",
        112 => "Host is down",
        113 => "No route to host",
        114 => "Operation already in progress",
        115 => "Operation now in progress",
        116 => "Stale file handle",
        117 => "Structure needs cleaning",
        118 => "Not a XENIX named type file",
        119 => "No XENIX semaphores available",
        120 => "Is a XENIX named type file",
        121 => "Remote I/O error",
        122 => "Quota exceeded",
        123 => "No medium found",
        124 => "Wrong medium type",
        125 => "Operation canceled",
        126 => "Required key not available",
        127 => "Key has expired",
        128 => "Key has been revoked",
        129 => "Key was rejected by service",
        130 => "Owner died",
        131 => "State not recoverable",
        132 => "Operation not possible due to RFKill",
        133 => "Memory page has hardware error",
        _ => "Unknown error",
    }
}

/// The description that `strerror` gives of each error number.
pub open spec fn message_of(errno: u64) -> Seq<char> {
    match errno {
        1 => "Operation not permitted"@,
        2 => "No such file or directory"@,
        3 => "No such process"@,
        4 => "Interrupted system call"@,
        5 => "I/O error"@,
        6 => "No such device or address"@,
        7 => "Argument list too long"@,
        8 => "Exec format error"@,
        9 => "Bad file descriptor"@,
        10 => "No child processes"@,
        11 => "Try again"@,
        12 => "Out of memory"@,
        13 => "Permission denied"@,
        14 => "Bad address"@,
        15 => "Block device required"@,
        16 => "Device or resource busy"@,
        17 => "File exists"@,
        18 => "Cross-device link"@,
        19 => "No such device"@,
        20 => "Not a directory"@,
        21 => "Is a directory"@,
        22 => "Invalid argument"@,
        23 => "File table overflow"@,
        24 => "Too many open files"@,
        25 => "Not a typewriter"@,
        26 => "Text file busy"@,
        27 => "File too large"@,
        28 => "No space left on device"@,
        29 => "Illegal seek"@,
        30 => "Read-only file system"@,
        31 => "Too many links"@,
        32 => "Broken pipe"@,
        33 => "Math argument out of domain of func"@,
        34 => "Math result not representable"@,
        35 => "Resource deadlock would occur"@,
        36 => "File name too long"@,
        37 => "No record locks available"@,
        38 => "Function not implemented"@,
        39 => "Directory not empty"@,
        40 => "Too many symbolic links encountered"@,
        42 => "No message of desired type"@,
        43 => "Identifier removed"@,
        44 => "Channel number out of range"@,
        45 => "Level 2 not synchronized"@,
        46 => "Level 3 halted"@,
        47 => "Level 3 reset"@,
        48 => "Link number out of range"@,
        49 => "Protocol driver not attached"@,
        50 => "No CSI structure available"@,
        51 => "Level 2 halted"@,
        52 => "Invalid exchange"@,
        53 => "Invalid request descriptor"@,
        54 => "Exchange full"@,
        55 => "No anode"@,
        56 => "Invalid request code"@,
        57 => "Invalid slot"@,
        59 => "Bad font file format"@,
        60 => "Device not a stream"@,
        61 => "No data available"@,
        62 => "Timer expired"@,
        63 => "Out of streams"@,
        64 => "Machine is not on the network"@,
        65 => "Package not installed"@,
        66 => "Object is remote"@,
        67 => "Link has been severed"@,
        68 => "Advertise error"@,
        69 => "Srmount error"@,
        70 => "Communication error on send"@,
        71 => "Protocol error"@,
        72 => "Multihop attempted"@,
        73 => "RFS specific error"@,
        74 => "Not a data message"@,
        75 => "Value too large for defined data type"@,
        76 => "Name not unique"@,
        77 => "File descriptor in bad state"@,
        78 => "Remote address changed"@,
        79 => "Can not access a needed shared library"@,
        80 => "Accessing a corrupted shared library"@,
        81 => ".lib section in a.out corrupted"@,
        82 => "Attempting to link in too many shared libraries"@,
        83 => "Cannot exec a shared library directly"@,
        84 => "Illegal byte sequence"@,
        85 => "Interrupted system call should be restarted"@,
        86 => "Streams pipe error"@,
        87 => "Too many users"@,
        88 => "Socket operation on non-socket"@,
        89 => "Destination address required"@,
        90 => "Message too long"@,
        91 => "Protocol wrong type for socket"@,
        92 => "Protocol not available"@,
        93 => "Protocol not supported"@,
        94 => "Socket type not supported"@,
        95 => "Operation not supported on transport endpoint"@,
        96 => "Protocol family not supported"@,
        97 => "Address family not supported by protocol"@,
        98 => "Address already in use"@,
        99 => "Cannot assign requested address"@,
        100 => "Network is down"@,
        101 => "Network is unreachable"@,
        102 => "Network dropped connection because of reset"@,
        103 => "Software caused connection abort"@,
        104 => "Connection reset by peer"@,
        105 => "No buffer space available"@,
        106 => "Transport endpoint is already connected"@,
        107 => "Transport endpoint is not connected"@,
        108 => "Cannot send after transport endpoint shutdown"@,
        109 => "Too many references: cannot splice"@,
        110 => "Connection timed out"@,
        111 => "Connection refused"@,
        112 => "Host is down"@,
        113 => "No route to host"@,
        114 => "Operation already in progress"@,
        115 => "Operation now in progress"@,
        116 => "Stale file handle"@,
        117 => "Structure needs cleaning"@,
        118 => "Not a XENIX named type file"@,
        119 => "No XENIX semaphores available"@,
        120 => "Is a XENIX named type file"@,
        121 => "Remote I/O error"@,
        122 => "Quota exceeded"@,
        123 => "No medium found"@,
        124 => "Wrong medium type"@,
        125 => "Operation canceled"@,
        126 => "Required key not available"@,
        127 => "Key has expired"@,
        128 => "Key has been revoked"@,
        129 => "Key was rejected by service"@,
        130 => "Owner died"@,
        131 => "State not recoverable"@,
        132 => "Operation not possible due to RFKill"@,
        133 => "Memory page has hardware error"@,
        _ => "Unknown error"@,
    }
}

/// A short description of an error, for diagnostics: that of its number.
pub fn decode_errno(e: Errno) -> (msg: &'static str)
    ensures
        msg@ == message_of(code_of(e) as u64),
{
    strerror(e.code())
}

/// An encoded error is negative as a signed number, and its magnitude is
/// the number of the error: no success value is taken for an error, and two
/// errors never share an encoding.
pub proof fn lemma_encoding(e: Errno, other: Errno)
    ensures
        encoded(e) >= FAILURE_FLOOR,
        0x1_0000_0000_0000_0000 - encoded(e) == code_of(e),
        encoded(e) == encoded(other) ==> e == other,
{
}

} // verus!
