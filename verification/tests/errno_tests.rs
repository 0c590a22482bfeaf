use bulldog::errno::{decode_errno, encode, err, strerror, Errno, EBADF, EINVAL, ENOSYS};
use bulldog::user_errno::{decode_ret, Errno as UserErrno};

#[test]
fn err_is_twos_complement_negation() {
    assert_eq!(err(ENOSYS), (-38i64) as u64);
    assert_eq!(err(EBADF), 0xffff_ffff_ffff_fff7);
    assert_eq!(err(EINVAL), (-22i64) as u64);
    assert_eq!(err(1), u64::MAX);
    assert_eq!(err(0), 0);
}

#[test]
fn encode_gives_negative_signed_value_with_errno_magnitude() {
    let all = [
        (Errno::EPERM, 1u64),
        (Errno::ENOENT, 2),
        (Errno::EBADF, 9),
        (Errno::EAGAIN, 11),
        (Errno::ENOMEM, 12),
        (Errno::EACCES, 13),
        (Errno::EFAULT, 14),
        (Errno::EEXIST, 17),
        (Errno::ENOTDIR, 20),
        (Errno::EISDIR, 21),
        (Errno::EINVAL, 22),
        (Errno::EMFILE, 24),
        (Errno::ENOSYS, 38),
    ];
    for (e, code) in all {
        let raw = encode(e);
        assert!((raw as i64) < 0);
        assert_eq!(-(raw as i64), code as i64);
        assert_eq!(e.code(), code);
        assert_eq!(raw, err(code));
        assert_eq!(decode_ret(raw), Err(UserErrno::from_raw(code as i64)));
    }
}

#[test]
fn from_raw_names_six_codes_and_keeps_every_other_number() {
    assert_eq!(UserErrno::from_raw(9), UserErrno::EBADF);
    assert_eq!(UserErrno::from_raw(14), UserErrno::EFAULT);
    assert_eq!(UserErrno::from_raw(22), UserErrno::EINVAL);
    assert_eq!(UserErrno::from_raw(38), UserErrno::ENOSYS);
    assert_eq!(UserErrno::from_raw(12), UserErrno::ENOMEM);
    assert_eq!(UserErrno::from_raw(24), UserErrno::EMFILE);
    for x in [1i64, 2, 11, 13, 17, 20, 21, 3, 0, -5, -9, 39, i64::MAX, i64::MIN] {
        assert_eq!(UserErrno::from_raw(x), UserErrno::Unknown(x));
    }
}

#[test]
fn decode_ret_splits_success_and_failure() {
    assert_eq!(decode_ret(0), Ok(0));
    assert_eq!(decode_ret(42), Ok(42));
    assert_eq!(decode_ret(0x7fff_ffff_ffff_ffff), Ok(0x7fff_ffff_ffff_ffff));
    assert_eq!(decode_ret(u64::MAX), Err(UserErrno::Unknown(1)));
    assert_eq!(decode_ret((-9i64) as u64), Err(UserErrno::EBADF));
    assert_eq!(decode_ret((-2i64) as u64), Err(UserErrno::Unknown(2)));
    assert_eq!(decode_ret((-21i64) as u64), Err(UserErrno::Unknown(21)));
    assert_eq!(decode_ret((-100i64) as u64), Err(UserErrno::Unknown(100)));
    assert_eq!(decode_ret(0x8000_0000_0000_0000), Err(UserErrno::Unknown(i64::MIN)));
    assert_eq!(decode_ret(0x8000_0000_0000_0001), Err(UserErrno::Unknown(i64::MAX)));
}

#[test]
fn user_code_sees_kernel_errors_by_number() {
    assert_eq!(decode_ret(encode(Errno::EBADF)), Err(UserErrno::EBADF));
    assert_eq!(decode_ret(encode(Errno::EFAULT)), Err(UserErrno::EFAULT));
    assert_eq!(decode_ret(encode(Errno::EINVAL)), Err(UserErrno::EINVAL));
    assert_eq!(decode_ret(encode(Errno::ENOSYS)), Err(UserErrno::ENOSYS));
    assert_eq!(decode_ret(encode(Errno::ENOMEM)), Err(UserErrno::ENOMEM));
    assert_eq!(decode_ret(encode(Errno::EMFILE)), Err(UserErrno::EMFILE));
    assert_eq!(decode_ret(encode(Errno::ENOENT)), Err(UserErrno::Unknown(2)));
    assert_eq!(decode_ret(encode(Errno::EISDIR)), Err(UserErrno::Unknown(21)));
    assert_eq!(decode_ret(encode(Errno::ENOTDIR)), Err(UserErrno::Unknown(20)));
    assert_eq!(decode_ret(encode(Errno::EPERM)), Err(UserErrno::Unknown(1)));
}

#[test]
fn strerror_describes_the_taxonomy() {
    assert_eq!(strerror(9), "Bad file descriptor");
    assert_eq!(strerror(14), "Bad address");
    assert_eq!(strerror(22), "Invalid argument");
    assert_eq!(strerror(24), "Too many open files");
    assert_eq!(strerror(38), "Function not implemented");
    assert_eq!(strerror(2), "No such file or directory");
    assert_eq!(strerror(20), "Not a directory");
    assert_eq!(strerror(21), "Is a directory");
    assert_eq!(strerror(1), "Operation not permitted");
    assert_eq!(strerror(3), "No such process");
    assert_eq!(strerror(40), "Too many symbolic links encountered");
    assert_eq!(strerror(133), "Memory page has hardware error");
    assert_eq!(strerror(41), "Unknown error");
    assert_eq!(strerror(58), "Unknown error");
    assert_eq!(strerror(134), "Unknown error");
    assert_eq!(strerror(0), "Unknown error");
    assert_eq!(strerror(9999), "Unknown error");
}

#[test]
fn errors_describe_themselves() {
    assert_eq!(decode_errno(Errno::EBADF), "Bad file descriptor");
    assert_eq!(decode_errno(Errno::EMFILE), "Too many open files");
    assert_eq!(decode_errno(Errno::ENOTDIR), "Not a directory");
    assert_eq!(decode_errno(Errno::EPERM), "Operation not permitted");
    assert_eq!(decode_errno(Errno::ENOSYS), "Function not implemented");
}
