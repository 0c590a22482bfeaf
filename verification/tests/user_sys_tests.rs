use bulldog::errno::{encode, Errno};
use bulldog::user_errno::Errno as UserErrno;
use bulldog::kernel::{init_fd_table_with_std, Kernel};
use bulldog::store::Backend;
use bulldog::user_sys::{close, err, is_err, ok, open, open_cstr, write_str};
use bulldog::vfs::init::vfs_init;

fn booted() -> Kernel {
    let mut k = Kernel::new();
    init_fd_table_with_std(&mut k);
    vfs_init(&mut k);
    k
}

fn stdout_lines(k: &Kernel) -> Vec<Vec<u8>> {
    match k.files.slots[1].as_ref().unwrap() {
        Backend::Stdout(s) => s.lines.clone(),
        _ => panic!("slot 1 is not standard output"),
    }
}

#[test]
fn raw_results_are_told_apart_by_their_sign() {
    assert_eq!(err(), u64::MAX);
    assert!(is_err(err()));
    assert!(is_err(encode(Errno::EBADF)));
    assert!(is_err(0x8000_0000_0000_0000));
    assert!(!is_err(0x7fff_ffff_ffff_ffff));
    assert!(!is_err(0));
    assert!(ok(0));
    assert!(ok(42));
    assert!(!ok(u64::MAX));
    assert!(!ok(encode(Errno::ENOSYS)));
}

#[test]
fn write_str_writes_the_bytes_of_the_string() {
    let mut k = booted();
    assert_eq!(write_str(&mut k, 1, "hello bulldog"), 13);
    assert_eq!(stdout_lines(&k), vec![b"hello bulldog".to_vec()]);
    assert_eq!(write_str(&mut k, 0, "x"), encode(Errno::EBADF));
    assert_eq!(write_str(&mut k, 9, "x"), encode(Errno::EBADF));
    assert_eq!(write_str(&mut k, 1, ""), 0);
    assert_eq!(write_str(&mut k, 2, "h\u{e9}"), 3);
}

#[test]
fn open_cstr_wants_a_terminated_string() {
    let mut k = booted();
    assert_eq!(open_cstr(&mut k, "foo.txt", 0), u64::MAX);
    assert_eq!(open_cstr(&mut k, "", 0), u64::MAX);
    assert!(k.fds.entry(3).is_err());
    assert_eq!(open_cstr(&mut k, "foo.txt\0", 0), 3);
    assert_eq!(open_cstr(&mut k, "/vfs/etc/hostname\0", 0), 4);
    assert_eq!(open_cstr(&mut k, "/vfs/none\0", 0), encode(Errno::ENOENT));
    assert_eq!(open_cstr(&mut k, "\0", 0), encode(Errno::EINVAL));
    assert_eq!(open_cstr(&mut k, "a\0b\0", 0), 5);
}

#[test]
fn typed_wrappers_decode_the_result() {
    let mut k = booted();
    assert_eq!(open(&mut k, "/vfs/var/log/test_write.txt", 0), Ok(3));
    assert_eq!(open(&mut k, "/vfs/etc", 0), Err(UserErrno::Unknown(21)));
    assert_eq!(open(&mut k, "", 0), Err(UserErrno::EINVAL));
    assert_eq!(open(&mut k, "x", 0xFFFF_FFFF), Err(UserErrno::EINVAL));
    assert_eq!(bulldog::user_sys::write(&mut k, 3, b"abc"), Ok(3));
    assert_eq!(bulldog::user_sys::write(&mut k, 3, b""), Ok(0));
    assert_eq!(bulldog::user_sys::write(&mut k, 0, b"abc"), Err(UserErrno::EBADF));
    assert_eq!(bulldog::user_sys::write(&mut k, 3, &[0u8; 5000]), Err(UserErrno::EINVAL));
    let h = k.fds.entry(3).unwrap().backend;
    match k.files.slots[h.id].as_ref().unwrap() {
        Backend::Mem(f) => assert_eq!(f.data, b"abc".to_vec()),
        _ => panic!("not a file"),
    }
    assert_eq!(close(&mut k, 3), Ok(()));
    assert_eq!(close(&mut k, 3), Err(UserErrno::EBADF));
    assert_eq!(close(&mut k, 1), Err(UserErrno::EBADF));
}

#[test]
fn read_fills_the_front_of_the_buffer() {
    let mut k = booted();
    assert_eq!(open(&mut k, "/vfs/etc/hostname", 0), Ok(3));
    let mut buf = vec![0xaau8; 16];
    assert_eq!(bulldog::user_sys::read(&mut k, 3, &mut buf), Ok(8));
    assert_eq!(&buf[..8], b"bulldog\n");
    assert_eq!(&buf[8..], &[0xaau8; 8]);
    assert_eq!(bulldog::user_sys::read(&mut k, 3, &mut buf), Ok(0));
    assert_eq!(bulldog::user_sys::read(&mut k, 9, &mut buf), Err(UserErrno::EBADF));
    assert_eq!(bulldog::user_sys::read(&mut k, 1, &mut buf), Err(UserErrno::EBADF));
    let mut none: Vec<u8> = Vec::new();
    assert_eq!(bulldog::user_sys::read(&mut k, 9, &mut none), Ok(0));
    assert_eq!(buf.len(), 16);
}
