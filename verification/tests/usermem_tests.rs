use bulldog::errno::Errno;
use bulldog::usermem::{
    copy_cstr_from_user, copy_from_user, copy_to_user, is_user_ptr, UserMemory, CSTR_MAX,
    USER_SPACE_MAX,
};

fn window(base: u64, bytes: &[u8]) -> UserMemory {
    UserMemory::new(base, bytes.to_vec()).unwrap()
}

#[test]
fn guard_rejects_null_kernel_and_non_canonical_addresses() {
    assert!(!is_user_ptr(0));
    assert!(is_user_ptr(1));
    assert!(is_user_ptr(0x1000));
    assert!(is_user_ptr(USER_SPACE_MAX));
    assert!(!is_user_ptr(USER_SPACE_MAX + 1));
    assert!(!is_user_ptr(0x0000_8000_0000_0000));
    assert!(!is_user_ptr(0x1234_0000_0000_0000));
    assert!(!is_user_ptr(0xffff_8000_0000_0000));
    assert!(!is_user_ptr(0xffff_ffff_ffff_ffff));
}

#[test]
fn window_must_not_wrap() {
    assert!(UserMemory::new(u64::MAX, vec![1, 2]).is_none());
    assert!(UserMemory::new(u64::MAX - 2, vec![1, 2]).is_some());
    assert!(UserMemory::new(0, vec![]).is_some());
}

#[test]
fn copy_from_user_copies_the_range() {
    let mem = window(0x1000, b"hello world");
    assert_eq!(copy_from_user(&mem, 0x1000, 5), Ok(b"hello".to_vec()));
    assert_eq!(copy_from_user(&mem, 0x1006, 5), Ok(b"world".to_vec()));
    assert_eq!(copy_from_user(&mem, 0x1003, 0), Ok(vec![]));
    assert_eq!(copy_from_user(&mem, 0x1000, 11), Ok(b"hello world".to_vec()));
}

#[test]
fn copy_from_user_faults_on_bad_ranges() {
    let mem = window(0x1000, b"hello world");
    assert_eq!(copy_from_user(&mem, 0, 1), Err(Errno::EFAULT));
    assert_eq!(copy_from_user(&mem, 0xfff, 2), Err(Errno::EFAULT));
    assert_eq!(copy_from_user(&mem, 0x1000, 12), Err(Errno::EFAULT));
    assert_eq!(copy_from_user(&mem, 0x100b, 1), Err(Errno::EFAULT));
    assert_eq!(copy_from_user(&mem, 0xffff_ffff_ffff_ffff, 8), Err(Errno::EFAULT));
    assert_eq!(copy_from_user(&mem, 0x1000, usize::MAX), Err(Errno::EFAULT));
    let high = window(0xffff_8000_0000_0000, b"kernel");
    assert_eq!(copy_from_user(&high, 0xffff_8000_0000_0000, 3), Err(Errno::EFAULT));
}

#[test]
fn copy_to_user_writes_the_range_and_nothing_else() {
    let mut mem = window(0x2000, &[0u8; 8]);
    assert_eq!(copy_to_user(&mut mem, 0x2002, b"abc"), Ok(()));
    assert_eq!(mem.bytes, vec![0, 0, b'a', b'b', b'c', 0, 0, 0]);
    assert_eq!(mem.base, 0x2000);
    assert_eq!(copy_to_user(&mut mem, 0x2006, b"xyz"), Err(Errno::EFAULT));
    assert_eq!(copy_to_user(&mut mem, 0, b"x"), Err(Errno::EFAULT));
    assert_eq!(mem.bytes, vec![0, 0, b'a', b'b', b'c', 0, 0, 0]);
    assert_eq!(copy_to_user(&mut mem, 0x2000, b""), Ok(()));
}

#[test]
fn cstr_is_read_up_to_its_terminator() {
    let mem = window(0x1000, b"foo.txt\0junk\0");
    assert_eq!(copy_cstr_from_user(&mem, 0x1000), Ok(b"foo.txt".to_vec()));
    assert_eq!(copy_cstr_from_user(&mem, 0x1004), Ok(b"txt".to_vec()));
    assert_eq!(copy_cstr_from_user(&mem, 0x1007), Ok(vec![]));
    assert_eq!(copy_cstr_from_user(&mem, 0x1008), Ok(b"junk".to_vec()));
}

#[test]
fn cstr_without_terminator_in_reach_is_refused() {
    let mem = window(0x1000, b"no terminator");
    assert_eq!(copy_cstr_from_user(&mem, 0x1000), Err(Errno::EFAULT));
    let mut long = vec![b'a'; CSTR_MAX];
    long.push(0);
    let mem = window(0x1000, &long);
    assert_eq!(copy_cstr_from_user(&mem, 0x1000), Err(Errno::EFAULT));
    let mut fits = vec![b'a'; CSTR_MAX - 1];
    fits.push(0);
    let mem = window(0x1000, &fits);
    assert_eq!(copy_cstr_from_user(&mem, 0x1000), Ok(vec![b'a'; CSTR_MAX - 1]));
}

#[test]
fn cstr_must_be_utf8_and_behind_the_guard() {
    let mem = window(0x1000, &[0xff, 0xfe, 0]);
    assert_eq!(copy_cstr_from_user(&mem, 0x1000), Err(Errno::EFAULT));
    let mem = window(0x1000, "h\u{e9}llo\0".as_bytes());
    assert_eq!(copy_cstr_from_user(&mem, 0x1000), Ok("h\u{e9}llo".as_bytes().to_vec()));
    assert_eq!(copy_cstr_from_user(&mem, 0), Err(Errno::EFAULT));
    assert_eq!(copy_cstr_from_user(&mem, 0xffff_ffff_ffff_ffff), Err(Errno::EFAULT));
    assert_eq!(copy_cstr_from_user(&mem, 0x999), Err(Errno::EFAULT));
}
