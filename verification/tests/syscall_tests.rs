use bulldog::errno::{encode, err, Errno, EBADF, EFAULT, EINVAL, EMFILE, ENOSYS};
use bulldog::fd::MAX_FD;
use bulldog::kernel::{init_fd_table_with_std, is_referenced, reclaim, sweep, Kernel};
use bulldog::memfile::MemFile;
use bulldog::store::{Backend, FileHandle};
use bulldog::syscall::close::{sys_close, sys_close_trampoline};
use bulldog::syscall::dispatcher::dispatch;
use bulldog::syscall::exit::{sys_exit, sys_exit_trampoline};
use bulldog::syscall::open::{is_vfs_path, sys_open};
use bulldog::syscall::read::sys_read;
use bulldog::syscall::table::{
    init_table, lookup, SyscallFn, SYSCALL_TABLE_SIZE, SYS_CLOSE, SYS_EXIT, SYS_OPEN, SYS_READ,
    SYS_WRITE,
};
use bulldog::syscall::write::sys_write;
use bulldog::usermem::UserMemory;
use bulldog::vfs::init::vfs_init;
use bulldog::vfs::ops::vfs_create_file;

const BASE: u64 = 0x10_0000;

/// A kernel after boot, and user memory that holds `text` at `BASE` and a
/// zeroed buffer of 64 bytes at `BASE + 0x100`.
fn booted(text: &[u8]) -> (Kernel, UserMemory) {
    let mut k = Kernel::new();
    init_fd_table_with_std(&mut k);
    vfs_init(&mut k);
    let mut bytes = vec![0u8; 0x140];
    bytes[..text.len()].copy_from_slice(text);
    (k, UserMemory::new(BASE, bytes).unwrap())
}

const BUF: u64 = BASE + 0x100;

fn stdout_lines(k: &Kernel) -> Vec<Vec<u8>> {
    match k.files.slots[1].as_ref().unwrap() {
        Backend::Stdout(s) => s.lines.clone(),
        _ => panic!("slot 1 is not standard output"),
    }
}

#[test]
fn write_to_stdout_logs_the_line() {
    let (mut k, mem) = booted(b"Hello from harness!\0");
    assert_eq!(sys_write(&mut k, &mem, 1, BASE, 20), 20);
    assert_eq!(stdout_lines(&k), vec![b"Hello from harness!\0".to_vec()]);
    assert_eq!(sys_write(&mut k, &mem, 1, BASE, 5), 5);
    assert_eq!(stdout_lines(&k).len(), 2);
    assert_eq!(stdout_lines(&k)[1], b"Hello".to_vec());
}

#[test]
fn write_with_bogus_pointer_is_efault() {
    let (mut k, mem) = booted(b"Hello\0");
    assert_eq!(sys_write(&mut k, &mem, 1, 0xFFFF_FFFF_FFFF_FFFF, 8), err(EFAULT));
    assert_eq!(sys_write(&mut k, &mem, 1, 0, 8), err(EFAULT));
    assert_eq!(sys_write(&mut k, &mem, 1, BASE + 0x13f, 2), err(EFAULT));
    assert_eq!(sys_write(&mut k, &mem, 1, 0x1000, 2), err(EFAULT));
    assert!(stdout_lines(&k).is_empty());
}

#[test]
fn write_to_stdin_is_ebadf_whatever_the_state() {
    let (mut k, mem) = booted(b"Hello\0");
    assert_eq!(sys_write(&mut k, &mem, 0, BASE, 6), err(EBADF));
    assert_eq!(sys_write(&mut k, &mem, 0, BASE, 0), err(EBADF));
    assert_eq!(sys_write(&mut k, &mem, 0, 0, 6), err(EBADF));
    assert_eq!(sys_write(&mut k, &mem, 0, BASE, 1 << 40), err(EBADF));
    assert_eq!(sys_exit(&mut k, 0), 0);
    assert_eq!(sys_write(&mut k, &mem, 0, BASE, 6), err(EBADF));
    let mut bare = Kernel::new();
    assert_eq!(sys_write(&mut bare, &mem, 0, BASE, 6), encode(Errno::EBADF));
}

#[test]
fn zero_length_operations_return_zero_without_touching_the_pointer() {
    let (mut k, mut mem) = booted(b"Hello\0");
    let before = mem.bytes.clone();
    assert_eq!(sys_write(&mut k, &mem, 1, BASE, 0), 0);
    assert_eq!(sys_write(&mut k, &mem, 1, 0, 0), 0);
    assert_eq!(sys_write(&mut k, &mem, 1, 0xFFFF_FFFF_FFFF_FFFF, 0), 0);
    assert_eq!(sys_write(&mut k, &mem, 40, BASE, 0), 0);
    assert_eq!(sys_read(&mut k, &mut mem, 1, BASE, 0), 0);
    assert_eq!(sys_read(&mut k, &mut mem, 0, 0, 0), 0);
    assert_eq!(sys_read(&mut k, &mut mem, 40, 0xFFFF_FFFF_FFFF_FFFF, 0), 0);
    assert_eq!(mem.bytes, before);
    assert!(stdout_lines(&k).is_empty());
}

#[test]
fn write_of_more_than_max_write_is_einval() {
    let (mut k, mem) = booted(b"Hello\0");
    assert_eq!(sys_write(&mut k, &mem, 1, BASE, u32::MAX as u64), err(EINVAL));
    assert_eq!(sys_write(&mut k, &mem, 1, BASE, 4097), err(EINVAL));
    assert_eq!(sys_write(&mut k, &mem, 77, BASE, 4097), err(EINVAL));
    let big = UserMemory::new(BASE, vec![b'x'; 4096]).unwrap();
    assert_eq!(sys_write(&mut k, &big, 1, BASE, 4096), 4096);
}

#[test]
fn write_to_unknown_descriptor_is_ebadf() {
    let (mut k, mem) = booted(b"Hello\0");
    assert_eq!(sys_write(&mut k, &mem, 3, BASE, 5), err(EBADF));
    assert_eq!(sys_write(&mut k, &mem, 3, 0, 5), err(EBADF));
    assert_eq!(sys_write(&mut k, &mem, u64::MAX, BASE, 5), err(EBADF));
    assert_eq!(sys_write(&mut k, &mem, 2, BASE, 5), 5);
}

#[test]
fn open_outside_the_namespace_binds_the_console() {
    let (mut k, mem) = booted(b"foo.txt\0");
    let fd = sys_open(&mut k, &mem, BASE, 0, 0);
    assert_eq!(fd, 3);
    assert_eq!(k.fds.entry(3).unwrap().backend, FileHandle { id: 1 });
    assert_eq!(sys_write(&mut k, &mem, fd, BASE, 7), 7);
    assert_eq!(stdout_lines(&k), vec![b"foo.txt".to_vec()]);
    let mut mem = mem;
    assert_eq!(sys_read(&mut k, &mut mem, fd, BUF, 4), err(EBADF));
}

#[test]
fn open_with_bogus_pointer_is_efault() {
    let (mut k, mem) = booted(b"foo.txt\0");
    assert_eq!(sys_open(&mut k, &mem, 0xFFFF_FFFF_FFFF_FFFF, 0, 0), err(EFAULT));
    assert_eq!(sys_open(&mut k, &mem, 0, 0, 0), err(EFAULT));
    assert_eq!(sys_open(&mut k, &mem, 0x1000, 0, 0), err(EFAULT));
    let unterminated = UserMemory::new(BASE, b"abc".to_vec()).unwrap();
    assert_eq!(sys_open(&mut k, &unterminated, BASE, 0, 0), err(EFAULT));
    let not_text = UserMemory::new(BASE, vec![0xc0, 0x00]).unwrap();
    assert_eq!(sys_open(&mut k, &not_text, BASE, 0, 0), err(EFAULT));
    assert!(k.fds.entry(3).is_err());
}

#[test]
fn open_with_empty_path_or_invalid_flags_is_einval() {
    let (mut k, mem) = booted(b"\0bar.txt\0");
    assert_eq!(sys_open(&mut k, &mem, BASE, 0, 0), err(EINVAL));
    assert_eq!(sys_open(&mut k, &mem, BASE + 1, 0xFFFF_FFFF, 0), err(EINVAL));
    assert_eq!(sys_open(&mut k, &mem, BASE + 1, 0xFFFF_FFFE, 0), 3);
    assert_eq!(k.fds.entry(3).unwrap().flags, 0xFFFF_FFFE);
    assert_eq!(k.fds.entry(3).unwrap().offset, 0);
}

#[test]
fn open_hostname_and_read_it() {
    let (mut k, mut mem) = booted(b"/vfs/etc/hostname\0");
    let fd = sys_open(&mut k, &mem, BASE, 0, 0);
    assert_eq!(fd, 3);
    assert_eq!(sys_read(&mut k, &mut mem, fd, BUF, 16), 8);
    assert_eq!(&mem.bytes[0x100..0x108], b"bulldog\n");
    assert_eq!(&mem.bytes[0x108..0x110], &[0u8; 8]);
    assert_eq!(sys_read(&mut k, &mut mem, fd, BUF, 16), 0);
}

#[test]
fn two_opens_of_one_path_share_the_cursor() {
    let (mut k, mut mem) = booted(b"/vfs/etc/hostname\0");
    let a = sys_open(&mut k, &mem, BASE, 0, 0);
    let b = sys_open(&mut k, &mem, BASE, 0, 0);
    assert_eq!((a, b), (3, 4));
    assert_eq!(sys_read(&mut k, &mut mem, a, BUF, 4), 4);
    assert_eq!(&mem.bytes[0x100..0x104], b"bull");
    assert_eq!(sys_read(&mut k, &mut mem, b, BUF, 16), 4);
    assert_eq!(&mem.bytes[0x100..0x104], b"dog\n");
}

#[test]
fn open_propagates_the_errors_of_resolution() {
    let (mut k, mem) = booted(b"/vfs/etc\0/vfs/nope\0/vfs/etc/hostname/x\0/vfs/\0/vfs\0");
    assert_eq!(sys_open(&mut k, &mem, BASE, 0, 0), encode(Errno::EISDIR));
    assert_eq!(sys_open(&mut k, &mem, BASE + 9, 0, 0), encode(Errno::ENOENT));
    assert_eq!(sys_open(&mut k, &mem, BASE + 19, 0, 0), encode(Errno::ENOTDIR));
    assert_eq!(sys_open(&mut k, &mem, BASE + 39, 0, 0), encode(Errno::EISDIR));
    assert_eq!(sys_open(&mut k, &mem, BASE + 45, 0, 0), 3);
    assert_eq!(k.fds.entry(3).unwrap().backend, FileHandle { id: 1 });
    let mut bare = Kernel::new();
    assert_eq!(sys_open(&mut bare, &mem, BASE, 0, 0), encode(Errno::ENOENT));
    assert!(is_vfs_path(b"/vfs/x"));
    assert!(is_vfs_path(b"/vfs/"));
    assert!(!is_vfs_path(b"/vfs"));
    assert!(!is_vfs_path(b"/vfsx/"));
    assert!(!is_vfs_path(b"vfs/x"));
    assert!(!is_vfs_path(b""));
}

#[test]
fn read_checks_descriptor_then_buffer() {
    let (mut k, mut mem) = booted(b"/vfs/etc/hostname\0");
    let fd = sys_open(&mut k, &mem, BASE, 0, 0);
    assert_eq!(sys_read(&mut k, &mut mem, 9, BUF, 4), err(EBADF));
    assert_eq!(sys_read(&mut k, &mut mem, 9, 0, 4), err(EBADF));
    assert_eq!(sys_read(&mut k, &mut mem, fd, 0, 4), err(EFAULT));
    assert_eq!(sys_read(&mut k, &mut mem, fd, 0xFFFF_FFFF_FFFF_FFFF, 4), err(EFAULT));
    assert_eq!(sys_read(&mut k, &mut mem, fd, BASE + 0x13e, 4), err(EFAULT));
    assert_eq!(sys_read(&mut k, &mut mem, 0, BUF, 4), err(EBADF));
    assert_eq!(sys_read(&mut k, &mut mem, 1, BUF, 4), err(EBADF));
    assert_eq!(sys_read(&mut k, &mut mem, fd, BUF, 4), 4);
    assert_eq!(&mem.bytes[0x100..0x104], b"bull");
}

#[test]
fn read_delivers_at_most_the_scratch_size() {
    let mut k = Kernel::new();
    vfs_init(&mut k);
    let content: Vec<u8> = (0..600).map(|i| (i % 251) as u8).collect();
    assert_eq!(vfs_create_file(&mut k, "/big", Backend::Mem(MemFile::new(content.clone()))), Ok(()));
    let mut bytes = vec![0u8; 0x400];
    bytes[..9].copy_from_slice(b"/vfs/big\0");
    let mut mem = UserMemory::new(BASE, bytes).unwrap();
    let fd = sys_open(&mut k, &mem, BASE, 0, 0);
    assert_eq!(fd, 3);
    assert_eq!(sys_read(&mut k, &mut mem, fd, BUF, 0x300), 256);
    assert_eq!(&mem.bytes[0x100..0x200], &content[..256]);
    assert_eq!(mem.bytes[0x200], 0);
    assert_eq!(sys_read(&mut k, &mut mem, fd, BUF, 0x300), 256);
    assert_eq!(&mem.bytes[0x100..0x200], &content[256..512]);
    assert_eq!(sys_read(&mut k, &mut mem, fd, BUF, 0x300), 88);
    assert_eq!(&mem.bytes[0x100..0x158], &content[512..]);
    assert_eq!(sys_read(&mut k, &mut mem, fd, BUF, 0x300), 0);
    assert_eq!(sys_read(&mut k, &mut mem, fd, BUF, 1 << 40), 0);
}

#[test]
fn write_to_a_file_and_read_it_back_through_another_descriptor() {
    let (mut k, mut mem) = booted(b"/vfs/var/log/test_write.txt\0abc");
    let fd = sys_open(&mut k, &mem, BASE, 0, 0);
    assert_eq!(sys_write(&mut k, &mem, fd, BASE + 28, 3), 3);
    let h = k.fds.entry(fd).unwrap().backend;
    assert_eq!(k.files.rewind(h), Ok(()));
    let other = sys_open(&mut k, &mem, BASE, 0, 0);
    assert_eq!(other, 4);
    assert_eq!(sys_read(&mut k, &mut mem, other, BUF, 3), 3);
    assert_eq!(&mem.bytes[0x100..0x103], b"abc");
}

#[test]
fn close_frees_the_descriptor_for_the_next_open() {
    let (mut k, mem) = booted(b"foo.txt\0");
    for expected in 3..=6u64 {
        assert_eq!(sys_open(&mut k, &mem, BASE, 0, 0), expected);
    }
    assert_eq!(sys_close(&mut k, 5), 0);
    assert_eq!(sys_close(&mut k, 5), err(EBADF));
    assert_eq!(sys_open(&mut k, &mem, BASE, 0, 0), 5);
    assert_eq!(sys_open(&mut k, &mem, BASE, 0, 0), 7);
    assert_eq!(sys_close_trampoline(&mut k, 3, 99, 98), 0);
    assert_eq!(sys_open(&mut k, &mem, BASE, 0, 0), 3);
}

#[test]
fn close_of_reserved_descriptors_is_ebadf() {
    let (mut k, _mem) = booted(b"");
    assert_eq!(sys_close(&mut k, 0), err(EBADF));
    assert_eq!(sys_close(&mut k, 1), err(EBADF));
    assert_eq!(sys_close(&mut k, 2), err(EBADF));
    assert_eq!(sys_close(&mut k, 3), err(EBADF));
    assert_eq!(sys_close(&mut k, MAX_FD + 1), err(EBADF));
    assert!(k.fds.entry(1).is_ok());
}

#[test]
fn exhaustion_then_reuse() {
    let (mut k, mem) = booted(b"/vfs/etc/hostname\0");
    for expected in 3..=MAX_FD {
        assert_eq!(sys_open(&mut k, &mem, BASE, 0, 0), expected);
    }
    assert_eq!(sys_open(&mut k, &mem, BASE, 0, 0), err(EMFILE));
    assert_eq!(sys_open(&mut k, &mem, BASE, 0, 0), encode(Errno::EMFILE));
    assert_eq!(sys_close(&mut k, 40), 0);
    assert_eq!(sys_open(&mut k, &mem, BASE, 0, 0), 40);
    assert_eq!(sys_open(&mut k, &mem, BASE, 0, 0), err(EMFILE));
}

#[test]
fn exit_clears_the_table_and_allocation_restarts_at_three() {
    let (mut k, mem) = booted(b"foo.txt\0");
    assert_eq!(sys_open(&mut k, &mem, BASE, 0, 0), 3);
    assert_eq!(sys_open(&mut k, &mem, BASE, 0, 0), 4);
    assert_eq!(sys_exit(&mut k, 123), 0);
    assert_eq!(k.exit_code, Some(123));
    for fd in 0..=MAX_FD {
        assert!(k.fds.entry(fd).is_err());
    }
    assert_eq!(sys_write(&mut k, &mem, 1, BASE, 3), err(EBADF));
    assert_eq!(sys_open(&mut k, &mem, BASE, 0, 0), 3);
    assert_eq!(sys_exit_trampoline(&mut k, u64::MAX, 1, 2), 0);
    assert_eq!(k.exit_code, Some(u64::MAX));
    init_fd_table_with_std(&mut k);
    assert_eq!(sys_write(&mut k, &mem, 1, BASE, 3), 3);
}

#[test]
fn unknown_syscall_is_enosys() {
    let (mut k, mut mem) = booted(b"");
    assert_eq!(dispatch(&mut k, &mut mem, 9999, 0, 0, 0), encode(Errno::ENOSYS));
    assert_eq!(dispatch(&mut k, &mut mem, 999, 0, 0, 0), err(ENOSYS));
    assert_eq!(dispatch(&mut k, &mut mem, 0, 0, 0, 0), err(ENOSYS));
    assert_eq!(dispatch(&mut k, &mut mem, 8, 0, 0, 0), err(ENOSYS));
    assert_eq!(dispatch(&mut k, &mut mem, 511, 1, 2, 3), err(ENOSYS));
    assert_eq!(dispatch(&mut k, &mut mem, 512, 1, 2, 3), err(ENOSYS));
    assert_eq!(dispatch(&mut k, &mut mem, u64::MAX, 1, 2, 3), err(ENOSYS));
}

#[test]
fn dispatch_routes_by_number() {
    let (mut k, mut mem) = booted(b"/vfs/etc/hostname\0");
    let fd = dispatch(&mut k, &mut mem, SYS_OPEN, BASE, 0, 0);
    assert_eq!(fd, 3);
    assert_eq!(dispatch(&mut k, &mut mem, SYS_READ, fd, BUF, 16), 8);
    assert_eq!(&mem.bytes[0x100..0x108], b"bulldog\n");
    assert_eq!(dispatch(&mut k, &mut mem, SYS_WRITE, 1, BUF, 8), 8);
    assert_eq!(stdout_lines(&k), vec![b"bulldog\n".to_vec()]);
    assert_eq!(dispatch(&mut k, &mut mem, SYS_CLOSE, fd, 0, 0), 0);
    assert_eq!(dispatch(&mut k, &mut mem, SYS_CLOSE, fd, 0, 0), err(EBADF));
    assert_eq!(dispatch(&mut k, &mut mem, SYS_EXIT, 7, 0, 0), 0);
    assert_eq!(k.exit_code, Some(7));
}

#[test]
fn table_lookup_is_bounds_checked() {
    let t = init_table();
    assert_eq!(SYSCALL_TABLE_SIZE, 512);
    assert_eq!(lookup(&t, 1), Some(SyscallFn::Write));
    assert_eq!(lookup(&t, 2), Some(SyscallFn::Exit));
    assert_eq!(lookup(&t, 3), Some(SyscallFn::Open));
    assert_eq!(lookup(&t, 4), Some(SyscallFn::Read));
    assert_eq!(lookup(&t, 5), Some(SyscallFn::Alloc));
    assert_eq!(lookup(&t, 6), Some(SyscallFn::Free));
    assert_eq!(lookup(&t, 7), Some(SyscallFn::Close));
    assert_eq!(lookup(&t, 0), None);
    assert_eq!(lookup(&t, 8), None);
    assert_eq!(lookup(&t, 511), None);
    assert_eq!(lookup(&t, 512), None);
    assert_eq!(lookup(&t, 9999), None);
    assert_eq!(lookup(&t, u64::MAX), None);
}

#[test]
fn a_backend_is_torn_down_with_its_last_reference() {
    let (mut k, mem) = booted(b"/vfs/tmp/f\0");
    assert_eq!(vfs_create_file(&mut k, "/tmp/f", Backend::Mem(MemFile::new(b"1".to_vec()))), Ok(()));
    let a = sys_open(&mut k, &mem, BASE, 0, 0);
    let b = sys_open(&mut k, &mem, BASE, 0, 0);
    let old = k.fds.entry(a).unwrap().backend;
    assert_eq!(old, FileHandle { id: 5 });
    assert!(is_referenced(&k, old));
    assert_eq!(vfs_create_file(&mut k, "/tmp/f", Backend::Mem(MemFile::new(b"2".to_vec()))), Ok(()));
    assert!(k.files.has(old));
    assert_eq!(sys_close(&mut k, a), 0);
    assert!(k.files.has(old));
    assert_eq!(sys_close(&mut k, b), 0);
    assert!(!k.files.has(old));
    assert!(!is_referenced(&k, old));
    let c = sys_open(&mut k, &mem, BASE, 0, 0);
    let newer = k.fds.entry(c).unwrap().backend;
    assert_eq!(newer, FileHandle { id: 6 });
    assert_eq!(sys_exit(&mut k, 0), 0);
    assert!(k.files.has(newer));
    assert!(k.files.has(FileHandle { id: 0 }));
    assert!(k.files.has(FileHandle { id: 1 }));
    assert!(k.files.has(FileHandle { id: 2 }));
    let orphan = k.files.insert(Backend::Mem(MemFile::new(Vec::new())));
    assert_eq!(orphan, FileHandle { id: 5 });
    reclaim(&mut k, FileHandle { id: 1 });
    assert!(k.files.has(FileHandle { id: 1 }));
    sweep(&mut k);
    assert!(!k.files.has(orphan));
    assert!(k.files.has(newer));
}
