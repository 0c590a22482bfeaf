use bulldog::errno::Errno;
use bulldog::fd::{FdEntry, FdTable, MAX_FD};
use bulldog::kernel::{init_fd_table_with_std, Kernel};
use bulldog::store::{FileHandle, FileStore};

fn entry(id: usize) -> FdEntry {
    FdEntry { backend: FileHandle { id }, flags: 0, offset: 0 }
}

#[test]
fn allocation_starts_at_three_and_takes_the_lowest_free() {
    let mut t = FdTable::new();
    assert_eq!(t.allocate(entry(1)), Ok(3));
    assert_eq!(t.allocate(entry(1)), Ok(4));
    assert_eq!(t.allocate(entry(1)), Ok(5));
    assert_eq!(t.allocate(entry(1)), Ok(6));
    let mut files = FileStore::new();
    assert_eq!(t.close(&mut files, 5), Ok(()));
    assert_eq!(t.allocate(entry(2)), Ok(5));
    assert_eq!(t.allocate(entry(2)), Ok(7));
    assert_eq!(t.entry(5), Ok(entry(2)));
    assert_eq!(t.entry(4), Ok(entry(1)));
}

#[test]
fn table_is_exhausted_after_max_fd_minus_two_allocations() {
    let mut t = FdTable::new();
    for expected in 3..=MAX_FD {
        assert_eq!(t.allocate(entry(1)), Ok(expected));
    }
    assert_eq!(MAX_FD - 2, 62);
    assert_eq!(t.allocate(entry(1)), Err(Errno::EMFILE));
    let mut files = FileStore::new();
    assert_eq!(t.close(&mut files, 17), Ok(()));
    assert_eq!(t.allocate(entry(1)), Ok(17));
    assert_eq!(t.allocate(entry(1)), Err(Errno::EMFILE));
}

#[test]
fn close_refuses_reserved_and_unknown_descriptors() {
    let mut k = Kernel::new();
    init_fd_table_with_std(&mut k);
    assert_eq!(k.fds.close(&mut k.files, 0), Err(Errno::EBADF));
    assert_eq!(k.fds.close(&mut k.files, 1), Err(Errno::EBADF));
    assert_eq!(k.fds.close(&mut k.files, 2), Err(Errno::EBADF));
    assert_eq!(k.fds.close(&mut k.files, 3), Err(Errno::EBADF));
    assert_eq!(k.fds.close(&mut k.files, MAX_FD + 1), Err(Errno::EBADF));
    assert_eq!(k.fds.close(&mut k.files, u64::MAX), Err(Errno::EBADF));
    assert!(k.fds.entry(0).is_ok());
    assert!(k.fds.entry(1).is_ok());
    assert!(k.fds.entry(2).is_ok());
}

#[test]
fn get_gives_the_entry_to_change() {
    let mut t = FdTable::new();
    assert_eq!(t.allocate(entry(4)), Ok(3));
    {
        let e = t.get(3).unwrap();
        assert_eq!(*e, entry(4));
        e.offset = 10;
        e.flags = 2;
    }
    assert_eq!(t.entry(3), Ok(FdEntry { backend: FileHandle { id: 4 }, flags: 2, offset: 10 }));
    assert!(t.get(4).is_err());
    assert_eq!(t.get(4).err(), Some(Errno::EBADF));
    assert_eq!(t.get(u64::MAX).err(), Some(Errno::EBADF));
    assert_eq!(t.entry(99), Err(Errno::EBADF));
}

#[test]
fn std_descriptors_are_seeded_once_and_never_allocated() {
    let mut k = Kernel::new();
    assert!(k.fds.entry(0).is_err());
    init_fd_table_with_std(&mut k);
    assert_eq!(k.fds.entry(0), Ok(entry(0)));
    assert_eq!(k.fds.entry(1), Ok(entry(1)));
    assert_eq!(k.fds.entry(2), Ok(entry(2)));
    k.fds.get(1).unwrap().flags = 7;
    init_fd_table_with_std(&mut k);
    assert_eq!(k.fds.entry(1).unwrap().flags, 7);
    assert_eq!(k.fds.allocate(entry(1)), Ok(3));
    assert!(k.fds.refers(FileHandle { id: 1 }));
    assert!(!k.fds.refers(FileHandle { id: 5 }));
}

#[test]
fn clear_all_removes_every_entry() {
    let mut k = Kernel::new();
    init_fd_table_with_std(&mut k);
    assert_eq!(k.fds.allocate(entry(1)), Ok(3));
    k.fds.clear_all();
    for fd in 0..=MAX_FD {
        assert_eq!(k.fds.entry(fd), Err(Errno::EBADF));
    }
    assert_eq!(k.fds.allocate(entry(1)), Ok(3));
}
