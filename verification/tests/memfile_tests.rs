use bulldog::errno::Errno;
use bulldog::file::{FileLike, FileOps, Stderr, Stdin, Stdout};
use bulldog::memfile::MemFile;
use bulldog::store::{Backend, FileHandle, FileStore};
use bulldog::vfs::init::vfs_test_write;

#[test]
fn write_rewind_read_round_trip() {
    let mut f = MemFile::new(Vec::new());
    assert_eq!(f.write(b"abc"), Ok(3));
    f.rewind();
    let mut buf = [0u8; 3];
    assert_eq!(f.read(&mut buf), Ok(3));
    assert_eq!(&buf, b"abc");
    assert!(vfs_test_write());
}

#[test]
fn read_stops_at_end_of_file_with_zero() {
    let mut f = MemFile::new(b"bulldog\n".to_vec());
    let mut buf = [0u8; 16];
    assert_eq!(f.read(&mut buf), Ok(8));
    assert_eq!(&buf[..8], b"bulldog\n");
    assert_eq!(&buf[8..], &[0u8; 8]);
    assert_eq!(f.offset, 8);
    assert_eq!(f.read(&mut buf), Ok(0));
    assert_eq!(f.offset, 8);
}

#[test]
fn read_in_pieces_advances_the_cursor() {
    let mut f = MemFile::new(b"abcdef".to_vec());
    let mut buf = [0u8; 4];
    assert_eq!(f.read(&mut buf), Ok(4));
    assert_eq!(&buf, b"abcd");
    assert_eq!(f.read(&mut buf), Ok(2));
    assert_eq!(&buf, b"efcd");
    let mut none: [u8; 0] = [];
    f.rewind();
    assert_eq!(f.read(&mut none), Ok(0));
    assert_eq!(f.offset, 0);
}

#[test]
fn write_overwrites_and_grows() {
    let mut f = MemFile::new(b"hello".to_vec());
    assert_eq!(f.write(b"HE"), Ok(2));
    assert_eq!(f.data, b"HEllo".to_vec());
    assert_eq!(f.offset, 2);
    assert_eq!(f.write(b"LLO!!"), Ok(5));
    assert_eq!(f.data, b"HELLO!!".to_vec());
    assert_eq!(f.offset, 7);
    assert_eq!(f.write(b""), Ok(0));
    assert_eq!(f.data, b"HELLO!!".to_vec());
}

#[test]
fn write_past_the_end_fills_the_gap_with_zeros() {
    let mut f = MemFile { data: b"ab".to_vec(), offset: 5 };
    assert_eq!(f.write(b"xy"), Ok(2));
    assert_eq!(f.data, vec![b'a', b'b', 0, 0, 0, b'x', b'y']);
    assert_eq!(f.offset, 7);
}

#[test]
fn write_that_cannot_be_indexed_is_refused() {
    let mut f = MemFile { data: b"ab".to_vec(), offset: usize::MAX - 1 };
    assert_eq!(f.write(b"xy"), Err(Errno::ENOMEM));
    assert_eq!(f.data, b"ab".to_vec());
    assert_eq!(f.offset, usize::MAX - 1);
}

#[test]
fn memfile_close_succeeds() {
    let mut f = MemFile::new(b"x".to_vec());
    assert_eq!(f.close(), Ok(()));
    assert_eq!(f.data, b"x".to_vec());
}

#[test]
fn stdin_refuses_everything_but_close() {
    let mut s = Stdin;
    let mut buf = [7u8; 4];
    assert_eq!(s.read(&mut buf), Err(Errno::EBADF));
    assert_eq!(buf, [7u8; 4]);
    assert_eq!(s.write(b"x"), Err(Errno::EBADF));
    assert_eq!(s.seek(3), Err(Errno::EINVAL));
    assert_eq!(s.close(), Ok(()));
}

#[test]
fn console_sinks_keep_utf8_records_as_lines() {
    let mut out = Stdout::new();
    assert_eq!(out.write(b"hello"), Ok(5));
    assert_eq!(out.write(&[0xff, 0xfe]), Ok(2));
    assert_eq!(out.write(b"world"), Ok(5));
    assert_eq!(out.lines, vec![b"hello".to_vec(), b"world".to_vec()]);
    let mut buf = [0u8; 2];
    assert_eq!(out.read(&mut buf), Err(Errno::EBADF));
    let mut e = Stderr::new();
    assert_eq!(e.write(b"oops"), Ok(4));
    assert_eq!(e.lines, vec![b"oops".to_vec()]);
    assert_eq!(e.seek(0), Err(Errno::EINVAL));
}

#[test]
fn backends_dispatch_to_their_resource() {
    let mut b = Backend::Mem(MemFile::new(b"abc".to_vec()));
    let mut buf = [0u8; 2];
    assert_eq!(b.read(&mut buf), Ok(2));
    assert_eq!(&buf, b"ab");
    b.rewind();
    assert_eq!(b.write(b"Z"), Ok(1));
    assert_eq!(b.close(), Ok(()));
    match &b {
        Backend::Mem(f) => {
            assert_eq!(f.data, b"Zbc".to_vec());
            assert_eq!(f.offset, 1);
        }
        _ => panic!("backend changed its kind"),
    }
    let mut s = Backend::Stdin(Stdin);
    assert_eq!(s.read(&mut buf), Err(Errno::EBADF));
    assert_eq!(s.write(b"x"), Err(Errno::EBADF));
    let mut o = Backend::Stdout(Stdout::new());
    assert_eq!(o.write(b"line"), Ok(4));
    assert_eq!(o.read(&mut buf), Err(Errno::EBADF));
    o.rewind();
}

#[test]
fn store_shares_backends_by_handle_and_reuses_empty_slots() {
    let mut store = FileStore::new();
    let a = store.insert(Backend::Mem(MemFile::new(b"one".to_vec())));
    let b = store.insert(Backend::Mem(MemFile::new(b"two".to_vec())));
    assert_eq!(a, FileHandle { id: 0 });
    assert_eq!(b, FileHandle { id: 1 });
    assert_eq!(store.len(), 2);
    let mut buf = [0u8; 2];
    assert_eq!(store.read(a, &mut buf), Ok(2));
    assert_eq!(&buf, b"on");
    assert_eq!(store.read(a, &mut buf), Ok(1));
    assert_eq!(&buf, b"en");
    assert_eq!(store.rewind(a), Ok(()));
    assert_eq!(store.write(a, b"X"), Ok(1));
    assert_eq!(store.close(a), Ok(()));
    assert!(store.has(a));
    store.remove(a);
    assert!(!store.has(a));
    assert!(store.has(b));
    assert_eq!(store.read(a, &mut buf), Err(Errno::EBADF));
    assert_eq!(store.write(a, b"x"), Err(Errno::EBADF));
    assert_eq!(store.close(a), Err(Errno::EBADF));
    assert_eq!(store.rewind(a), Err(Errno::EBADF));
    assert_eq!(store.rewind(FileHandle { id: 9 }), Err(Errno::EBADF));
    assert_eq!(store.next_handle(), FileHandle { id: 0 });
    let c = store.insert(Backend::Stdin(Stdin));
    assert_eq!(c, FileHandle { id: 0 });
    assert_eq!(store.next_handle(), FileHandle { id: 2 });
}
