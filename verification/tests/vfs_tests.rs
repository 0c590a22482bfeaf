use bulldog::errno::Errno;
use bulldog::kernel::Kernel;
use bulldog::memfile::MemFile;
use bulldog::store::{Backend, FileHandle};
use bulldog::vfs::init::vfs_init;
use bulldog::vfs::mount::{init_mount_table, MountTable};
use bulldog::vfs::node::{bytes_eq, find_entry, node_mentions, DirEntry, VfsNode};
use bulldog::vfs::ops::{make_dirs, place_file, vfs_create_file, vfs_mkdir};
use bulldog::vfs::path::{normalize_path, split_path};
use bulldog::vfs::resolve::{resolve_bytes, resolve_from, resolve_path};

fn mounted() -> Kernel {
    let mut k = Kernel::new();
    init_mount_table(&mut k.mounts);
    k
}

fn mem(bytes: &[u8]) -> Backend {
    Backend::Mem(MemFile::new(bytes.to_vec()))
}

fn names(node: &VfsNode) -> Vec<Vec<u8>> {
    match node {
        VfsNode::Directory(entries) => entries.iter().map(|e| e.name.clone()).collect(),
        _ => panic!("not a directory"),
    }
}

#[test]
fn normalize_gives_one_leading_slash_and_no_trailing_ones() {
    assert_eq!(normalize_path(b"//foo/bar"), b"/foo/bar".to_vec());
    assert_eq!(normalize_path(b"foo/bar"), b"/foo/bar".to_vec());
    assert_eq!(normalize_path(b"/foo/bar///"), b"/foo/bar".to_vec());
    assert_eq!(normalize_path(b"/"), b"/".to_vec());
    assert_eq!(normalize_path(b""), b"/".to_vec());
    assert_eq!(normalize_path(b"////"), b"/".to_vec());
    assert_eq!(normalize_path(b"/foo//bar"), b"/foo//bar".to_vec());
    assert_eq!(normalize_path(b"/foo/./bar"), b"/foo/./bar".to_vec());
}

#[test]
fn split_gives_the_non_empty_components() {
    assert_eq!(split_path(b"/foo/bar"), vec![b"foo".to_vec(), b"bar".to_vec()]);
    assert_eq!(split_path(b"/foo//bar/"), vec![b"foo".to_vec(), b"bar".to_vec()]);
    assert_eq!(split_path(b"foo"), vec![b"foo".to_vec()]);
    assert_eq!(split_path(b"/"), Vec::<Vec<u8>>::new());
    assert_eq!(split_path(b""), Vec::<Vec<u8>>::new());
    assert_eq!(split_path(b"///"), Vec::<Vec<u8>>::new());
    assert_eq!(
        split_path(b"/etc/init/rc.d"),
        vec![b"etc".to_vec(), b"init".to_vec(), b"rc.d".to_vec()]
    );
    assert_eq!(split_path(&normalize_path(b"//a/b//")), split_path(b"//a/b//"));
}

#[test]
fn mkdir_then_resolve_is_eisdir_and_missing_is_enoent() {
    let mut k = mounted();
    assert_eq!(vfs_mkdir(&mut k.mounts, "/a/b"), Ok(()));
    assert_eq!(resolve_path(&k.mounts, "/a/b"), Err(Errno::EISDIR));
    assert_eq!(resolve_path(&k.mounts, "/a"), Err(Errno::EISDIR));
    assert_eq!(resolve_path(&k.mounts, "/"), Err(Errno::EISDIR));
    assert_eq!(resolve_path(&k.mounts, "/a/missing"), Err(Errno::ENOENT));
    assert_eq!(resolve_path(&k.mounts, "/missing/b"), Err(Errno::ENOENT));
}

#[test]
fn create_file_then_resolve_returns_the_shared_backend() {
    let mut k = mounted();
    assert_eq!(vfs_mkdir(&mut k.mounts, "/a/b"), Ok(()));
    assert_eq!(vfs_create_file(&mut k, "/a/b/f", mem(b"payload")), Ok(()));
    let h = resolve_path(&k.mounts, "/a/b/f").unwrap();
    assert_eq!(h, FileHandle { id: 3 });
    let again = resolve_path(&k.mounts, "//a/b/f/").unwrap();
    assert_eq!(again, h);
    let mut buf = [0u8; 4];
    assert_eq!(k.files.read(h, &mut buf), Ok(4));
    assert_eq!(&buf, b"payl");
    assert_eq!(k.files.read(again, &mut buf), Ok(3));
    assert_eq!(&buf[..3], b"oad");
}

#[test]
fn mkdir_is_idempotent_and_keeps_what_exists() {
    let mut k = mounted();
    assert_eq!(vfs_mkdir(&mut k.mounts, "/etc"), Ok(()));
    assert_eq!(vfs_create_file(&mut k, "/etc/hostname", mem(b"bulldog\n")), Ok(()));
    assert_eq!(vfs_mkdir(&mut k.mounts, "/etc"), Ok(()));
    assert_eq!(vfs_mkdir(&mut k.mounts, "/etc/init"), Ok(()));
    assert_eq!(vfs_mkdir(&mut k.mounts, "/"), Ok(()));
    assert_eq!(vfs_mkdir(&mut k.mounts, ""), Ok(()));
    assert_eq!(resolve_path(&k.mounts, "/etc/hostname"), Ok(FileHandle { id: 3 }));
    let root = &k.mounts.mounts[0].root;
    assert_eq!(names(root), vec![b"etc".to_vec()]);
    assert_eq!(
        names(root.get(b"etc").unwrap()),
        vec![b"hostname".to_vec(), b"init".to_vec()]
    );
}

#[test]
fn a_file_in_the_way_is_enotdir() {
    let mut k = mounted();
    assert_eq!(vfs_create_file(&mut k, "/f", mem(b"x")), Ok(()));
    assert_eq!(vfs_mkdir(&mut k.mounts, "/f/sub"), Err(Errno::ENOTDIR));
    assert_eq!(vfs_mkdir(&mut k.mounts, "/f"), Err(Errno::ENOTDIR));
    assert_eq!(vfs_create_file(&mut k, "/f/g", mem(b"y")), Err(Errno::ENOTDIR));
    assert_eq!(resolve_path(&k.mounts, "/f/g"), Err(Errno::ENOTDIR));
    assert_eq!(k.files.len(), 4);
    assert_eq!(names(&k.mounts.mounts[0].root), vec![b"f".to_vec()]);
}

#[test]
fn a_symlink_is_enosys_everywhere() {
    let mut k = mounted();
    match &mut k.mounts.mounts[0].root {
        VfsNode::Directory(entries) => entries.push(DirEntry {
            name: b"link".to_vec(),
            node: VfsNode::Symlink(String::from("/etc")),
        }),
        _ => panic!("root is no directory"),
    }
    assert_eq!(resolve_path(&k.mounts, "/link"), Err(Errno::ENOSYS));
    assert_eq!(resolve_path(&k.mounts, "/link/x"), Err(Errno::ENOSYS));
    assert_eq!(vfs_mkdir(&mut k.mounts, "/link/x"), Err(Errno::ENOSYS));
    assert_eq!(vfs_mkdir(&mut k.mounts, "/link"), Err(Errno::ENOSYS));
    assert_eq!(vfs_create_file(&mut k, "/link/x", mem(b"")), Err(Errno::ENOSYS));
}

#[test]
fn create_file_needs_a_file_name_and_a_mount() {
    let mut k = mounted();
    assert_eq!(vfs_create_file(&mut k, "/", mem(b"")), Err(Errno::EINVAL));
    assert_eq!(vfs_create_file(&mut k, "", mem(b"")), Err(Errno::EINVAL));
    assert_eq!(vfs_create_file(&mut k, "///", mem(b"")), Err(Errno::EINVAL));
    assert_eq!(k.files.len(), 3);
    let mut bare = Kernel::new();
    assert_eq!(vfs_create_file(&mut bare, "/f", mem(b"")), Err(Errno::ENOENT));
    assert_eq!(vfs_mkdir(&mut bare.mounts, "/d"), Err(Errno::ENOENT));
    assert_eq!(vfs_mkdir(&mut bare.mounts, "/"), Ok(()));
    assert_eq!(resolve_path(&bare.mounts, "/d"), Err(Errno::ENOENT));
    assert_eq!(resolve_path(&bare.mounts, "/"), Err(Errno::ENOENT));
    assert_eq!(resolve_bytes(&bare.mounts, b"/d"), Err(Errno::ENOENT));
}

#[test]
fn create_file_makes_missing_directories_and_replaces_the_leaf() {
    let mut k = mounted();
    assert_eq!(vfs_create_file(&mut k, "/var/log/test_write.txt", mem(b"one")), Ok(()));
    assert_eq!(resolve_path(&k.mounts, "/var/log"), Err(Errno::EISDIR));
    let first = resolve_path(&k.mounts, "/var/log/test_write.txt").unwrap();
    assert_eq!(first, FileHandle { id: 3 });
    assert_eq!(vfs_create_file(&mut k, "/var/log/test_write.txt", mem(b"two")), Ok(()));
    let second = resolve_path(&k.mounts, "/var/log/test_write.txt").unwrap();
    assert_eq!(second, FileHandle { id: 4 });
    assert!(!k.files.has(first));
    assert!(k.files.has(second));
    let mut buf = [0u8; 3];
    assert_eq!(k.files.read(second, &mut buf), Ok(3));
    assert_eq!(&buf, b"two");
    assert_eq!(vfs_create_file(&mut k, "/other", mem(b"3")), Ok(()));
    assert_eq!(resolve_path(&k.mounts, "/other"), Ok(FileHandle { id: 3 }));
}

#[test]
fn init_mount_table_mounts_once() {
    let mut t = MountTable::new();
    assert_eq!(t.mounts.len(), 0);
    init_mount_table(&mut t);
    assert_eq!(t.mounts.len(), 1);
    assert_eq!(t.mounts[0].path, "/");
    assert!(t.mounts[0].root.is_dir());
    assert!(!t.mounts[0].root.is_file());
    assert_eq!(vfs_mkdir(&mut t, "/keep"), Ok(()));
    init_mount_table(&mut t);
    assert_eq!(t.mounts.len(), 1);
    assert_eq!(resolve_path(&t, "/keep"), Err(Errno::EISDIR));
}

#[test]
fn node_operations_work_on_directories_only() {
    let mut dir = VfsNode::empty_dir();
    dir.mkdir(b"sub");
    dir.mkdir(b"sub");
    dir.add_file(b"f", FileHandle { id: 9 });
    dir.add_file(b"sub2", FileHandle { id: 10 });
    assert_eq!(names(&dir), vec![b"sub".to_vec(), b"f".to_vec(), b"sub2".to_vec()]);
    assert!(dir.get(b"sub").unwrap().is_dir());
    assert!(dir.get(b"f").unwrap().is_file());
    assert!(dir.get(b"nope").is_none());
    dir.add_file(b"sub", FileHandle { id: 11 });
    assert_eq!(names(&dir), vec![b"sub".to_vec(), b"f".to_vec(), b"sub2".to_vec()]);
    assert!(dir.get(b"sub").unwrap().is_file());
    assert!(node_mentions(&dir, FileHandle { id: 11 }));
    assert!(node_mentions(&dir, FileHandle { id: 9 }));
    assert!(!node_mentions(&dir, FileHandle { id: 12 }));
    let mut file = VfsNode::File(FileHandle { id: 1 });
    file.mkdir(b"x");
    file.add_file(b"y", FileHandle { id: 2 });
    assert!(file.is_file());
    assert!(file.get(b"x").is_none());
    assert!(node_mentions(&file, FileHandle { id: 1 }));
    assert!(!node_mentions(&file, FileHandle { id: 2 }));
    let link = VfsNode::Symlink(String::from("/a"));
    assert!(!link.is_dir());
    assert!(!link.is_file());
    assert!(!node_mentions(&link, FileHandle { id: 1 }));
    match &dir {
        VfsNode::Directory(entries) => {
            assert_eq!(find_entry(entries, b"f"), Some(1));
            assert_eq!(find_entry(entries, b"g"), None);
        }
        _ => panic!("not a directory"),
    }
    assert!(bytes_eq(b"abc", b"abc"));
    assert!(!bytes_eq(b"abc", b"abd"));
    assert!(!bytes_eq(b"abc", b"ab"));
    assert!(bytes_eq(b"", b""));
}

#[test]
fn tree_walks_by_components() {
    let mut root = VfsNode::empty_dir();
    let comps = vec![b"a".to_vec(), b"b".to_vec()];
    assert_eq!(make_dirs(&mut root, &comps, 0), Ok(()));
    let file = vec![b"a".to_vec(), b"b".to_vec(), b"f".to_vec()];
    assert_eq!(place_file(&mut root, &file, 0, FileHandle { id: 5 }), Ok(()));
    assert_eq!(resolve_from(&root, &file), Ok(FileHandle { id: 5 }));
    assert_eq!(resolve_from(&root, &comps), Err(Errno::EISDIR));
    assert_eq!(resolve_from(&root, &Vec::new()), Err(Errno::EISDIR));
    assert_eq!(place_file(&mut root, &Vec::new(), 0, FileHandle { id: 6 }), Err(Errno::EINVAL));
    assert_eq!(place_file(&mut root, &file, 3, FileHandle { id: 6 }), Err(Errno::EINVAL));
    let deeper = vec![b"a".to_vec(), b"b".to_vec(), b"f".to_vec(), b"g".to_vec()];
    assert_eq!(make_dirs(&mut root, &deeper, 0), Err(Errno::ENOTDIR));
    assert_eq!(resolve_from(&root, &deeper), Err(Errno::ENOTDIR));
    assert_eq!(make_dirs(&mut root, &deeper, 4), Ok(()));
}

#[test]
fn vfs_init_seeds_the_boot_tree() {
    let mut k = Kernel::new();
    vfs_init(&mut k);
    let root = &k.mounts.mounts[0].root;
    assert_eq!(names(root), vec![b"etc".to_vec(), b"usr".to_vec(), b"var".to_vec()]);
    assert_eq!(names(root.get(b"etc").unwrap()), vec![b"init".to_vec(), b"hostname".to_vec()]);
    assert_eq!(names(root.get(b"usr").unwrap()), vec![b"bin".to_vec()]);
    assert_eq!(names(root.get(b"var").unwrap()), vec![b"log".to_vec()]);
    assert_eq!(
        names(root.get(b"var").unwrap().get(b"log").unwrap()),
        vec![b"test_write.txt".to_vec()]
    );
    assert_eq!(names(root.get(b"etc").unwrap().get(b"init").unwrap()), Vec::<Vec<u8>>::new());
    assert_eq!(names(root.get(b"usr").unwrap().get(b"bin").unwrap()), Vec::<Vec<u8>>::new());
    assert_eq!(k.files.len(), 5);
    assert_eq!(resolve_path(&k.mounts, "/etc"), Err(Errno::EISDIR));
    assert_eq!(resolve_path(&k.mounts, "/etc/init"), Err(Errno::EISDIR));
    assert_eq!(resolve_path(&k.mounts, "/usr/bin"), Err(Errno::EISDIR));
    assert_eq!(resolve_path(&k.mounts, "/var/log"), Err(Errno::EISDIR));
    let hostname = resolve_path(&k.mounts, "/etc/hostname").unwrap();
    let log = resolve_path(&k.mounts, "/var/log/test_write.txt").unwrap();
    assert_eq!(hostname, FileHandle { id: 3 });
    assert_eq!(log, FileHandle { id: 4 });
    let mut buf = [0u8; 16];
    assert_eq!(k.files.read(hostname, &mut buf), Ok(8));
    assert_eq!(&buf[..8], b"bulldog\n");
    assert_eq!(k.files.read(log, &mut buf), Ok(0));
    vfs_init(&mut k);
    assert_eq!(resolve_path(&k.mounts, "/etc/hostname"), Ok(FileHandle { id: 5 }));
    assert!(!k.files.has(FileHandle { id: 3 }) || resolve_path(&k.mounts, "/var/log/test_write.txt") == Ok(FileHandle { id: 3 }));
}

#[test]
fn vfs_init_leaves_out_what_a_file_is_in_the_way_of() {
    let mut k = mounted();
    assert_eq!(vfs_create_file(&mut k, "/etc", mem(b"in the way")), Ok(()));
    assert_eq!(vfs_mkdir(&mut k.mounts, "/keep"), Ok(()));
    vfs_init(&mut k);
    assert_eq!(resolve_path(&k.mounts, "/etc"), Ok(FileHandle { id: 3 }));
    assert_eq!(resolve_path(&k.mounts, "/etc/hostname"), Err(Errno::ENOTDIR));
    assert_eq!(resolve_path(&k.mounts, "/keep"), Err(Errno::EISDIR));
    assert_eq!(resolve_path(&k.mounts, "/usr/bin"), Err(Errno::EISDIR));
    assert_eq!(resolve_path(&k.mounts, "/var/log/test_write.txt"), Ok(FileHandle { id: 4 }));
    assert_eq!(
        names(&k.mounts.mounts[0].root),
        vec![b"etc".to_vec(), b"keep".to_vec(), b"usr".to_vec(), b"var".to_vec()]
    );
    assert_eq!(k.files.len(), 5);
}
