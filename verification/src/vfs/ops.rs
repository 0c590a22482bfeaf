//! The operations that change the tree: making directories, creating files.

use vstd::prelude::*;
use vstd::slice::slice_to_vec;
use vstd::string::*;
use crate::errno::Errno;
use crate::kernel::{Kernel, live_handles, sweep, swept};
use crate::store::{Backend, FileHandle, filled, next_slot};
use crate::text::rows;
use crate::vfs::mount::MountTable;
use crate::vfs::node::{DirEntry, VfsNode, entries_view, find_entry, lemma_entries_view};
use crate::vfs::path::{components, lemma_normalized_components, normalize_path, split_path};
use crate::vfs::tree::{
    Tree,
    files_in,
    lemma_create_in,
    lemma_create_wf,
    lemma_files_in_grow,
    lemma_mkdir_in,
    lemma_find_some,
    lemma_mkdir_wf,
    lemma_with_dir_fresh,
    with_dir,
    with_file,
};

verus! {

/// Makes the directory that the components from `from` on name under `node`,
/// with every directory that is missing on the way.
pub fn make_dirs(node: &mut VfsNode, comps: &Vec<Vec<u8>>, from: usize) -> (r: Result<(), Errno>)
    requires
        from <= comps@.len(),
    ensures
        match with_dir(old(node)@, rows(*comps).skip(from as int)) {
            Ok(t) => r is Ok && final(node)@ == t,
            Err(e) => r == Err::<(), Errno>(e) && final(node)@ == old(node)@,
        },
    decreases comps@.len() - from,
{
    let ghost rest = rows(*comps).skip(from as int);
    match node {
        VfsNode::File(_) => Err(Errno::ENOTDIR),
        VfsNode::Symlink(_) => Err(Errno::ENOSYS),
        VfsNode::Directory(entries) => {
            if from == comps.len() {
                return Ok(());
            }
            let ghost before = entries_view(*entries);
            proof {
                lemma_entries_view(*entries);
                assert(rest[0] == comps@[from as int]@);
                assert(rest.skip(1) =~= rows(*comps).skip(from + 1));
            }
            match find_entry(entries, comps[from].as_slice()) {
                Some(i) => {
                    let r = make_dirs(&mut entries[i].node, comps, from + 1);
                    proof {
                        lemma_entries_view(*entries);
                        match with_dir(before[i as int].1, rest.skip(1)) {
                            Ok(sub) => {
                                assert(entries_view(*entries) =~= before.update(
                                    i as int,
                                    (rest[0], sub),
                                ));
                            },
                            Err(_) => {
                                assert(entries_view(*entries) =~= before);
                            },
                        }
                    }
                    r
                },
                None => {
                    let mut sub = VfsNode::empty_dir();
                    proof {
                        lemma_with_dir_fresh(rest.skip(1));
                    }
                    let r = make_dirs(&mut sub, comps, from + 1);
                    let ghost made = sub@;
                    entries.push(DirEntry { name: slice_to_vec(comps[from].as_slice()), node: sub });
                    proof {
                        lemma_entries_view(*entries);
                        assert(entries_view(*entries) =~= before.push((rest[0], made)));
                    }
                    r
                },
            }
        },
    }
}

/// Makes the components from `from` on name the file `file` under `node`,
/// with every directory that is missing on the way.
pub fn place_file(node: &mut VfsNode, comps: &Vec<Vec<u8>>, from: usize, file: FileHandle) -> (r:
    Result<(), Errno>)
    requires
        from <= comps@.len(),
    ensures
        match with_file(old(node)@, rows(*comps).skip(from as int), file.id as nat) {
            Ok(t) => r is Ok && final(node)@ == t,
            Err(e) => r == Err::<(), Errno>(e) && final(node)@ == old(node)@,
        },
    decreases comps@.len() - from,
{
    let ghost rest = rows(*comps).skip(from as int);
    if from == comps.len() {
        return Err(Errno::EINVAL);
    }
    proof {
        assert(rest[0] == comps@[from as int]@);
        assert(rest.skip(1) =~= rows(*comps).skip(from + 1));
    }
    if from + 1 == comps.len() {
        return match node {
            VfsNode::File(_) => Err(Errno::ENOTDIR),
            VfsNode::Symlink(_) => Err(Errno::ENOSYS),
            VfsNode::Directory(_) => {
                node.add_file(comps[from].as_slice(), file);
                Ok(())
            },
        };
    }
    match node {
        VfsNode::File(_) => Err(Errno::ENOTDIR),
        VfsNode::Symlink(_) => Err(Errno::ENOSYS),
        VfsNode::Directory(entries) => {
            let ghost before = entries_view(*entries);
            proof {
                lemma_entries_view(*entries);
            }
            match find_entry(entries, comps[from].as_slice()) {
                Some(i) => {
                    let r = place_file(&mut entries[i].node, comps, from + 1, file);
                    proof {
                        lemma_entries_view(*entries);
                        match with_file(before[i as int].1, rest.skip(1), file.id as nat) {
                            Ok(sub) => {
                                assert(entries_view(*entries) =~= before.update(
                                    i as int,
                                    (rest[0], sub),
                                ));
                            },
                            Err(_) => {
                                assert(entries_view(*entries) =~= before);
                            },
                        }
                    }
                    r
                },
                None => {
                    let mut sub = VfsNode::empty_dir();
                    let r = place_file(&mut sub, comps, from + 1, file);
                    match r {
                        Ok(()) => {
                            let ghost made = sub@;
                            entries.push(
                                DirEntry { name: slice_to_vec(comps[from].as_slice()), node: sub },
                            );
                            proof {
                                lemma_entries_view(*entries);
                                assert(entries_view(*entries) =~= before.push((rest[0], made)));
                            }
                            Ok(())
                        },
                        Err(e) => Err(e),
                    }
                },
            }
        },
    }
}

/// Creates the directory at `path`, and any directory missing on the way to
/// it. A path without components, such as `/`, names the root, which
/// exists: nothing is done. A directory that exists is left as it is.
pub fn vfs_mkdir(table: &mut MountTable, path: &str) -> (r: Result<(), Errno>)
    requires
        old(table).wf(),
    ensures
        final(table).wf(),
        final(table).mounted() == old(table).mounted(),
        components(path.spec_bytes()).len() == 0 ==> r is Ok && final(table).mounts@ == old(table).mounts@,
        components(path.spec_bytes()).len() > 0 && !old(table).mounted() ==> r == Err::<(), Errno>(
            Errno::ENOENT,
        ),
        components(path.spec_bytes()).len() > 0 && old(table).mounted() ==> match with_dir(
            old(table).root(),
            components(path.spec_bytes()),
        ) {
            Ok(t) => r is Ok && final(table).root() == t,
            Err(e) => r == Err::<(), Errno>(e) && final(table).root() == old(table).root(),
        },
        forall|handles: Set<nat>|
            old(table).mounted() && files_in(old(table).root(), handles) ==> files_in(
                final(table).root(),
                handles,
            ),
{
    let norm = normalize_path(path.as_bytes());
    let comps = split_path(norm.as_slice());
    proof {
        lemma_normalized_components(path.spec_bytes());
    }
    if comps.len() == 0 {
        return Ok(());
    }
    if table.mounts.len() == 0 {
        return Err(Errno::ENOENT);
    }
    proof {
        assert(rows(comps).skip(0) =~= rows(comps));
        if with_dir(table.root(), rows(comps)) is Ok {
            lemma_mkdir_wf(table.root(), rows(comps));
            assert forall|handles: Set<nat>| files_in(table.root(), handles) implies files_in(
                with_dir(table.root(), rows(comps))->Ok_0,
                handles,
            ) by {
                lemma_mkdir_in(table.root(), rows(comps), handles);
            }
        }
    }
    make_dirs(&mut table.mounts[0].root, &comps, 0)
}

/// Creates the file at `path`, backed by `file`, and any directory missing
/// on the way to it. What the path named before is replaced, and a backend
/// that nothing refers to any more is torn down. The backend enters the
/// store only if the file is created. A path without components names no
/// file: `EINVAL`.
pub fn vfs_create_file(k: &mut Kernel, path: &str, file: Backend) -> (r: Result<(), Errno>)
    requires
        old(k).wf(),
    ensures
        final(k).wf(),
        final(k).mounts.mounted() == old(k).mounts.mounted(),
        final(k).fds@ == old(k).fds@,
        final(k).exit_code == old(k).exit_code,
        final(k).heap == old(k).heap,
        final(k).syscalls == old(k).syscalls,
        r is Err ==> final(k).files@ == old(k).files@,
        old(k).files@.len() <= final(k).files@.len() <= old(k).files@.len() + 1,
        components(path.spec_bytes()).len() == 0 ==> r == Err::<(), Errno>(Errno::EINVAL) && final(k).mounts == old(k).mounts,
        components(path.spec_bytes()).len() > 0 && !old(k).mounts.mounted() ==> r == Err::<
            (),
            Errno,
        >(Errno::ENOENT),
        components(path.spec_bytes()).len() > 0 && old(k).mounts.mounted() ==> match with_file(
            old(k).mounts.root(),
            components(path.spec_bytes()),
            next_slot(old(k).files@) as nat,
        ) {
            Ok(t) => r is Ok && final(k).mounts.root() == t && final(k).files@ == swept(
                filled(old(k).files@, next_slot(old(k).files@), file@),
                old(k).fds@,
                &final(k).mounts,
            ),
            Err(e) => r == Err::<(), Errno>(e) && final(k).mounts.root() == old(k).mounts.root(),
        },
{
    let norm = normalize_path(path.as_bytes());
    let comps = split_path(norm.as_slice());
    proof {
        lemma_normalized_components(path.spec_bytes());
    }
    if comps.len() == 0 {
        return Err(Errno::EINVAL);
    }
    if k.mounts.mounts.len() == 0 {
        return Err(Errno::ENOENT);
    }
    let next = k.files.next_handle();
    proof {
        assert(rows(comps).skip(0) =~= rows(comps));
        if with_file(k.mounts.root(), rows(comps), next.id as nat) is Ok {
            lemma_create_wf(k.mounts.root(), rows(comps), next.id as nat);
            let grown = live_handles(k.files@).insert(next.id as nat);
            lemma_files_in_grow(k.mounts.root(), live_handles(k.files@), grown);
            lemma_create_in(k.mounts.root(), rows(comps), next.id as nat, grown);
        }
    }
    match place_file(&mut k.mounts.mounts[0].root, &comps, 0, next) {
        Ok(()) => {
            let h = k.files.insert(file);
            proof {
                let grown = live_handles(old(k).files@).insert(next.id as nat);
                assert(live_handles(k.files@) =~= grown);
            }
            sweep(k);
            Ok(())
        },
        Err(e) => Err(e),
    }
}

} // verus!
