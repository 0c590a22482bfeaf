//! Path resolution: from a path to the shared handle of the file it names.

use vstd::prelude::*;
use vstd::string::*;
use crate::errno::Errno;
use crate::store::FileHandle;
use crate::text::rows;
use crate::vfs::mount::MountTable;
use crate::vfs::node::{VfsNode, entries_view, find_entry, lemma_entries_view};
use crate::vfs::path::{components, lemma_normalized_components, normalize_path, split_path};
use crate::vfs::tree::{Tree, resolved, walk};

verus! {

/// Follows the components from `node` down and opens what they lead to.
pub fn resolve_from(node: &VfsNode, comps: &Vec<Vec<u8>>) -> (r: Result<FileHandle, Errno>)
    ensures
        match resolved(node@, rows(*comps)) {
            Ok(h) => r == Ok::<FileHandle, Errno>(FileHandle { id: h as usize }) && h
                <= usize::MAX,
            Err(e) => r == Err::<FileHandle, Errno>(e),
        },
{
    let mut cur: &VfsNode = node;
    let mut i: usize = 0;
    proof {
        assert(rows(*comps).skip(0) =~= rows(*comps));
    }
    while i < comps.len()
        invariant
            i <= comps@.len(),
            walk(node@, rows(*comps)) == walk(cur@, rows(*comps).skip(i as int)),
        decreases comps@.len() - i,
    {
        let ghost rest = rows(*comps).skip(i as int);
        proof {
            assert(rest[0] == comps@[i as int]@);
            assert(rest.skip(1) =~= rows(*comps).skip(i + 1));
        }
        match cur {
            VfsNode::Directory(entries) => {
                proof {
                    lemma_entries_view(*entries);
                }
                match find_entry(entries, comps[i].as_slice()) {
                    Some(k) => {
                        cur = &entries[k].node;
                    },
                    None => {
                        return Err(Errno::ENOENT);
                    },
                }
            },
            VfsNode::File(_) => {
                return Err(Errno::ENOTDIR);
            },
            VfsNode::Symlink(_) => {
                return Err(Errno::ENOSYS);
            },
        }
        i += 1;
    }
    match cur {
        VfsNode::File(h) => Ok(*h),
        VfsNode::Directory(_) => Err(Errno::EISDIR),
        VfsNode::Symlink(_) => Err(Errno::ENOSYS),
    }
}

/// Resolves a path given as bytes; see `resolve_path`.
pub fn resolve_bytes(table: &MountTable, path: &[u8]) -> (r: Result<FileHandle, Errno>)
    requires
        table.wf(),
    ensures
        !table.mounted() ==> r == Err::<FileHandle, Errno>(Errno::ENOENT),
        table.mounted() ==> match resolved(table.root(), components(path@)) {
            Ok(h) => r == Ok::<FileHandle, Errno>(FileHandle { id: h as usize }) && h
                <= usize::MAX,
            Err(e) => r == Err::<FileHandle, Errno>(e),
        },
{
    if table.mounts.len() == 0 {
        return Err(Errno::ENOENT);
    }
    let norm = normalize_path(path);
    let comps = split_path(norm.as_slice());
    proof {
        lemma_normalized_components(path@);
    }
    resolve_from(&table.mounts[0].root, &comps)
}

/// Resolves `path` to the shared handle of the file it names. Every holder
/// of the handle sees the same file object, so two opens of one path share
/// its cursor. `ENOENT` without the root mount or where a directory has no
/// child of the name; `ENOTDIR` where the way leads through a file;
/// `ENOSYS` at a symbolic link; `EISDIR` where the path names a directory.
pub fn resolve_path(table: &MountTable, path: &str) -> (r: Result<FileHandle, Errno>)
    requires
        table.wf(),
    ensures
        !table.mounted() ==> r == Err::<FileHandle, Errno>(Errno::ENOENT),
        table.mounted() ==> match resolved(table.root(), components(path.spec_bytes())) {
            Ok(h) => r == Ok::<FileHandle, Errno>(FileHandle { id: h as usize }) && h
                <= usize::MAX,
            Err(e) => r == Err::<FileHandle, Errno>(e),
        },
{
    resolve_bytes(table, path.as_bytes())
}

} // verus!
