//! The mount table. The design has one mount, at `/`.

use vstd::prelude::*;
use crate::vfs::node::VfsNode;
use crate::vfs::tree::{Tree, wf_tree};

verus! {

/// A mount: the path at which a tree is attached, and the root of the tree.
pub struct MountPoint {
    pub path: String,
    pub root: VfsNode,
}

/// The mounts of the kernel: none before `init_mount_table`, one after it.
pub struct MountTable {
    pub mounts: Vec<MountPoint>,
}

impl MountTable {
    /// The root mount is in place.
    pub open spec fn mounted(&self) -> bool {
        self.mounts@.len() == 1
    }

    /// The tree under the root mount.
    pub open spec fn root(&self) -> Tree {
        self.mounts@[0].root@
    }

    /// There is at most the root mount; it is attached at `/`, its root is a
    /// directory, and the names in each of its directories are distinct.
    pub open spec fn wf(&self) -> bool {
        &&& self.mounts@.len() <= 1
        &&& self.mounted() ==> {
            &&& self.mounts@[0].path@ == "/"@
            &&& self.root() is Dir
            &&& wf_tree(self.root())
        }
    }

    /// A table without mounts.
    pub fn new() -> (t: MountTable)
        ensures
            t.wf(),
            !t.mounted(),
    {
        MountTable { mounts: Vec::new() }
    }
}

/// Puts the root mount in place, with an empty directory as its root. A
/// table that has its mount is left as it is.
pub fn init_mount_table(table: &mut MountTable)
    requires
        old(table).wf(),
    ensures
        final(table).wf(),
        final(table).mounted(),
        old(table).mounted() ==> final(table).root() == old(table).root(),
        !old(table).mounted() ==> final(table).root() == Tree::Dir(Seq::empty()),
{
    if table.mounts.len() > 0 {
        return ;
    }
    let root = VfsNode::empty_dir();
    table.mounts.push(MountPoint { path: "/".to_owned(), root });
}

} // verus!
