//! The nodes of the filesystem tree.

use vstd::prelude::*;
use vstd::slice::slice_to_vec;
use crate::store::FileHandle;
use crate::vfs::tree::{Entries, Tree, absent, find, first_at, lemma_find_first, mentions, put};

verus! {

/// A node of the tree. A file is a shared handle, so that every open of it
/// sees the same file object; a directory owns its children; a symbolic
/// link holds the path it points to.
pub enum VfsNode {
    File(FileHandle),
    Directory(Vec<DirEntry>),
    Symlink(String),
}

/// A child of a directory under its name.
pub struct DirEntry {
    pub name: Vec<u8>,
    pub node: VfsNode,
}

/// The model of a node.
pub open spec fn tree_of(n: VfsNode) -> Tree
    decreases n,
{
    match n {
        VfsNode::File(h) => Tree::File(h.id as nat),
        VfsNode::Directory(entries) => Tree::Dir(
            Seq::new(
                entries@.len(),
                |i: int|
                    if 0 <= i < entries@.len() {
                        (entries@[i].name@, tree_of(entries@[i].node))
                    } else {
                        (Seq::empty(), Tree::File(0))
                    },
            ),
        ),
        VfsNode::Symlink(target) => Tree::Symlink(target@),
    }
}

impl View for VfsNode {
    type V = Tree;

    open spec fn view(&self) -> Tree {
        tree_of(*self)
    }
}

/// The children of a directory as the model has them.
pub open spec fn entries_view(entries: Vec<DirEntry>) -> Entries {
    (VfsNode::Directory(entries))@->Dir_0
}

/// The children of a directory, one by one.
pub proof fn lemma_entries_view(entries: Vec<DirEntry>)
    ensures
        entries_view(entries).len() == entries@.len(),
        forall|i: int|
            0 <= i < entries@.len() ==> #[trigger] entries_view(entries)[i] == (
                entries@[i].name@,
                entries@[i].node@,
            ),
        (VfsNode::Directory(entries))@ == Tree::Dir(entries_view(entries)),
{
}

/// Tells whether two byte strings are equal.
pub fn bytes_eq(a: &[u8], b: &[u8]) -> (same: bool)
    ensures
        same == (a@ == b@),
{
    if a.len() != b.len() {
        return false;
    }
    let len: usize = a.len();
    let mut i: usize = 0;
    while i < len
        invariant
            i <= len,
            len == a@.len(),
            len == b@.len(),
            forall|j: int| 0 <= j < i ==> a@[j] == b@[j],
        decreases len - i,
    {
        if a[i] != b[i] {
            return false;
        }
        i += 1;
    }
    proof {
        assert(a@ =~= b@);
    }
    true
}

/// The position of the child called `name`.
pub fn find_entry(entries: &Vec<DirEntry>, name: &[u8]) -> (r: Option<usize>)
    ensures
        match r {
            Some(i) => find(entries_view(*entries), name@) == Some(i as int) && i < entries@.len()
                && first_at(entries_view(*entries), name@, i as int),
            None => find(entries_view(*entries), name@) is None && absent(
                entries_view(*entries),
                name@,
            ),
        },
{
    proof {
        lemma_entries_view(*entries);
    }
    let len: usize = entries.len();
    let mut i: usize = 0;
    while i < len
        invariant
            i <= len,
            len == entries@.len(),
            entries_view(*entries).len() == len,
            forall|j: int|
                0 <= j < len ==> #[trigger] entries_view(*entries)[j] == (
                    entries@[j].name@,
                    entries@[j].node@,
                ),
            forall|j: int| 0 <= j < i ==> (#[trigger] entries_view(*entries)[j]).0 != name@,
        decreases len - i,
    {
        if bytes_eq(entries[i].name.as_slice(), name) {
            proof {
                assert(entries_view(*entries)[i as int].0 == name@);
                lemma_find_first(entries_view(*entries), name@, i as int);
            }
            return Some(i);
        }
        i += 1;
    }
    None
}

impl VfsNode {
    /// An empty directory.
    pub fn empty_dir() -> (n: VfsNode)
        ensures
            n@ == Tree::Dir(Seq::empty()),
    {
        let n = VfsNode::Directory(Vec::new());
        proof {
            let entries = n->Directory_0;
            lemma_entries_view(entries);
            assert(entries_view(entries) =~= Seq::empty());
        }
        n
    }

    /// Tells whether the node is a directory.
    pub fn is_dir(&self) -> (b: bool)
        ensures
            b == (self@ is Dir),
    {
        match self {
            VfsNode::Directory(_) => true,
            _ => false,
        }
    }

    /// Tells whether the node is a file.
    pub fn is_file(&self) -> (b: bool)
        ensures
            b == (self@ is File),
    {
        match self {
            VfsNode::File(_) => true,
            _ => false,
        }
    }

    /// The child called `name`, if the node is a directory that has one.
    pub fn get(&self, name: &[u8]) -> (r: Option<&VfsNode>)
        ensures
            match self@ {
                Tree::Dir(entries) => match find(entries, name@) {
                    Some(i) => r matches Some(n) && n@ == entries[i].1,
                    None => r is None,
                },
                _ => r is None,
            },
    {
        match self {
            VfsNode::Directory(entries) => {
                proof {
                    lemma_entries_view(*entries);
                }
                match find_entry(entries, name) {
                    Some(i) => Some(&entries[i].node),
                    None => None,
                }
            },
            _ => None,
        }
    }

    /// The child called `name`, to change it, if the node is a directory
    /// that has one. What the caller makes of the child is what the
    /// directory holds under the name afterwards.
    pub fn get_mut(&mut self, name: &[u8]) -> (r: Option<&mut VfsNode>)
        ensures
            match old(self)@ {
                Tree::Dir(entries) => match find(entries, name@) {
                    Some(i) => r matches Some(n) && n@ == entries[i].1 && final(self)@
                        == Tree::Dir(entries.update(i, (entries[i].0, final(n)@))),
                    None => r is None && final(self)@ == old(self)@,
                },
                _ => r is None && final(self)@ == old(self)@,
            },
    {
        match self {
            VfsNode::Directory(entries) => {
                proof {
                    lemma_entries_view(*entries);
                }
                match find_entry(entries, name) {
                    Some(i) => {
                        let ghost before = entries_view(*entries);
                        let ghost held = entries@;
                        proof {
                            assert forall|after: Vec<DirEntry>|
                                after@.len() == held.len() && after@[i as int].name
                                    == held[i as int].name && (forall|j: int|
                                    0 <= j < held.len() && j != i ==> after@[j]
                                        == held[j]) implies #[trigger] tree_of(
                                VfsNode::Directory(after),
                            ) == Tree::Dir(
                                before.update(
                                    i as int,
                                    (before[i as int].0, after@[i as int].node@),
                                ),
                            ) by {
                                lemma_entries_view(after);
                                assert(entries_view(after) =~= before.update(
                                    i as int,
                                    (before[i as int].0, after@[i as int].node@),
                                ));
                            }
                        }
                        Some(&mut entries[i].node)
                    },
                    None => None,
                }
            },
            _ => None,
        }
    }

    /// Makes sure that a directory has a child called `name`: where it has
    /// none, an empty directory is added under that name. On a node that is
    /// no directory this does nothing.
    pub fn mkdir(&mut self, name: &[u8])
        ensures
            match old(self)@ {
                Tree::Dir(entries) => final(self)@ == Tree::Dir(
                    if absent(entries, name@) {
                        entries.push((name@, Tree::Dir(Seq::empty())))
                    } else {
                        entries
                    },
                ),
                _ => final(self)@ == old(self)@,
            },
    {
        match self {
            VfsNode::Directory(entries) => {
                proof {
                    lemma_entries_view(*entries);
                }
                if find_entry(entries, name).is_none() {
                    let ghost before = entries_view(*entries);
                    let child = DirEntry { name: slice_to_vec(name), node: VfsNode::empty_dir() };
                    entries.push(child);
                    proof {
                        lemma_entries_view(*entries);
                        assert(entries_view(*entries) =~= before.push(
                            (name@, Tree::Dir(Seq::empty())),
                        ));
                    }
                }
            },
            _ => {},
        }
    }

    /// Makes `name` name the file `file` in a directory: a child of that
    /// name is replaced, else the file is added. On a node that is no
    /// directory this does nothing.
    pub fn add_file(&mut self, name: &[u8], file: FileHandle)
        ensures
            match old(self)@ {
                Tree::Dir(entries) => final(self)@ == Tree::Dir(
                    put(entries, name@, Tree::File(file.id as nat)),
                ),
                _ => final(self)@ == old(self)@,
            },
    {
        match self {
            VfsNode::Directory(entries) => {
                proof {
                    lemma_entries_view(*entries);
                }
                let ghost before = entries_view(*entries);
                let child = DirEntry { name: slice_to_vec(name), node: VfsNode::File(file) };
                match find_entry(entries, name) {
                    Some(i) => {
                        entries[i] = child;
                        proof {
                            lemma_entries_view(*entries);
                            assert(entries_view(*entries) =~= before.update(
                                i as int,
                                (name@, Tree::File(file.id as nat)),
                            ));
                        }
                    },
                    None => {
                        entries.push(child);
                        proof {
                            lemma_entries_view(*entries);
                            assert(entries_view(*entries) =~= before.push(
                                (name@, Tree::File(file.id as nat)),
                            ));
                        }
                    },
                }
            },
            _ => {},
        }
    }
}

/// Tells whether some file under the node has the handle `h`.
pub fn node_mentions(node: &VfsNode, h: FileHandle) -> (b: bool)
    ensures
        b == mentions(node@, h.id as nat),
    decreases node,
{
    match node {
        VfsNode::File(x) => x.id == h.id,
        VfsNode::Symlink(_) => false,
        VfsNode::Directory(entries) => {
            proof {
                lemma_entries_view(*entries);
            }
            let mut i: usize = 0;
            #[verifier::loop_isolation(false)]
            while i < entries.len()
                invariant
                    i <= entries@.len(),
                    forall|j: int|
                        0 <= j < i ==> !mentions((#[trigger] entries_view(*entries)[j]).1, h.id as nat),
                decreases entries@.len() - i,
            {
                if node_mentions(&entries[i].node, h) {
                    proof {
                        assert(mentions(entries_view(*entries)[i as int].1, h.id as nat));
                    }
                    return true;
                }
                i += 1;
            }
            false
        },
    }
}

} // verus!
