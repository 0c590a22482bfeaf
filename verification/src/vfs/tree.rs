//! The mathematical model of the filesystem tree, and what the tree
//! operations mean on it.

use vstd::prelude::*;
use crate::errno::Errno;

verus! {

/// A path that has been split: its components, outermost first.
pub type Components = Seq<Seq<u8>>;

/// The children of a directory, each under its name.
pub type Entries = Seq<(Seq<u8>, Tree)>;

/// A node of the tree: a file, known by the number of its shared handle, a
/// directory, or a symbolic link with its target.
pub enum Tree {
    File(nat),
    Dir(Entries),
    Symlink(Seq<char>),
}

/// No child of the directory is called `name`.
pub open spec fn absent(entries: Entries, name: Seq<u8>) -> bool {
    forall|i: int| 0 <= i < entries.len() ==> (#[trigger] entries[i]).0 != name
}

/// `i` is the position of the first child called `name`.
pub open spec fn first_at(entries: Entries, name: Seq<u8>, i: int) -> bool {
    &&& 0 <= i < entries.len()
    &&& entries[i].0 == name
    &&& forall|j: int| 0 <= j < i ==> (#[trigger] entries[j]).0 != name
}

/// The position of the child called `name`, if there is one.
pub open spec fn find(entries: Entries, name: Seq<u8>) -> Option<int> {
    if absent(entries, name) {
        None
    } else {
        Some(choose|i: int| first_at(entries, name, i))
    }
}

/// No two children of the directory share a name.
pub open spec fn distinct_names(entries: Entries) -> bool {
    forall|i: int, j: int|
        0 <= i < entries.len() && 0 <= j < entries.len() && i != j ==> (#[trigger] entries[i]).0
            != (#[trigger] entries[j]).0
}

/// The invariant of the tree: in every directory, at every depth, the names
/// are distinct.
pub open spec fn wf_tree(t: Tree) -> bool
    decreases t,
{
    match t {
        Tree::Dir(entries) => distinct_names(entries) && forall|i: int|
            0 <= i < entries.len() ==> wf_tree((#[trigger] entries[i]).1),
        _ => true,
    }
}

/// The node that the components lead to from `t`: `ENOENT` where a
/// directory has no child of the name, `ENOTDIR` where the way leads
/// through a file, `ENOSYS` where it leads through a symbolic link.
pub open spec fn walk(t: Tree, comps: Components) -> Result<Tree, Errno>
    decreases comps.len(),
{
    if comps.len() == 0 {
        Ok(t)
    } else {
        match t {
            Tree::Dir(entries) => match find(entries, comps[0]) {
                Some(i) => walk(entries[i].1, comps.skip(1)),
                None => Err(Errno::ENOENT),
            },
            Tree::File(_) => Err(Errno::ENOTDIR),
            Tree::Symlink(_) => Err(Errno::ENOSYS),
        }
    }
}

/// What a node that was reached stands for when it is opened: a file gives
/// its handle, a directory `EISDIR`, a symbolic link `ENOSYS`.
pub open spec fn opened(t: Tree) -> Result<nat, Errno> {
    match t {
        Tree::File(h) => Ok(h),
        Tree::Dir(_) => Err(Errno::EISDIR),
        Tree::Symlink(_) => Err(Errno::ENOSYS),
    }
}

/// The handle of the file that the components name in `t`, or the error of
/// the resolution.
pub open spec fn resolved(t: Tree, comps: Components) -> Result<nat, Errno> {
    match walk(t, comps) {
        Ok(node) => opened(node),
        Err(e) => Err(e),
    }
}

/// The tree in which the components name a directory: directories that are
/// missing on the way are added, what exists is kept. A file on the way, or
/// at its end, gives `ENOTDIR`; a symbolic link gives `ENOSYS`.
pub open spec fn with_dir(t: Tree, comps: Components) -> Result<Tree, Errno>
    decreases comps.len(),
{
    match t {
        Tree::Dir(entries) => if comps.len() == 0 {
            Ok(t)
        } else {
            match find(entries, comps[0]) {
                Some(i) => match with_dir(entries[i].1, comps.skip(1)) {
                    Ok(sub) => Ok(Tree::Dir(entries.update(i, (comps[0], sub)))),
                    Err(e) => Err(e),
                },
                None => match with_dir(Tree::Dir(Seq::empty()), comps.skip(1)) {
                    Ok(sub) => Ok(Tree::Dir(entries.push((comps[0], sub)))),
                    Err(e) => Err(e),
                },
            }
        },
        Tree::File(_) => Err(Errno::ENOTDIR),
        Tree::Symlink(_) => Err(Errno::ENOSYS),
    }
}

/// The directory in which `name` names `node`: an existing child of that
/// name is replaced where it stands, a new one comes last.
pub open spec fn put(entries: Entries, name: Seq<u8>, node: Tree) -> Entries {
    match find(entries, name) {
        Some(i) => entries.update(i, (name, node)),
        None => entries.push((name, node)),
    }
}

/// The tree in which the components name the file with handle `h`: the
/// directories on the way are made as by `with_dir`, and in the last of them
/// the last component names the file, whatever it named before. Without a
/// last component there is no file name: `EINVAL`.
pub open spec fn with_file(t: Tree, comps: Components, h: nat) -> Result<Tree, Errno>
    decreases comps.len(),
{
    if comps.len() == 0 {
        Err(Errno::EINVAL)
    } else {
        match t {
            Tree::Dir(entries) => if comps.len() == 1 {
                Ok(Tree::Dir(put(entries, comps[0], Tree::File(h))))
            } else {
                match find(entries, comps[0]) {
                    Some(i) => match with_file(entries[i].1, comps.skip(1), h) {
                        Ok(sub) => Ok(Tree::Dir(entries.update(i, (comps[0], sub)))),
                        Err(e) => Err(e),
                    },
                    None => match with_file(Tree::Dir(Seq::empty()), comps.skip(1), h) {
                        Ok(sub) => Ok(Tree::Dir(entries.push((comps[0], sub)))),
                        Err(e) => Err(e),
                    },
                }
            },
            Tree::File(_) => Err(Errno::ENOTDIR),
            Tree::Symlink(_) => Err(Errno::ENOSYS),
        }
    }
}

/// Where a child of the name exists, `find` gives the first such position.
pub proof fn lemma_find_first(entries: Entries, name: Seq<u8>, i: int)
    requires
        first_at(entries, name, i),
    ensures
        find(entries, name) == Some(i),
{
    assert(!absent(entries, name));
    let k = choose|k: int| first_at(entries, name, k);
    assert(first_at(entries, name, k));
    if k < i {
        assert(entries[k].0 != name);
    } else if i < k {
        assert(entries[i].0 != name);
    }
}

/// What `find` gives is the first position of the name.
pub proof fn lemma_find_some(entries: Entries, name: Seq<u8>)
    requires
        !absent(entries, name),
    ensures
        find(entries, name) is Some,
        first_at(entries, name, find(entries, name)->0),
{
    let m = choose|m: int| 0 <= m < entries.len() && (#[trigger] entries[m]).0 == name;
    lemma_first_exists(entries, name, m);
}

/// Below any position of the name there is a first one.
proof fn lemma_first_exists(entries: Entries, name: Seq<u8>, m: int)
    requires
        0 <= m < entries.len(),
        entries[m].0 == name,
    ensures
        exists|i: int| first_at(entries, name, i),
    decreases m,
{
    if forall|j: int| 0 <= j < m ==> (#[trigger] entries[j]).0 != name {
        assert(first_at(entries, name, m));
    } else {
        let j = choose|j: int| 0 <= j < m && (#[trigger] entries[j]).0 == name;
        lemma_first_exists(entries, name, j);
    }
}

/// In the directory that `put` gives, the name is found and names the node;
/// distinct names stay distinct.
pub proof fn lemma_put(entries: Entries, name: Seq<u8>, node: Tree)
    requires
        distinct_names(entries),
    ensures
        find(put(entries, name, node), name) is Some,
        put(entries, name, node)[find(put(entries, name, node), name)->0] == (name, node),
        distinct_names(put(entries, name, node)),
{
    let after = put(entries, name, node);
    if absent(entries, name) {
        let i = entries.len() as int;
        assert(after[i] == (name, node));
        assert forall|j: int| 0 <= j < i implies (#[trigger] after[j]).0 != name by {
            assert(after[j] == entries[j]);
        }
        assert(first_at(after, name, i));
        lemma_find_first(after, name, i);
        assert forall|a: int, b: int|
            0 <= a < after.len() && 0 <= b < after.len() && a != b implies (#[trigger] after[a]).0
            != (#[trigger] after[b]).0 by {
            if a < i {
                assert(after[a] == entries[a]);
            }
            if b < i {
                assert(after[b] == entries[b]);
            }
        }
    } else {
        lemma_find_some(entries, name);
        let i = find(entries, name)->0;
        lemma_update_keeps_names(entries, i, node);
    }
}

/// Replacing the node of a child under its own name keeps every name where
/// it was: the child is still found there, and names stay distinct.
pub proof fn lemma_update_keeps_names(entries: Entries, i: int, node: Tree)
    requires
        0 <= i < entries.len(),
        first_at(entries, entries[i].0, i),
    ensures
        find(entries.update(i, (entries[i].0, node)), entries[i].0) == Some(i),
        distinct_names(entries) ==> distinct_names(entries.update(i, (entries[i].0, node))),
        forall|name: Seq<u8>| #[trigger]
            find(entries.update(i, (entries[i].0, node)), name) == find(entries, name),
{
    let name0 = entries[i].0;
    let after = entries.update(i, (name0, node));
    assert forall|j: int| 0 <= j < after.len() implies (#[trigger] after[j]).0 == entries[j].0 by {
        if j != i {
            assert(after[j] == entries[j]);
        }
    }
    assert(first_at(after, name0, i)) by {
        assert forall|j: int| 0 <= j < i implies (#[trigger] after[j]).0 != name0 by {
            assert(after[j].0 == entries[j].0);
        }
    }
    lemma_find_first(after, name0, i);
    if distinct_names(entries) {
        assert forall|a: int, b: int|
            0 <= a < after.len() && 0 <= b < after.len() && a != b implies (#[trigger] after[a]).0
            != (#[trigger] after[b]).0 by {
            assert(after[a].0 == entries[a].0);
            assert(after[b].0 == entries[b].0);
        }
    }
    assert forall|name: Seq<u8>| #[trigger] find(after, name) == find(entries, name) by {
        if absent(entries, name) {
            assert forall|j: int| 0 <= j < after.len() implies (#[trigger] after[j]).0 != name by {
                assert(after[j].0 == entries[j].0);
            }
        } else {
            lemma_find_some(entries, name);
            let k = find(entries, name)->0;
            assert(first_at(after, name, k)) by {
                assert(after[k].0 == entries[k].0);
                assert forall|j: int| 0 <= j < k implies (#[trigger] after[j]).0 != name by {
                    assert(after[j].0 == entries[j].0);
                }
            }
            lemma_find_first(after, name, k);
        }
    }
}

/// A child that comes last under a name that was absent is found there, and
/// every other name is found where it was.
pub proof fn lemma_push_new_name(entries: Entries, name: Seq<u8>, node: Tree)
    requires
        absent(entries, name),
    ensures
        find(entries.push((name, node)), name) == Some(entries.len() as int),
        distinct_names(entries) ==> distinct_names(entries.push((name, node))),
        forall|other: Seq<u8>|
            other != name ==> #[trigger] find(entries.push((name, node)), other) == find(
                entries,
                other,
            ),
{
    let after = entries.push((name, node));
    let i = entries.len() as int;
    assert forall|j: int| 0 <= j < i implies (#[trigger] after[j]) == entries[j] by {}
    assert(first_at(after, name, i)) by {
        assert forall|j: int| 0 <= j < i implies (#[trigger] after[j]).0 != name by {
            assert(after[j] == entries[j]);
        }
    }
    lemma_find_first(after, name, i);
    if distinct_names(entries) {
        assert forall|a: int, b: int|
            0 <= a < after.len() && 0 <= b < after.len() && a != b implies (#[trigger] after[a]).0
            != (#[trigger] after[b]).0 by {
            if a < i {
                assert(after[a] == entries[a]);
            }
            if b < i {
                assert(after[b] == entries[b]);
            }
        }
    }
    assert forall|other: Seq<u8>| other != name implies #[trigger] find(after, other) == find(
        entries,
        other,
    ) by {
        if absent(entries, other) {
            assert forall|j: int| 0 <= j < after.len() implies (#[trigger] after[j]).0 != other by {
                if j < i {
                    assert(after[j] == entries[j]);
                }
            }
        } else {
            lemma_find_some(entries, other);
            let k = find(entries, other)->0;
            assert(first_at(after, other, k)) by {
                assert(after[k] == entries[k]);
                assert forall|j: int| 0 <= j < k implies (#[trigger] after[j]).0 != other by {
                    assert(after[j] == entries[j]);
                }
            }
            lemma_find_first(after, other, k);
        }
    }
}

/// Making directories in an empty directory always succeeds.
pub proof fn lemma_with_dir_fresh(comps: Components)
    ensures
        with_dir(Tree::Dir(Seq::empty()), comps) is Ok,
    decreases comps.len(),
{
    if comps.len() > 0 {
        assert(absent(Seq::<(Seq<u8>, Tree)>::empty(), comps[0]));
        lemma_with_dir_fresh(comps.skip(1));
    }
}

/// After a directory was made, its path leads to a directory: resolving it
/// as a file gives `EISDIR`.
pub proof fn lemma_mkdir_then_resolve(t: Tree, comps: Components)
    requires
        with_dir(t, comps) is Ok,
    ensures
        walk(with_dir(t, comps)->Ok_0, comps) is Ok,
        walk(with_dir(t, comps)->Ok_0, comps)->Ok_0 is Dir,
        resolved(with_dir(t, comps)->Ok_0, comps) == Err::<nat, Errno>(Errno::EISDIR),
    decreases comps.len(),
{
    let after = with_dir(t, comps)->Ok_0;
    if comps.len() > 0 {
        let entries = t->Dir_0;
        let rest = comps.skip(1);
        if absent(entries, comps[0]) {
            let sub = with_dir(Tree::Dir(Seq::empty()), rest)->Ok_0;
            lemma_push_new_name(entries, comps[0], sub);
            lemma_mkdir_then_resolve(Tree::Dir(Seq::empty()), rest);
        } else {
            lemma_find_some(entries, comps[0]);
            let i = find(entries, comps[0])->0;
            let sub = with_dir(entries[i].1, rest)->Ok_0;
            lemma_update_keeps_names(entries, i, sub);
            lemma_mkdir_then_resolve(entries[i].1, rest);
        }
    }
}

/// Making a directory that exists changes nothing: the operation is
/// idempotent.
pub proof fn lemma_mkdir_idempotent(t: Tree, comps: Components)
    requires
        with_dir(t, comps) is Ok,
    ensures
        with_dir(with_dir(t, comps)->Ok_0, comps) == with_dir(t, comps),
    decreases comps.len(),
{
    let after = with_dir(t, comps)->Ok_0;
    if comps.len() > 0 {
        let entries = t->Dir_0;
        let rest = comps.skip(1);
        if absent(entries, comps[0]) {
            let sub = with_dir(Tree::Dir(Seq::empty()), rest)->Ok_0;
            let grown = entries.push((comps[0], sub));
            lemma_push_new_name(entries, comps[0], sub);
            lemma_mkdir_idempotent(Tree::Dir(Seq::empty()), rest);
            assert(grown.update(entries.len() as int, (comps[0], sub)) =~= grown);
        } else {
            lemma_find_some(entries, comps[0]);
            let i = find(entries, comps[0])->0;
            let sub = with_dir(entries[i].1, rest)->Ok_0;
            let changed = entries.update(i, (comps[0], sub));
            lemma_update_keeps_names(entries, i, sub);
            lemma_mkdir_idempotent(entries[i].1, rest);
            assert(changed.update(i, (comps[0], sub)) =~= changed);
        }
    }
}

/// Making a directory fails only on a file or a symbolic link in its way.
pub proof fn lemma_mkdir_errors(t: Tree, comps: Components)
    requires
        with_dir(t, comps) is Err,
    ensures
        with_dir(t, comps)->Err_0 == Errno::ENOTDIR || with_dir(t, comps)->Err_0 == Errno::ENOSYS,
    decreases comps.len(),
{
    if t is Dir && comps.len() > 0 {
        let entries = t->Dir_0;
        let rest = comps.skip(1);
        if absent(entries, comps[0]) {
            lemma_with_dir_fresh(rest);
        } else {
            lemma_find_some(entries, comps[0]);
            lemma_mkdir_errors(entries[find(entries, comps[0])->0].1, rest);
        }
    }
}

/// Making a directory keeps the names of every directory distinct.
pub proof fn lemma_mkdir_wf(t: Tree, comps: Components)
    requires
        wf_tree(t),
        with_dir(t, comps) is Ok,
    ensures
        wf_tree(with_dir(t, comps)->Ok_0),
    decreases comps.len(),
{
    if comps.len() > 0 {
        let entries = t->Dir_0;
        let rest = comps.skip(1);
        if absent(entries, comps[0]) {
            let sub = with_dir(Tree::Dir(Seq::empty()), rest)->Ok_0;
            let grown = entries.push((comps[0], sub));
            lemma_push_new_name(entries, comps[0], sub);
            lemma_mkdir_wf(Tree::Dir(Seq::empty()), rest);
            assert forall|j: int| 0 <= j < grown.len() implies wf_tree((#[trigger] grown[j]).1) by {
                if j < entries.len() {
                    assert(grown[j] == entries[j]);
                }
            }
        } else {
            lemma_find_some(entries, comps[0]);
            let i = find(entries, comps[0])->0;
            let sub = with_dir(entries[i].1, rest)->Ok_0;
            let changed = entries.update(i, (comps[0], sub));
            lemma_update_keeps_names(entries, i, sub);
            lemma_mkdir_wf(entries[i].1, rest);
            assert forall|j: int| 0 <= j < changed.len() implies wf_tree(
                (#[trigger] changed[j]).1,
            ) by {
                if j != i {
                    assert(changed[j] == entries[j]);
                }
            }
        }
    }
}

/// After a file was created, its path resolves to the handle it was created
/// with.
pub proof fn lemma_create_then_resolve(t: Tree, comps: Components, h: nat)
    requires
        wf_tree(t),
        with_file(t, comps, h) is Ok,
    ensures
        resolved(with_file(t, comps, h)->Ok_0, comps) == Ok::<nat, Errno>(h),
    decreases comps.len(),
{
    let entries = t->Dir_0;
    let rest = comps.skip(1);
    if comps.len() == 1 {
        lemma_put(entries, comps[0], Tree::File(h));
        let after = put(entries, comps[0], Tree::File(h));
        let i = find(after, comps[0])->0;
        assert(walk(after[i].1, rest) == Ok::<Tree, Errno>(Tree::File(h)));
    } else if absent(entries, comps[0]) {
        let sub = with_file(Tree::Dir(Seq::empty()), rest, h)->Ok_0;
        lemma_push_new_name(entries, comps[0], sub);
        lemma_create_then_resolve(Tree::Dir(Seq::empty()), rest, h);
    } else {
        lemma_find_some(entries, comps[0]);
        let i = find(entries, comps[0])->0;
        let sub = with_file(entries[i].1, rest, h)->Ok_0;
        lemma_update_keeps_names(entries, i, sub);
        lemma_create_then_resolve(entries[i].1, rest, h);
    }
}

/// Creating a file keeps the names of every directory distinct.
pub proof fn lemma_create_wf(t: Tree, comps: Components, h: nat)
    requires
        wf_tree(t),
        with_file(t, comps, h) is Ok,
    ensures
        wf_tree(with_file(t, comps, h)->Ok_0),
    decreases comps.len(),
{
    let entries = t->Dir_0;
    let rest = comps.skip(1);
    if comps.len() == 1 {
        lemma_put(entries, comps[0], Tree::File(h));
        let after = put(entries, comps[0], Tree::File(h));
        assert forall|j: int| 0 <= j < after.len() implies wf_tree((#[trigger] after[j]).1) by {
            if absent(entries, comps[0]) {
                if j < entries.len() {
                    assert(after[j] == entries[j]);
                }
            } else {
                lemma_find_some(entries, comps[0]);
                if j != find(entries, comps[0])->0 {
                    assert(after[j] == entries[j]);
                }
            }
        }
    } else if absent(entries, comps[0]) {
        let sub = with_file(Tree::Dir(Seq::empty()), rest, h)->Ok_0;
        let grown = entries.push((comps[0], sub));
        lemma_push_new_name(entries, comps[0], sub);
        lemma_create_wf(Tree::Dir(Seq::empty()), rest, h);
        assert forall|j: int| 0 <= j < grown.len() implies wf_tree((#[trigger] grown[j]).1) by {
            if j < entries.len() {
                assert(grown[j] == entries[j]);
            }
        }
    } else {
        lemma_find_some(entries, comps[0]);
        let i = find(entries, comps[0])->0;
        let sub = with_file(entries[i].1, rest, h)->Ok_0;
        let changed = entries.update(i, (comps[0], sub));
        lemma_update_keeps_names(entries, i, sub);
        lemma_create_wf(entries[i].1, rest, h);
        assert forall|j: int| 0 <= j < changed.len() implies wf_tree((#[trigger] changed[j]).1) by {
            if j != i {
                assert(changed[j] == entries[j]);
            }
        }
    }
}

/// In a directory that has no child of the first component, nothing
/// resolves: `ENOENT`.
pub proof fn lemma_missing_is_enoent(entries: Entries, comps: Components)
    requires
        comps.len() > 0,
        absent(entries, comps[0]),
    ensures
        resolved(Tree::Dir(entries), comps) == Err::<nat, Errno>(Errno::ENOENT),
{
}

/// Resolution fails with one of four errors.
pub proof fn lemma_resolve_errors(t: Tree, comps: Components)
    requires
        resolved(t, comps) is Err,
    ensures
        ({
            let e = resolved(t, comps)->Err_0;
            e == Errno::ENOENT || e == Errno::ENOTDIR || e == Errno::ENOSYS || e == Errno::EISDIR
        }),
    decreases comps.len(),
{
    if comps.len() > 0 {
        match t {
            Tree::Dir(entries) => {
                if !absent(entries, comps[0]) {
                    lemma_find_some(entries, comps[0]);
                    lemma_resolve_errors(entries[find(entries, comps[0])->0].1, comps.skip(1));
                }
            },
            _ => {},
        }
    }
}

/// Every file of the tree has its handle in `handles`.
pub open spec fn files_in(t: Tree, handles: Set<nat>) -> bool
    decreases t,
{
    match t {
        Tree::File(h) => handles.contains(h),
        Tree::Dir(entries) => forall|i: int|
            0 <= i < entries.len() ==> files_in((#[trigger] entries[i]).1, handles),
        Tree::Symlink(_) => true,
    }
}

/// Some file of the tree has the handle `h`.
pub open spec fn mentions(t: Tree, h: nat) -> bool
    decreases t,
{
    match t {
        Tree::File(x) => x == h,
        Tree::Dir(entries) => exists|i: int|
            0 <= i < entries.len() && mentions((#[trigger] entries[i]).1, h),
        Tree::Symlink(_) => false,
    }
}

/// A tree whose handles are in a set has them in every larger set.
pub proof fn lemma_files_in_grow(t: Tree, small: Set<nat>, large: Set<nat>)
    requires
        files_in(t, small),
        small.subset_of(large),
    ensures
        files_in(t, large),
    decreases t,
{
    match t {
        Tree::Dir(entries) => {
            assert forall|i: int| 0 <= i < entries.len() implies files_in(
                (#[trigger] entries[i]).1,
                large,
            ) by {
                lemma_files_in_grow(entries[i].1, small, large);
            }
        },
        _ => {},
    }
}

/// A handle that the tree does not mention can leave the set.
pub proof fn lemma_files_in_drop(t: Tree, handles: Set<nat>, h: nat)
    requires
        files_in(t, handles),
        !mentions(t, h),
    ensures
        files_in(t, handles.remove(h)),
    decreases t,
{
    match t {
        Tree::Dir(entries) => {
            assert forall|i: int| 0 <= i < entries.len() implies files_in(
                (#[trigger] entries[i]).1,
                handles.remove(h),
            ) by {
                lemma_files_in_drop(entries[i].1, handles, h);
            }
        },
        _ => {},
    }
}

/// What a path leads to in a tree whose handles are in a set has its
/// handles there too; a path that resolves gives a handle of the set.
pub proof fn lemma_walk_in(t: Tree, comps: Components, handles: Set<nat>)
    requires
        files_in(t, handles),
    ensures
        walk(t, comps) matches Ok(node) ==> files_in(node, handles),
        resolved(t, comps) matches Ok(h) ==> handles.contains(h),
    decreases comps.len(),
{
    if comps.len() > 0 {
        match t {
            Tree::Dir(entries) => {
                if !absent(entries, comps[0]) {
                    lemma_find_some(entries, comps[0]);
                    lemma_walk_in(entries[find(entries, comps[0])->0].1, comps.skip(1), handles);
                }
            },
            _ => {},
        }
    }
}

/// A file that a path resolves to is mentioned by the tree.
pub proof fn lemma_resolved_is_mentioned(t: Tree, comps: Components)
    requires
        resolved(t, comps) is Ok,
    ensures
        mentions(t, resolved(t, comps)->Ok_0),
    decreases comps.len(),
{
    if comps.len() > 0 {
        match t {
            Tree::Dir(entries) => {
                lemma_find_some(entries, comps[0]);
                let i = find(entries, comps[0])->0;
                lemma_resolved_is_mentioned(entries[i].1, comps.skip(1));
                assert(mentions(entries[i].1, resolved(t, comps)->Ok_0));
            },
            _ => {},
        }
    }
}

/// Making a directory adds no file.
pub proof fn lemma_mkdir_in(t: Tree, comps: Components, handles: Set<nat>)
    requires
        files_in(t, handles),
        with_dir(t, comps) is Ok,
    ensures
        files_in(with_dir(t, comps)->Ok_0, handles),
    decreases comps.len(),
{
    if comps.len() > 0 {
        let entries = t->Dir_0;
        let rest = comps.skip(1);
        if absent(entries, comps[0]) {
            let sub = with_dir(Tree::Dir(Seq::empty()), rest)->Ok_0;
            let grown = entries.push((comps[0], sub));
            lemma_mkdir_in(Tree::Dir(Seq::empty()), rest, handles);
            assert forall|j: int| 0 <= j < grown.len() implies files_in(
                (#[trigger] grown[j]).1,
                handles,
            ) by {
                if j < entries.len() {
                    assert(grown[j] == entries[j]);
                }
            }
        } else {
            lemma_find_some(entries, comps[0]);
            let i = find(entries, comps[0])->0;
            let sub = with_dir(entries[i].1, rest)->Ok_0;
            let changed = entries.update(i, (comps[0], sub));
            lemma_mkdir_in(entries[i].1, rest, handles);
            assert forall|j: int| 0 <= j < changed.len() implies files_in(
                (#[trigger] changed[j]).1,
                handles,
            ) by {
                if j != i {
                    assert(changed[j] == entries[j]);
                }
            }
        }
    }
}

/// Creating a file adds its handle and no other.
pub proof fn lemma_create_in(t: Tree, comps: Components, h: nat, handles: Set<nat>)
    requires
        files_in(t, handles),
        handles.contains(h),
        with_file(t, comps, h) is Ok,
    ensures
        files_in(with_file(t, comps, h)->Ok_0, handles),
    decreases comps.len(),
{
    let entries = t->Dir_0;
    let rest = comps.skip(1);
    if comps.len() == 1 {
        let after = put(entries, comps[0], Tree::File(h));
        assert forall|j: int| 0 <= j < after.len() implies files_in(
            (#[trigger] after[j]).1,
            handles,
        ) by {
            if absent(entries, comps[0]) {
                if j < entries.len() {
                    assert(after[j] == entries[j]);
                }
            } else {
                lemma_find_some(entries, comps[0]);
                if j != find(entries, comps[0])->0 {
                    assert(after[j] == entries[j]);
                }
            }
        }
    } else if absent(entries, comps[0]) {
        let sub = with_file(Tree::Dir(Seq::empty()), rest, h)->Ok_0;
        let grown = entries.push((comps[0], sub));
        lemma_create_in(Tree::Dir(Seq::empty()), rest, h, handles);
        assert forall|j: int| 0 <= j < grown.len() implies files_in(
            (#[trigger] grown[j]).1,
            handles,
        ) by {
            if j < entries.len() {
                assert(grown[j] == entries[j]);
            }
        }
    } else {
        lemma_find_some(entries, comps[0]);
        let i = find(entries, comps[0])->0;
        let sub = with_file(entries[i].1, rest, h)->Ok_0;
        let changed = entries.update(i, (comps[0], sub));
        lemma_create_in(entries[i].1, rest, h, handles);
        assert forall|j: int| 0 <= j < changed.len() implies files_in(
            (#[trigger] changed[j]).1,
            handles,
        ) by {
            if j != i {
                assert(changed[j] == entries[j]);
            }
        }
    }
}

/// The first path is the start of the second.
pub open spec fn leads_to(prefix: Components, path: Components) -> bool {
    prefix.len() <= path.len() && path.take(prefix.len() as int) == prefix
}

/// The two nodes are of one kind, and the same file if they are files.
pub open spec fn same_kind(a: Tree, b: Tree) -> bool {
    match a {
        Tree::File(h) => b == a,
        Tree::Dir(_) => b is Dir,
        Tree::Symlink(target) => b == a,
    }
}

/// Making a directory keeps what exists: a path that led somewhere leads
/// to a node of the same kind afterwards, and resolves as before.
pub proof fn lemma_mkdir_keeps(t: Tree, made: Components, other: Components)
    requires
        with_dir(t, made) is Ok,
        walk(t, other) is Ok,
    ensures
        walk(with_dir(t, made)->Ok_0, other) is Ok,
        same_kind(walk(t, other)->Ok_0, walk(with_dir(t, made)->Ok_0, other)->Ok_0),
        resolved(with_dir(t, made)->Ok_0, other) == resolved(t, other),
    decreases other.len(),
{
    if made.len() > 0 && other.len() > 0 {
        let entries = t->Dir_0;
        lemma_find_some(entries, other[0]);
        let j = find(entries, other[0])->0;
        if absent(entries, made[0]) {
            let sub = with_dir(Tree::Dir(Seq::empty()), made.skip(1))->Ok_0;
            lemma_push_new_name(entries, made[0], sub);
            assert(entries.push((made[0], sub))[j] == entries[j]);
        } else {
            lemma_find_some(entries, made[0]);
            let i = find(entries, made[0])->0;
            let sub = with_dir(entries[i].1, made.skip(1))->Ok_0;
            lemma_update_keeps_names(entries, i, sub);
            if i == j {
                lemma_mkdir_keeps(entries[i].1, made.skip(1), other.skip(1));
            } else {
                assert(entries.update(i, (made[0], sub))[j] == entries[j]);
            }
        }
    }
}

/// Creating a file keeps what exists beside it: a path that led somewhere,
/// and that the path of the file is no start of, leads to a node of the
/// same kind afterwards, and resolves as before.
pub proof fn lemma_create_keeps(t: Tree, made: Components, h: nat, other: Components)
    requires
        with_file(t, made, h) is Ok,
        walk(t, other) is Ok,
        !leads_to(made, other),
    ensures
        walk(with_file(t, made, h)->Ok_0, other) is Ok,
        same_kind(walk(t, other)->Ok_0, walk(with_file(t, made, h)->Ok_0, other)->Ok_0),
        resolved(with_file(t, made, h)->Ok_0, other) == resolved(t, other),
    decreases other.len(),
{
    if other.len() > 0 {
        let entries = t->Dir_0;
        lemma_find_some(entries, other[0]);
        let j = find(entries, other[0])->0;
        if made.len() == 1 {
            assert(other[0] != made[0]) by {
                if other[0] == made[0] {
                    assert(other.take(1) =~= made);
                }
            }
            if absent(entries, made[0]) {
                lemma_push_new_name(entries, made[0], Tree::File(h));
                assert(entries.push((made[0], Tree::File(h)))[j] == entries[j]);
            } else {
                lemma_find_some(entries, made[0]);
                let i = find(entries, made[0])->0;
                lemma_update_keeps_names(entries, i, Tree::File(h));
                assert(entries.update(i, (made[0], Tree::File(h)))[j] == entries[j]);
            }
        } else if absent(entries, made[0]) {
            let sub = with_file(Tree::Dir(Seq::empty()), made.skip(1), h)->Ok_0;
            lemma_push_new_name(entries, made[0], sub);
            assert(entries.push((made[0], sub))[j] == entries[j]);
        } else {
            lemma_find_some(entries, made[0]);
            let i = find(entries, made[0])->0;
            let sub = with_file(entries[i].1, made.skip(1), h)->Ok_0;
            lemma_update_keeps_names(entries, i, sub);
            if i == j {
                assert(!leads_to(made.skip(1), other.skip(1))) by {
                    if leads_to(made.skip(1), other.skip(1)) {
                        assert(other.take(made.len() as int) =~= made) by {
                            assert(other.skip(1).take(made.len() - 1) == made.skip(1));
                            assert forall|k: int| 0 <= k < made.len() implies other.take(
                                made.len() as int,
                            )[k] == made[k] by {
                                if k > 0 {
                                    assert(other.skip(1).take(made.len() - 1)[k - 1] == made.skip(
                                        1,
                                    )[k - 1]);
                                }
                            }
                        }
                    }
                }
                lemma_create_keeps(entries[i].1, made.skip(1), h, other.skip(1));
            } else {
                assert(entries.update(i, (made[0], sub))[j] == entries[j]);
            }
        }
    }
}

/// A file can be created where its directory exists: if the path without
/// its last component leads to a directory, the creation succeeds.
pub proof fn lemma_create_succeeds(t: Tree, comps: Components, h: nat)
    requires
        comps.len() > 0,
        walk(t, comps.drop_last()) matches Ok(node) && node is Dir,
    ensures
        with_file(t, comps, h) is Ok,
    decreases comps.len(),
{
    if comps.len() > 1 {
        let entries = t->Dir_0;
        let parent = comps.drop_last();
        assert(parent[0] == comps[0]);
        assert(parent.skip(1) =~= comps.skip(1).drop_last());
        lemma_find_some(entries, comps[0]);
        lemma_create_succeeds(entries[find(entries, comps[0])->0].1, comps.skip(1), h);
    }
}

/// A directory can be made where directories lead to it, or nothing does:
/// in a tree that holds directories alone, making a directory succeeds.
pub proof fn lemma_mkdir_succeeds(t: Tree, comps: Components)
    requires
        dirs_only(t),
    ensures
        with_dir(t, comps) is Ok,
        dirs_only(with_dir(t, comps)->Ok_0),
    decreases comps.len(),
{
    if comps.len() > 0 {
        let entries = t->Dir_0;
        let rest = comps.skip(1);
        if absent(entries, comps[0]) {
            lemma_mkdir_succeeds(Tree::Dir(Seq::empty()), rest);
            let sub = with_dir(Tree::Dir(Seq::empty()), rest)->Ok_0;
            let grown = entries.push((comps[0], sub));
            assert forall|j: int| 0 <= j < grown.len() implies dirs_only((#[trigger] grown[j]).1) by {
                if j < entries.len() {
                    assert(grown[j] == entries[j]);
                }
            }
        } else {
            lemma_find_some(entries, comps[0]);
            let i = find(entries, comps[0])->0;
            lemma_mkdir_succeeds(entries[i].1, rest);
            let sub = with_dir(entries[i].1, rest)->Ok_0;
            let changed = entries.update(i, (comps[0], sub));
            assert forall|j: int| 0 <= j < changed.len() implies dirs_only(
                (#[trigger] changed[j]).1,
            ) by {
                if j != i {
                    assert(changed[j] == entries[j]);
                }
            }
        }
    }
}

/// The tree holds directories alone.
pub open spec fn dirs_only(t: Tree) -> bool
    decreases t,
{
    match t {
        Tree::Dir(entries) => forall|i: int|
            0 <= i < entries.len() ==> dirs_only((#[trigger] entries[i]).1),
        _ => false,
    }
}

/// One step of making a directory where the first component exists: the
/// rest is made under that child.
pub proof fn lemma_with_dir_under(entries: Entries, i: int, comps: Components, sub: Tree)
    requires
        comps.len() > 0,
        first_at(entries, comps[0], i),
        with_dir(entries[i].1, comps.skip(1)) == Ok::<Tree, Errno>(sub),
    ensures
        with_dir(Tree::Dir(entries), comps) == Ok::<Tree, Errno>(
            Tree::Dir(entries.update(i, (comps[0], sub))),
        ),
{
    lemma_find_first(entries, comps[0], i);
}

/// One step of making a directory where the first component is missing:
/// the rest is made in a new, empty directory, which comes last.
pub proof fn lemma_with_dir_beside(entries: Entries, comps: Components, sub: Tree)
    requires
        comps.len() > 0,
        absent(entries, comps[0]),
        with_dir(Tree::Dir(Seq::empty()), comps.skip(1)) == Ok::<Tree, Errno>(sub),
    ensures
        with_dir(Tree::Dir(entries), comps) == Ok::<Tree, Errno>(
            Tree::Dir(entries.push((comps[0], sub))),
        ),
{
}

/// One step of creating a file where the first component exists and is not
/// the last: the rest is created under that child.
pub proof fn lemma_with_file_under(entries: Entries, i: int, comps: Components, h: nat, sub: Tree)
    requires
        comps.len() > 1,
        first_at(entries, comps[0], i),
        with_file(entries[i].1, comps.skip(1), h) == Ok::<Tree, Errno>(sub),
    ensures
        with_file(Tree::Dir(entries), comps, h) == Ok::<Tree, Errno>(
            Tree::Dir(entries.update(i, (comps[0], sub))),
        ),
{
    lemma_find_first(entries, comps[0], i);
}

/// The last step of creating a file under a name that the directory does
/// not have: the file comes last.
pub proof fn lemma_with_file_new(entries: Entries, comps: Components, h: nat)
    requires
        comps.len() == 1,
        absent(entries, comps[0]),
    ensures
        with_file(Tree::Dir(entries), comps, h) == Ok::<Tree, Errno>(
            Tree::Dir(entries.push((comps[0], Tree::File(h)))),
        ),
{
}

} // verus!
