//! Paths as bytes: normalization and splitting into components.

use vstd::prelude::*;
use crate::text::rows;
use crate::vfs::tree::Components;

verus! {

/// The byte that separates the components of a path.
pub const SLASH: u8 = 0x2f;

/// A scan of a path from its start: the components that are complete, and
/// the bytes of the one that is still open.
pub struct Scan {
    pub done: Components,
    pub open: Seq<u8>,
}

/// The scan before any byte.
pub open spec fn scan_start() -> Scan {
    Scan { done: Seq::empty(), open: Seq::empty() }
}

/// The components of a scan that ends here: the open one counts if it is
/// not empty.
pub open spec fn scan_close(st: Scan) -> Components {
    if st.open.len() > 0 {
        st.done.push(st.open)
    } else {
        st.done
    }
}

/// The scan after one more byte: a separator closes the open component, any
/// other byte extends it.
pub open spec fn scan_step(st: Scan, b: u8) -> Scan {
    if b == SLASH {
        Scan { done: scan_close(st), open: Seq::empty() }
    } else {
        Scan { done: st.done, open: st.open.push(b) }
    }
}

/// The scan after the bytes of `s`.
pub open spec fn scan(st: Scan, s: Seq<u8>) -> Scan
    decreases s.len(),
{
    if s.len() == 0 {
        st
    } else {
        scan_step(scan(st, s.drop_last()), s.last())
    }
}

/// The components of a path: its maximal runs of bytes other than the
/// separator, in order. Empty runs, as between two separators, do not count.
pub open spec fn components(path: Seq<u8>) -> Components {
    scan_close(scan(scan_start(), path))
}

/// `s` without its leading separators.
pub open spec fn strip_leading(s: Seq<u8>) -> Seq<u8>
    decreases s.len(),
{
    if s.len() > 0 && s[0] == SLASH {
        strip_leading(s.skip(1))
    } else {
        s
    }
}

/// `s` without its trailing separators.
pub open spec fn strip_trailing(s: Seq<u8>) -> Seq<u8>
    decreases s.len(),
{
    if s.len() > 0 && s.last() == SLASH {
        strip_trailing(s.drop_last())
    } else {
        s
    }
}

/// The normal form of a path: one leading separator, then the path without
/// its leading and trailing separators.
pub open spec fn normalized(path: Seq<u8>) -> Seq<u8> {
    seq![SLASH] + strip_trailing(strip_leading(path))
}

/// Brings a path into normal form: `"//foo/bar/"` becomes `"/foo/bar"`, the
/// empty path `"/"`.
pub fn normalize_path(path: &[u8]) -> (out: Vec<u8>)
    ensures
        out@ == normalized(path@),
{
    let len: usize = path.len();
    let mut start: usize = 0;
    proof {
        assert(path@.skip(0) =~= path@);
    }
    while start < len && path[start] == SLASH
        invariant
            start <= len,
            len == path@.len(),
            strip_leading(path@) == strip_leading(path@.skip(start as int)),
        decreases len - start,
    {
        proof {
            assert(path@.skip(start as int).skip(1) =~= path@.skip(start + 1));
        }
        start += 1;
    }
    let ghost body = path@.skip(start as int);
    assert(strip_leading(path@) == body) by {
        if start < len {
            assert(body[0] == path@[start as int]);
        }
    }
    let mut end: usize = len;
    while end > start && path[end - 1] == SLASH
        invariant
            start <= end <= len,
            len == path@.len(),
            body == path@.skip(start as int),
            strip_trailing(body) == strip_trailing(path@.subrange(start as int, end as int)),
        decreases end - start,
    {
        proof {
            let cur = path@.subrange(start as int, end as int);
            assert(cur.last() == path@[end - 1]);
            assert(cur.drop_last() =~= path@.subrange(start as int, end - 1));
        }
        end -= 1;
    }
    let ghost kept = path@.subrange(start as int, end as int);
    assert(strip_trailing(body) == kept) by {
        if end > start {
            assert(kept.last() == path@[end - 1]);
        }
    }
    let mut out: Vec<u8> = Vec::new();
    out.push(SLASH);
    let mut i: usize = start;
    while i < end
        invariant
            start <= i <= end <= len,
            len == path@.len(),
            out@ == seq![SLASH] + path@.subrange(start as int, i as int),
        decreases end - i,
    {
        out.push(path[i]);
        proof {
            assert(out@ =~= seq![SLASH] + path@.subrange(start as int, i + 1));
        }
        i += 1;
    }
    out
}

/// Splits a path into its components: `"/foo//bar/"` gives `foo` and `bar`.
pub fn split_path(path: &[u8]) -> (parts: Vec<Vec<u8>>)
    ensures
        rows(parts) == components(path@),
{
    let len: usize = path.len();
    let mut parts: Vec<Vec<u8>> = Vec::new();
    let mut cur: Vec<u8> = Vec::new();
    let mut i: usize = 0;
    proof {
        assert(rows(parts) =~= scan_start().done);
        assert(path@.take(0) =~= Seq::<u8>::empty());
    }
    while i < len
        invariant
            i <= len,
            len == path@.len(),
            (Scan { done: rows(parts), open: cur@ }) == scan(scan_start(), path@.take(i as int)),
        decreases len - i,
    {
        let b: u8 = path[i];
        let ghost before = Scan { done: rows(parts), open: cur@ };
        proof {
            let upto = path@.take(i + 1);
            assert(upto.drop_last() =~= path@.take(i as int));
            assert(upto.last() == b);
        }
        if b == SLASH {
            if cur.len() > 0 {
                let ghost old_parts = rows(parts);
                parts.push(cur);
                proof {
                    assert(rows(parts) =~= old_parts.push(before.open));
                }
            }
            cur = Vec::new();
            proof {
                assert(cur@ =~= Seq::<u8>::empty());
            }
        } else {
            cur.push(b);
        }
        i += 1;
    }
    proof {
        assert(path@.take(len as int) =~= path@);
    }
    if cur.len() > 0 {
        let ghost old_parts = rows(parts);
        let ghost last = cur@;
        parts.push(cur);
        proof {
            assert(rows(parts) =~= old_parts.push(last));
        }
    }
    parts
}

/// Scanning a concatenation is scanning its parts one after the other.
pub proof fn lemma_scan_concat(st: Scan, a: Seq<u8>, b: Seq<u8>)
    ensures
        scan(st, a + b) == scan(scan(st, a), b),
    decreases b.len(),
{
    if b.len() == 0 {
        assert(a + b =~= a);
    } else {
        assert((a + b).drop_last() =~= a + b.drop_last());
        assert((a + b).last() == b.last());
        lemma_scan_concat(st, a, b.drop_last());
    }
}

/// A separator at the very start leaves the scan where it began.
proof fn lemma_scan_separator()
    ensures
        scan(scan_start(), seq![SLASH]) == scan_start(),
{
    let head = seq![SLASH];
    assert(head.drop_last() =~= Seq::<u8>::empty());
    assert(scan(scan_start(), head.drop_last()) == scan_start());
    assert(head.last() == SLASH);
}

/// A scan that starts on a closed component: separators at the front change
/// nothing.
proof fn lemma_scan_leading(s: Seq<u8>)
    ensures
        scan(scan_start(), strip_leading(s)) == scan(scan_start(), s),
    decreases s.len(),
{
    if s.len() > 0 && s[0] == SLASH {
        let head = seq![SLASH];
        assert(s =~= head + s.skip(1));
        lemma_scan_concat(scan_start(), head, s.skip(1));
        lemma_scan_separator();
        lemma_scan_leading(s.skip(1));
    }
}

/// Separators at the end of a path do not change its components.
proof fn lemma_components_trailing(s: Seq<u8>)
    ensures
        components(strip_trailing(s)) == components(s),
    decreases s.len(),
{
    if s.len() > 0 && s.last() == SLASH {
        lemma_components_trailing(s.drop_last());
    }
}

/// A path and its normal form have the same components.
pub proof fn lemma_normalized_components(path: Seq<u8>)
    ensures
        components(normalized(path)) == components(path),
{
    let head = seq![SLASH];
    let body = strip_trailing(strip_leading(path));
    lemma_scan_concat(scan_start(), head, body);
    lemma_scan_separator();
    lemma_components_trailing(strip_leading(path));
    lemma_scan_leading(path);
}

/// The scan keeps what `lemma_components_clean` states of the result.
proof fn lemma_scan_clean(s: Seq<u8>)
    ensures
        forall|k: int|
            0 <= k < scan(scan_start(), s).done.len() ==> (#[trigger] scan(
                scan_start(),
                s,
            ).done[k]).len() > 0 && !scan(scan_start(), s).done[k].contains(SLASH),
        !scan(scan_start(), s).open.contains(SLASH),
    decreases s.len(),
{
    if s.len() > 0 {
        lemma_scan_clean(s.drop_last());
        let before = scan(scan_start(), s.drop_last());
        let after = scan(scan_start(), s);
        if s.last() == SLASH {
            assert forall|k: int| 0 <= k < after.done.len() implies (#[trigger] after.done[k]).len()
                > 0 && !after.done[k].contains(SLASH) by {
                if k < before.done.len() {
                    assert(after.done[k] == before.done[k]);
                }
            }
        } else {
            assert forall|j: int| 0 <= j < after.open.len() implies after.open[j] != SLASH by {
                if j < before.open.len() {
                    assert(before.open.contains(before.open[j]) || before.open[j] != SLASH);
                }
            }
        }
    }
}

/// No component is empty, and none holds a separator.
pub proof fn lemma_components_clean(path: Seq<u8>)
    ensures
        forall|k: int|
            0 <= k < components(path).len() ==> (#[trigger] components(path)[k]).len() > 0
                && !components(path)[k].contains(SLASH),
{
    lemma_scan_clean(path);
    let st = scan(scan_start(), path);
    let parts = components(path);
    assert forall|k: int| 0 <= k < parts.len() implies (#[trigger] parts[k]).len() > 0
        && !parts[k].contains(SLASH) by {
        if k < st.done.len() {
            assert(parts[k] == st.done[k]);
        }
    }
}

/// A path of separators alone, the root among them, has no component.
pub proof fn lemma_root_has_no_component()
    ensures
        components(seq![SLASH]) == Seq::<Seq<u8>>::empty(),
        components(Seq::<u8>::empty()) == Seq::<Seq<u8>>::empty(),
{
    let head = seq![SLASH];
    lemma_scan_separator();
}

} // verus!
