//! A first-fit allocator over a list of free regions.
//!
//! The allocator works on addresses alone. It keeps the free regions, newest
//! first, and the blocks that are handed out, so that a block is taken back
//! only if it was handed out. No two regions or blocks ever overlap.

use vstd::prelude::*;
use crate::allocator::{
    NODE_ALIGN,
    NODE_SIZE,
    align_up,
    aligned,
    aligned_up,
    is_pow2,
    lemma_aligned_below,
    lemma_aligned_sum,
    lemma_aligned_to_node,
    lemma_aligned_up,
};

verus! {

/// A region of memory: `size` bytes from `start` on. In the free list it is
/// a free region, in the list of live blocks a block that was handed out.
#[derive(Clone, Copy, Debug, PartialEq, Eq, Structural)]
pub struct ListNode {
    pub start: u64,
    pub size: u64,
}

impl ListNode {
    /// The first address behind the region.
    pub open spec fn end(self) -> int {
        self.start + self.size
    }

    /// A region that can stand in the free list: it has room for its
    /// bookkeeping, is aligned for it, and ends within the address space.
    pub open spec fn valid(self) -> bool {
        &&& self.size >= NODE_SIZE
        &&& aligned(self.start, NODE_ALIGN)
        &&& self.end() <= u64::MAX
    }

    /// The two regions share no byte.
    pub open spec fn apart_from(self, other: ListNode) -> bool {
        self.end() <= other.start || other.end() <= self.start
    }

    /// The region lies within `other`.
    pub open spec fn within(self, other: ListNode) -> bool {
        other.start <= self.start && self.end() <= other.end()
    }

    /// The region of `size` bytes at `start`.
    pub fn new(start: u64, size: u64) -> (n: ListNode)
        ensures
            n.start == start,
            n.size == size,
    {
        ListNode { start, size }
    }

    /// The first address of the region.
    pub fn start_addr(&self) -> (a: u64)
        ensures
            a == self.start,
    {
        self.start
    }

    /// The first address behind the region.
    pub fn end_addr(&self) -> (a: u64)
        requires
            self.end() <= u64::MAX,
        ensures
            a == self.end(),
    {
        self.start + self.size
    }
}

/// Where a block of `size` bytes, aligned to `align`, starts in the region:
/// at the first aligned address, if the block ends within the region and
/// what is left behind it is nothing or enough for a free region.
pub open spec fn fit(region: ListNode, size: u64, align: u64) -> Option<u64> {
    if region.start + align - 1 > u64::MAX {
        None
    } else {
        let start = aligned_up(region.start, align);
        if start + size > region.end() {
            None
        } else {
            let excess = region.end() - (start + size);
            if 0 < excess < NODE_SIZE {
                None
            } else {
                Some(start)
            }
        }
    }
}

/// No region before position `i` fits, the one at `i` does.
pub open spec fn first_fit_at(free: Seq<ListNode>, size: u64, align: u64, i: int) -> bool {
    &&& 0 <= i < free.len()
    &&& fit(free[i], size, align) is Some
    &&& forall|j: int| 0 <= j < i ==> fit(#[trigger] free[j], size, align) is None
}

/// No region fits.
pub open spec fn none_fits(free: Seq<ListNode>, size: u64, align: u64) -> bool {
    forall|j: int| 0 <= j < free.len() ==> fit(#[trigger] free[j], size, align) is None
}

/// The size and alignment that a request is served with: the alignment at
/// least that of a free region, the size padded to the alignment and at
/// least that of a free region, so that the block can return to the free
/// list. `None` where the padded size is no 64-bit number.
pub open spec fn adjusted(size: u64, align: u64) -> Option<(u64, u64)> {
    let a = if align < NODE_ALIGN {
        NODE_ALIGN
    } else {
        align
    };
    if size + a - 1 > u64::MAX {
        None
    } else {
        let padded = aligned_up(size, a);
        Some(
            (
                if padded < NODE_SIZE {
                    NODE_SIZE
                } else {
                    padded
                },
                a,
            ),
        )
    }
}

/// The size of the block that serves a request, 0 where none can.
pub open spec fn block_size(size: u64, align: u64) -> u64 {
    match adjusted(size, align) {
        Some(pair) => {
            let (s, a) = pair;
            s
        },
        None => 0,
    }
}

/// The regions of the sequence are apart from each other.
pub open spec fn no_overlap(s: Seq<ListNode>) -> bool {
    forall|i: int, j: int|
        0 <= i < s.len() && 0 <= j < s.len() && i != j ==> (#[trigger] s[i]).apart_from(
            #[trigger] s[j],
        )
}

/// Each region of the one sequence is apart from each of the other.
pub open spec fn all_apart(a: Seq<ListNode>, b: Seq<ListNode>) -> bool {
    forall|i: int, j: int|
        0 <= i < a.len() && 0 <= j < b.len() ==> (#[trigger] a[i]).apart_from(#[trigger] b[j])
}

/// Each region of the sequence is valid.
pub open spec fn all_valid(s: Seq<ListNode>) -> bool {
    forall|i: int| 0 <= i < s.len() ==> (#[trigger] s[i]).valid()
}

/// The allocator: the free regions, newest first, and the live blocks.
pub struct LinkedListAllocator {
    pub free: Vec<ListNode>,
    pub live: Vec<ListNode>,
}

impl LinkedListAllocator {
    /// The invariant: every region and block is valid, and no two of them
    /// overlap.
    pub open spec fn wf(&self) -> bool {
        &&& all_valid(self.free@)
        &&& all_valid(self.live@)
        &&& no_overlap(self.free@)
        &&& no_overlap(self.live@)
        &&& all_apart(self.free@, self.live@)
    }

    /// An allocator without memory; `init` gives it some.
    pub fn new() -> (a: LinkedListAllocator)
        ensures
            a.wf(),
            a.free@.len() == 0,
            a.live@.len() == 0,
    {
        LinkedListAllocator { free: Vec::new(), live: Vec::new() }
    }

    /// The region can join the free list: it is valid and apart from
    /// everything the allocator knows.
    pub open spec fn can_add(&self, region: ListNode) -> bool {
        &&& region.valid()
        &&& forall|i: int| 0 <= i < self.free@.len() ==> region.apart_from(#[trigger] self.free@[i])
        &&& forall|i: int| 0 <= i < self.live@.len() ==> region.apart_from(#[trigger] self.live@[i])
    }

    /// Puts a region at the front of the free list.
    pub fn add_free_region(&mut self, addr: u64, size: u64)
        requires
            old(self).wf(),
            old(self).can_add(ListNode { start: addr, size }),
        ensures
            final(self).wf(),
            final(self).free@ == old(self).free@.insert(0, ListNode { start: addr, size }),
            final(self).live@ == old(self).live@,
    {
        let node = ListNode::new(addr, size);
        self.free.insert(0, node);
        proof {
            let after = self.free@;
            let before = old(self).free@;
            assert(after.len() == before.len() + 1);
            assert(after[0] == node);
            assert forall|i: int| 1 <= i < after.len() implies #[trigger] after[i] == before[i
                - 1] by {}
            assert(all_valid(after)) by {
                assert forall|i: int| 0 <= i < after.len() implies (#[trigger] after[i]).valid() by {
                    if i > 0 {
                        assert(after[i] == before[i - 1]);
                    }
                }
            }
            assert(no_overlap(after)) by {
                assert forall|i: int, j: int|
                    0 <= i < after.len() && 0 <= j < after.len() && i != j implies (
                #[trigger] after[i]).apart_from(#[trigger] after[j]) by {
                    if i > 0 {
                        assert(after[i] == before[i - 1]);
                    }
                    if j > 0 {
                        assert(after[j] == before[j - 1]);
                    }
                }
            }
            assert(all_apart(after, self.live@)) by {
                assert forall|i: int, j: int|
                    0 <= i < after.len() && 0 <= j < self.live@.len() implies (
                #[trigger] after[i]).apart_from(#[trigger] self.live@[j]) by {
                    if i > 0 {
                        assert(after[i] == before[i - 1]);
                    }
                }
            }
        }
    }

    /// Gives the allocator the heap of `heap_size` bytes at `heap_start`.
    /// Refused, with `false` and nothing changed, where the heap is no
    /// valid region or overlaps what the allocator has.
    pub fn init(&mut self, heap_start: u64, heap_size: u64) -> (ok: bool)
        requires
            old(self).wf(),
        ensures
            final(self).wf(),
            ok == old(self).can_add(ListNode { start: heap_start, size: heap_size }),
            ok ==> final(self).free@ == old(self).free@.insert(
                0,
                ListNode { start: heap_start, size: heap_size },
            ) && final(self).live@ == old(self).live@,
            !ok ==> final(self).free@ == old(self).free@ && final(self).live@ == old(self).live@,
    {
        let region = ListNode::new(heap_start, heap_size);
        if heap_size < NODE_SIZE || heap_start & (NODE_ALIGN - 1) != 0 || heap_size > u64::MAX
            - heap_start {
            return false;
        }
        if !clear_of(&self.free, region) || !clear_of(&self.live, region) {
            return false;
        }
        self.add_free_region(heap_start, heap_size);
        true
    }

    /// Tells whether a region can serve a block of `size` bytes aligned to
    /// `align`, and where the block would start.
    pub fn alloc_from_region(region: &ListNode, size: u64, align: u64) -> (r: Result<u64, ()>)
        requires
            region.valid(),
            is_pow2(align),
        ensures
            match fit(*region, size, align) {
                Some(start) => r == Ok::<u64, ()>(start),
                None => r is Err,
            },
    {
        if region.start > u64::MAX - (align - 1) {
            return Err(());
        }
        let alloc_start = align_up(region.start, align);
        if size > u64::MAX - alloc_start {
            return Err(());
        }
        let alloc_end = alloc_start + size;
        if alloc_end > region.end_addr() {
            return Err(());
        }
        let excess_size = region.end_addr() - alloc_end;
        if excess_size > 0 && excess_size < NODE_SIZE {
            return Err(());
        }
        Ok(alloc_start)
    }

    /// Takes the first free region that fits out of the free list, and
    /// returns it with the address at which the block starts in it.
    pub fn find_region(&mut self, size: u64, align: u64) -> (r: Option<(ListNode, u64)>)
        requires
            old(self).wf(),
            is_pow2(align),
        ensures
            final(self).live@ == old(self).live@,
            match r {
                Some((region, start)) => exists|i: int|
                    first_fit_at(old(self).free@, size, align, i) && region == old(self).free@[i]
                        && fit(region, size, align) == Some(start) && final(self).free@ == old(
                        self,
                    ).free@.remove(i),
                None => none_fits(old(self).free@, size, align) && final(self).free@ == old(
                    self,
                ).free@,
            },
    {
        let mut i: usize = 0;
        while i < self.free.len()
            invariant
                i <= self.free@.len(),
                self.free@ == old(self).free@,
                self.live@ == old(self).live@,
                self.wf(),
                is_pow2(align),
                forall|j: int| 0 <= j < i ==> fit(#[trigger] self.free@[j], size, align) is None,
            decreases self.free@.len() - i,
        {
            let region = self.free[i];
            match Self::alloc_from_region(&region, size, align) {
                Ok(start) => {
                    proof {
                        assert(first_fit_at(old(self).free@, size, align, i as int));
                    }
                    let _ = self.free.remove(i);
                    return Some((region, start));
                },
                Err(_) => {},
            }
            i += 1;
        }
        None
    }

    /// Adjusts a request so that the block can return to the free list.
    pub fn size_align(size: u64, align: u64) -> (r: Option<(u64, u64)>)
        requires
            is_pow2(align),
        ensures
            r == adjusted(size, align),
            r matches Some((s, a)) ==> is_pow2(a) && a >= NODE_ALIGN && s >= NODE_SIZE && s >= size
                && aligned(s, NODE_ALIGN),
    {
        let a: u64 = if align < NODE_ALIGN {
            NODE_ALIGN
        } else {
            align
        };
        proof {
            assert(is_pow2(8)) by (bit_vector);
            assert(aligned(16, 8)) by (bit_vector);
        }
        if size > u64::MAX - (a - 1) {
            return None;
        }
        let padded = align_up(size, a);
        proof {
            lemma_aligned_to_node(padded, a);
        }
        let s: u64 = if padded < NODE_SIZE {
            NODE_SIZE
        } else {
            padded
        };
        Some((s, a))
    }

    /// What `allocate` returns for a request, by the free list: the start
    /// of the block in the first region that fits the adjusted request.
    pub open spec fn served(free: Seq<ListNode>, size: u64, align: u64) -> Option<u64> {
        match adjusted(size, align) {
            None => None,
            Some((s, a)) => if none_fits(free, s, a) {
                None
            } else {
                let i = choose|i: int| first_fit_at(free, s, a, i);
                fit(free[i], s, a)
            },
        }
    }

    /// Hands out a block of at least `size` bytes, aligned to `align`, from
    /// the first free region that fits. What is left of the region behind
    /// the block goes back to the front of the free list. `None` when no
    /// region fits.
    pub fn allocate(&mut self, size: u64, align: u64) -> (r: Option<u64>)
        requires
            old(self).wf(),
            is_pow2(align),
        ensures
            final(self).wf(),
            r == Self::served(old(self).free@, size, align),
            r is None ==> final(self).free@ == old(self).free@ && final(self).live@ == old(
                self,
            ).live@,
            r matches Some(start) ==> {
                let block = ListNode { start, size: block_size(size, align) };
                &&& aligned(start, align)
                &&& final(self).live@ == old(self).live@.push(block)
                &&& exists|i: int|
                    0 <= i < old(self).free@.len() && block.within(#[trigger] old(self).free@[i])
            },
    {
        let (s, a) = match Self::size_align(size, align) {
            Some(pair) => pair,
            None => {
                return None;
            },
        };
        match self.find_region(s, a) {
            None => None,
            Some((region, start)) => {
                let ghost i = choose|i: int|
                    first_fit_at(old(self).free@, s, a, i) && region == old(self).free@[i]
                        && self.free@ == old(self).free@.remove(i);
                let ghost before = old(self).free@;
                proof {
                    lemma_first_fit_unique(before, s, a, i, choose|k: int| first_fit_at(before, s, a, k));
                    lemma_aligned_up(region.start, a);
                    lemma_aligned_to_node(start, a);
                    if align >= NODE_ALIGN {
                        assert(a == align);
                    } else {
                        lemma_aligned_below(start, align);
                    }
                    assert(self.free@.len() == before.len() - 1);
                    assert forall|j: int| 0 <= j < self.free@.len() implies #[trigger] self.free@[j]
                        == before[if j < i {
                        j
                    } else {
                        j + 1
                    }] by {}
                }
                let block = ListNode::new(start, s);
                let alloc_end: u64 = start + s;
                let excess_size: u64 = region.end_addr() - alloc_end;
                proof {
                    assert(block.within(region));
                    assert(block.valid());
                    assert forall|j: int| 0 <= j < self.free@.len() implies block.apart_from(
                        #[trigger] self.free@[j],
                    ) by {
                        let k = if j < i {
                            j
                        } else {
                            j + 1
                        };
                        assert(self.free@[j] == before[k]);
                        assert(before[i].apart_from(before[k]));
                    }
                    assert forall|j: int| 0 <= j < self.live@.len() implies block.apart_from(
                        #[trigger] self.live@[j],
                    ) by {
                        assert(before[i].apart_from(self.live@[j]));
                    }
                    assert(all_valid(self.free@)) by {
                        assert forall|j: int| 0 <= j < self.free@.len() implies (
                        #[trigger] self.free@[j]).valid() by {
                            let k = if j < i {
                                j
                            } else {
                                j + 1
                            };
                            assert(self.free@[j] == before[k]);
                        }
                    }
                    assert(no_overlap(self.free@)) by {
                        assert forall|x: int, y: int|
                            0 <= x < self.free@.len() && 0 <= y < self.free@.len() && x
                                != y implies (#[trigger] self.free@[x]).apart_from(
                            #[trigger] self.free@[y],
                        ) by {
                            let kx = if x < i {
                                x
                            } else {
                                x + 1
                            };
                            let ky = if y < i {
                                y
                            } else {
                                y + 1
                            };
                            assert(self.free@[x] == before[kx]);
                            assert(self.free@[y] == before[ky]);
                            assert(before[kx].apart_from(before[ky]));
                        }
                    }
                    assert(all_apart(self.free@, self.live@)) by {
                        assert forall|x: int, y: int|
                            0 <= x < self.free@.len() && 0 <= y < self.live@.len() implies (
                        #[trigger] self.free@[x]).apart_from(#[trigger] self.live@[y]) by {
                            let kx = if x < i {
                                x
                            } else {
                                x + 1
                            };
                            assert(self.free@[x] == before[kx]);
                            assert(before[kx].apart_from(self.live@[y]));
                        }
                    }
                }
                let ghost live_before = self.live@;
                self.live.push(block);
                proof {
                    assert(all_valid(self.live@)) by {
                        assert forall|j: int| 0 <= j < self.live@.len() implies (
                        #[trigger] self.live@[j]).valid() by {
                            if j < live_before.len() {
                                assert(self.live@[j] == live_before[j]);
                            }
                        }
                    }
                    assert(no_overlap(self.live@)) by {
                        assert forall|x: int, y: int|
                            0 <= x < self.live@.len() && 0 <= y < self.live@.len() && x
                                != y implies (#[trigger] self.live@[x]).apart_from(
                            #[trigger] self.live@[y],
                        ) by {
                            if x < live_before.len() {
                                assert(self.live@[x] == live_before[x]);
                            }
                            if y < live_before.len() {
                                assert(self.live@[y] == live_before[y]);
                            }
                        }
                    }
                    assert(all_apart(self.free@, self.live@)) by {
                        assert forall|x: int, y: int|
                            0 <= x < self.free@.len() && 0 <= y < self.live@.len() implies (
                        #[trigger] self.free@[x]).apart_from(#[trigger] self.live@[y]) by {
                            if y < live_before.len() {
                                assert(self.live@[y] == live_before[y]);
                            }
                        }
                    }
                }
                if excess_size > 0 {
                    let ghost rest = ListNode { start: alloc_end, size: excess_size };
                    proof {
                        lemma_aligned_sum(start, s);
                        assert(rest.within(region));
                        assert(rest.apart_from(block));
                        assert forall|j: int| 0 <= j < self.free@.len() implies rest.apart_from(
                            #[trigger] self.free@[j],
                        ) by {
                            let k = if j < i {
                                j
                            } else {
                                j + 1
                            };
                            assert(self.free@[j] == before[k]);
                            assert(before[i].apart_from(before[k]));
                        }
                        assert forall|j: int| 0 <= j < self.live@.len() implies rest.apart_from(
                            #[trigger] self.live@[j],
                        ) by {
                            if j < live_before.len() {
                                assert(self.live@[j] == live_before[j]);
                                assert(before[i].apart_from(live_before[j]));
                            }
                        }
                    }
                    self.add_free_region(alloc_end, excess_size);
                }
                Some(start)
            },
        }
    }

    /// Takes back the block at `ptr` that was handed out for a request of
    /// `size` bytes aligned to `align`, and puts it at the front of the free
    /// list. Refused, with `false` and nothing changed, where no such block
    /// is live.
    pub fn deallocate(&mut self, ptr: u64, size: u64, align: u64) -> (ok: bool)
        requires
            old(self).wf(),
            is_pow2(align),
        ensures
            final(self).wf(),
            ok == (adjusted(size, align) is Some && old(self).live@.contains(
                ListNode { start: ptr, size: block_size(size, align) },
            )),
            !ok ==> final(self).free@ == old(self).free@ && final(self).live@ == old(self).live@,
            ok ==> final(self).free@ == old(self).free@.insert(
                0,
                ListNode { start: ptr, size: block_size(size, align) },
            ) && exists|j: int|
                0 <= j < old(self).live@.len() && old(self).live@[j] == (ListNode {
                    start: ptr,
                    size: block_size(size, align),
                }) && final(self).live@ == old(self).live@.remove(j),
    {
        let (s, _) = match Self::size_align(size, align) {
            Some(pair) => pair,
            None => {
                return false;
            },
        };
        let block = ListNode::new(ptr, s);
        let mut j: usize = 0;
        while j < self.live.len()
            invariant
                j <= self.live@.len(),
                self.free@ == old(self).free@,
                self.live@ == old(self).live@,
                self.wf(),
                block == (ListNode { start: ptr, size: s }),
                adjusted(size, align) is Some,
                s == block_size(size, align),
                forall|x: int| 0 <= x < j ==> #[trigger] self.live@[x] != block,
            decreases self.live@.len() - j,
        {
            let cur = self.live[j];
            if cur.start == ptr && cur.size == s {
                let ghost before = self.live@;
                let _ = self.live.remove(j);
                proof {
                    assert(before.contains(block));
                    assert(self.live@.len() == before.len() - 1);
                    assert forall|x: int| 0 <= x < self.live@.len() implies #[trigger] self.live@[x]
                        == before[if x < j {
                        x
                    } else {
                        x + 1
                    }] by {}
                    assert(all_valid(self.live@)) by {
                        assert forall|x: int| 0 <= x < self.live@.len() implies (
                        #[trigger] self.live@[x]).valid() by {
                            let k = if x < j {
                                x
                            } else {
                                x + 1
                            };
                            assert(self.live@[x] == before[k]);
                        }
                    }
                    assert(no_overlap(self.live@)) by {
                        assert forall|x: int, y: int|
                            0 <= x < self.live@.len() && 0 <= y < self.live@.len() && x
                                != y implies (#[trigger] self.live@[x]).apart_from(
                            #[trigger] self.live@[y],
                        ) by {
                            let kx = if x < j {
                                x
                            } else {
                                x + 1
                            };
                            let ky = if y < j {
                                y
                            } else {
                                y + 1
                            };
                            assert(self.live@[x] == before[kx]);
                            assert(self.live@[y] == before[ky]);
                            assert(before[kx].apart_from(before[ky]));
                        }
                    }
                    assert(all_apart(self.free@, self.live@)) by {
                        assert forall|x: int, y: int|
                            0 <= x < self.free@.len() && 0 <= y < self.live@.len() implies (
                        #[trigger] self.free@[x]).apart_from(#[trigger] self.live@[y]) by {
                            let ky = if y < j {
                                y
                            } else {
                                y + 1
                            };
                            assert(self.live@[y] == before[ky]);
                            assert(self.free@[x].apart_from(before[ky]));
                        }
                    }
                    assert(block == before[j as int]);
                    assert forall|x: int| 0 <= x < self.free@.len() implies block.apart_from(
                        #[trigger] self.free@[x],
                    ) by {
                        assert(self.free@[x].apart_from(before[j as int]));
                    }
                    assert forall|x: int| 0 <= x < self.live@.len() implies block.apart_from(
                        #[trigger] self.live@[x],
                    ) by {
                        let k = if x < j {
                            x
                        } else {
                            x + 1
                        };
                        assert(self.live@[x] == before[k]);
                        assert(before[j as int].apart_from(before[k]));
                    }
                }
                self.add_free_region(ptr, s);
                return true;
            }
            j += 1;
        }
        proof {
            if self.live@.contains(block) {
                let x = choose|x: int| 0 <= x < self.live@.len() && self.live@[x] == block;
                assert(self.live@[x] != block);
            }
        }
        false
    }
}

/// Tells whether `region` is apart from every region of the list.
fn clear_of(list: &Vec<ListNode>, region: ListNode) -> (ok: bool)
    requires
        all_valid(list@),
        region.end() <= u64::MAX,
    ensures
        ok == forall|i: int| 0 <= i < list@.len() ==> region.apart_from(#[trigger] list@[i]),
{
    let end: u64 = region.start + region.size;
    let mut i: usize = 0;
    while i < list.len()
        invariant
            i <= list@.len(),
            all_valid(list@),
            end == region.end(),
            forall|j: int| 0 <= j < i ==> region.apart_from(#[trigger] list@[j]),
        decreases list@.len() - i,
    {
        let other = list[i];
        assert(other.valid());
        let other_end: u64 = other.start + other.size;
        if !(end <= other.start || other_end <= region.start) {
            proof {
                assert(!region.apart_from(list@[i as int]));
            }
            return false;
        }
        i += 1;
    }
    true
}

/// The first region that fits is decided by the free list.
pub proof fn lemma_first_fit_unique(free: Seq<ListNode>, size: u64, align: u64, a: int, b: int)
    requires
        first_fit_at(free, size, align, a),
        first_fit_at(free, size, align, b),
    ensures
        a == b,
{
    if a < b {
        assert(fit(free[a], size, align) is None);
    } else if b < a {
        assert(fit(free[b], size, align) is None);
    }
}

} // verus!
