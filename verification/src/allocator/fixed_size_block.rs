//! The size classes of small blocks.

use vstd::prelude::*;
use crate::allocator::{align_up, aligned_up, is_pow2, is_pow2_value};

verus! {

/// The number of size classes.
pub const BLOCK_CLASSES: usize = 10;

/// The block size of a class: the powers of two from 8 to 4096. Each size
/// is also the alignment of its blocks.
pub open spec fn class_size(index: int) -> int {
    if index == 0 {
        8
    } else if index == 1 {
        16
    } else if index == 2 {
        32
    } else if index == 3 {
        64
    } else if index == 4 {
        128
    } else if index == 5 {
        256
    } else if index == 6 {
        512
    } else if index == 7 {
        1024
    } else if index == 8 {
        2048
    } else {
        4096
    }
}

/// The block sizes, smallest first.
pub fn block_sizes() -> (sizes: [usize; 10])
    ensures
        forall|i: int| 0 <= i < 10 ==> #[trigger] sizes@[i] == class_size(i),
{
    [8, 16, 32, 64, 128, 256, 512, 1024, 2048, 4096]
}

/// The block that a request of `size` bytes aligned to `align` needs: the
/// larger of the two.
pub open spec fn required_block(size: usize, align: usize) -> int {
    if size >= align {
        size as int
    } else {
        align as int
    }
}

/// The class that serves a request: the first whose blocks are large
/// enough. `None` for a request that no class is large enough for.
pub fn list_index(size: usize, align: usize) -> (r: Option<usize>)
    ensures
        match r {
            Some(i) => i < BLOCK_CLASSES && class_size(i as int) >= required_block(size, align)
                && forall|j: int| 0 <= j < i ==> class_size(j) < required_block(size, align),
            None => required_block(size, align) > 4096,
        },
{
    let required: usize = if size >= align {
        size
    } else {
        align
    };
    let sizes = block_sizes();
    let mut i: usize = 0;
    while i < BLOCK_CLASSES
        invariant
            i <= BLOCK_CLASSES,
            required == required_block(size, align),
            forall|k: int| 0 <= k < 10 ==> #[trigger] sizes@[k] == class_size(k),
            forall|j: int| 0 <= j < i ==> class_size(j) < required,
        decreases BLOCK_CLASSES - i,
    {
        if sizes[i] >= required {
            return Some(i);
        }
        i += 1;
    }
    proof {
        assert(class_size(9) < required);
    }
    None
}

/// The class whose blocks have exactly the size `block_size`.
pub fn list_index_for(block_size: usize) -> (r: Option<usize>)
    ensures
        match r {
            Some(i) => i < BLOCK_CLASSES && class_size(i as int) == block_size,
            None => forall|j: int| 0 <= j < BLOCK_CLASSES ==> class_size(j) != block_size,
        },
{
    let sizes = block_sizes();
    let mut i: usize = 0;
    while i < BLOCK_CLASSES
        invariant
            i <= BLOCK_CLASSES,
            forall|k: int| 0 <= k < 10 ==> #[trigger] sizes@[k] == class_size(k),
            forall|j: int| 0 <= j < i ==> class_size(j) != block_size,
        decreases BLOCK_CLASSES - i,
    {
        if sizes[i] == block_size {
            return Some(i);
        }
        i += 1;
    }
    None
}

/// The blocks of size `block_size` that a region holds: they start at the
/// first address of the region that the block size divides and follow each
/// other as long as a whole block lies within the region.
pub open spec fn region_blocks(start: int, end: int, block_size: int, count: nat) -> Seq<u64>
    decreases count,
{
    if count == 0 {
        Seq::empty()
    } else {
        region_blocks(start, end, block_size, (count - 1) as nat).push(
            (start + (count - 1) * block_size) as u64,
        )
    }
}

/// Lists the blocks that a region adds to the free list of a size class,
/// in the order in which they are pushed. Nothing is listed for a block
/// size that is no power of two.
pub fn add_region(heap_start: u64, heap_size: u64, block_size: u64) -> (blocks: Vec<u64>)
    ensures
        !is_pow2(block_size) || heap_start + block_size - 1 > u64::MAX ==> blocks@.len() == 0,
        is_pow2(block_size) && heap_start + block_size - 1 <= u64::MAX ==> ({
            let first = aligned_up(heap_start, block_size) as int;
            let end = if heap_start + heap_size > u64::MAX {
                u64::MAX as int
            } else {
                heap_start + heap_size
            };
            &&& blocks@ == region_blocks(first, end, block_size as int, blocks@.len())
            &&& first + blocks@.len() * block_size <= end || blocks@.len() == 0
            &&& first + (blocks@.len() + 1) * block_size > end
        }),
{
    let mut blocks: Vec<u64> = Vec::new();
    if !is_pow2_value(block_size) || heap_start > u64::MAX - (block_size - 1) {
        return blocks;
    }
    let first: u64 = align_up(heap_start, block_size);
    let end: u64 = if heap_size > u64::MAX - heap_start {
        u64::MAX
    } else {
        heap_start + heap_size
    };
    let mut current: u64 = first;
    proof {
        assert(0 * block_size == 0) by (nonlinear_arith);
    }
    while current <= u64::MAX - block_size && current + block_size <= end
        invariant
            block_size > 0,
            current == first + blocks@.len() * block_size,
            current <= end || blocks@.len() == 0,
            blocks@ == region_blocks(first as int, end as int, block_size as int, blocks@.len()),
        decreases end - current,
    {
        let ghost n = blocks@.len();
        blocks.push(current);
        proof {
            assert((n + 1) * block_size == n * block_size + block_size) by (nonlinear_arith);
        }
        current = current + block_size;
    }
    proof {
        let n = blocks@.len();
        assert((n + 1) * block_size == n * block_size + block_size) by (nonlinear_arith);
    }
    blocks
}

} // verus!
