//! The heap: alignment arithmetic, the size classes of small blocks, and
//! the first-fit allocator that `alloc` and `free` hand out of.

pub mod fixed_size_block;
pub mod linked_list;

use vstd::prelude::*;

verus! {

/// The room that a free region needs for its own bookkeeping: no region is
/// smaller.
pub const NODE_SIZE: u64 = 16;

/// The alignment of every free region.
pub const NODE_ALIGN: u64 = 8;

/// `align` is a power of two.
pub open spec fn is_pow2(align: u64) -> bool {
    align != 0 && align & ((align - 1) as u64) == 0
}

/// `addr` is a multiple of the power of two `align`.
pub open spec fn aligned(addr: u64, align: u64) -> bool {
    addr & ((align - 1) as u64) == 0
}

/// `addr` rounded up to the power of two `align`.
pub open spec fn aligned_up(addr: u64, align: u64) -> u64 {
    ((addr + align - 1) as u64) & !((align - 1) as u64)
}

/// Rounding up gives an aligned address, not below the given one and less
/// than `align` above it.
pub proof fn lemma_aligned_up(addr: u64, align: u64)
    by (bit_vector)
    requires
        align != 0 && align & ((align - 1) as u64) == 0,
        addr + align - 1 <= 0xffff_ffff_ffff_ffffu64,
    ensures
        (((addr + align - 1) as u64) & !((align - 1) as u64)) & ((align - 1) as u64) == 0,
        ((addr + align - 1) as u64) & !((align - 1) as u64) >= addr,
        (((addr + align - 1) as u64) & !((align - 1) as u64)) - addr < align,
{
}

/// Rounding up gives the least aligned address that is not below the given
/// one.
pub proof fn lemma_aligned_up_least(addr: u64, align: u64, other: u64)
    by (bit_vector)
    requires
        align != 0 && align & ((align - 1) as u64) == 0,
        addr + align - 1 <= 0xffff_ffff_ffff_ffffu64,
        other & ((align - 1) as u64) == 0,
        other >= addr,
    ensures
        other >= ((addr + align - 1) as u64) & !((align - 1) as u64),
{
}

/// What is aligned to a power of two from 8 on is aligned to 8.
pub proof fn lemma_aligned_to_node(addr: u64, align: u64)
    by (bit_vector)
    requires
        align != 0 && align & ((align - 1) as u64) == 0,
        align >= 8,
        addr & ((align - 1) as u64) == 0,
    ensures
        addr & 7 == 0,
{
}

/// The sum of two multiples of 8 is a multiple of 8.
pub proof fn lemma_aligned_sum(a: u64, b: u64)
    by (bit_vector)
    requires
        a & 7 == 0,
        b & 7 == 0,
        a + b <= 0xffff_ffff_ffff_ffffu64,
    ensures
        ((a + b) as u64) & 7 == 0,
{
}

/// Tells whether `align` is a power of two.
pub fn is_pow2_value(align: u64) -> (b: bool)
    ensures
        b == is_pow2(align),
{
    align != 0 && align & (align - 1) == 0
}

/// Aligns `addr` up to `align`, a power of two.
pub fn align_up(addr: u64, align: u64) -> (r: u64)
    requires
        is_pow2(align),
        addr + align - 1 <= u64::MAX,
    ensures
        r == aligned_up(addr, align),
        aligned(r, align),
        addr <= r < addr + align,
{
    proof {
        lemma_aligned_up(addr, align);
    }
    (addr + (align - 1)) & !(align - 1)
}

/// What is aligned to 8 is aligned to each smaller power of two.
pub proof fn lemma_aligned_below(addr: u64, align: u64)
    by (bit_vector)
    requires
        align != 0 && align & ((align - 1) as u64) == 0,
        align < 8,
        addr & 7 == 0,
    ensures
        addr & ((align - 1) as u64) == 0,
{
}

} // verus!
