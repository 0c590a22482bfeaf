//! Physical frames: the bitmap that records which are in use, and the
//! allocators that hand them out during boot.
//!
//! A frame is known by its start address, a multiple of `FRAME_SIZE`.

use vstd::prelude::*;

verus! {

/// The size of a frame in bytes.
pub const FRAME_SIZE: u64 = 4096;

/// The bytes of the bitmap: one bit for each frame of the first gigabyte.
pub const BITMAP_BYTES: usize = 32768;

/// The frames that lie below this address are never handed out.
pub const LOW_MEMORY_END: u64 = 0x10000;

/// How many frames the early allocator holds at most.
pub const PRE_HEAP_FRAMES: usize = 512;

/// The frame that holds an address.
pub open spec fn frame_of(addr: u64) -> u64 {
    (addr - addr % FRAME_SIZE) as u64
}

/// The start address of the frame that holds `addr`.
pub fn frame_containing(addr: u64) -> (frame: u64)
    ensures
        frame == frame_of(addr),
        frame % FRAME_SIZE == 0,
        frame <= addr < frame + FRAME_SIZE,
{
    addr - addr % FRAME_SIZE
}

/// Bit `bit` of `byte` is set.
pub open spec fn bit_set(byte: u8, bit: u8) -> bool {
    byte & (1u8 << bit) != 0
}

/// Setting a bit sets that bit and changes no other.
proof fn lemma_set_bit(byte: u8, bit: u8, other: u8)
    by (bit_vector)
    requires
        bit < 8,
        other < 8,
    ensures
        ((byte | (1u8 << bit)) & (1u8 << other) != 0) == ((byte & (1u8 << other) != 0) || other
            == bit),
{
}

/// No bit of 0 is set.
proof fn lemma_zero_bits(bit: u8)
    by (bit_vector)
    requires
        bit < 8,
    ensures
        0u8 & (1u8 << bit) == 0,
{
}

/// A frame allocator that has no frame to give.
pub struct EmptyFrameAllocator;

impl EmptyFrameAllocator {
    /// Gives no frame.
    pub fn allocate_frame(&mut self) -> (r: Option<u64>)
        ensures
            r is None,
    {
        None
    }
}

/// The bitmap of the frames in use: bit `n % 8` of byte `n / 8` stands for
/// frame number `n`, the frame at address `n * FRAME_SIZE`. The frames that
/// can be handed out are the `frame_count` frames from `base_address` on.
pub struct FrameBitmap {
    pub bits: Vec<u8>,
    pub base_address: u64,
    pub frame_count: usize,
}

impl FrameBitmap {
    /// The bitmap has its full size, and the frames that can be handed out
    /// lie within the address space.
    pub open spec fn wf(&self) -> bool {
        &&& self.bits@.len() == BITMAP_BYTES
        &&& self.base_address + self.frame_count * FRAME_SIZE <= u64::MAX
    }

    /// The frame with number `n` is recorded as in use.
    pub open spec fn used(&self, n: int) -> bool {
        0 <= n < 8 * self.bits@.len() && bit_set(self.bits@[n / 8], (n % 8) as u8)
    }

    /// The number of the frame at an address.
    pub open spec fn number(frame: u64) -> int {
        frame as int / FRAME_SIZE as int
    }

    /// The `i`-th frame that can be handed out.
    pub open spec fn candidate(&self, i: int) -> u64 {
        (self.base_address + i * FRAME_SIZE) as u64
    }

    /// The `i`-th frame that can be handed out is recorded as in use.
    pub open spec fn candidate_used(&self, i: int) -> bool {
        self.used(Self::number(self.candidate(i)))
    }

    /// A bitmap in which no frame is in use, for the gigabyte of frames
    /// from 1 MiB on.
    pub fn new() -> (b: FrameBitmap)
        ensures
            b.wf(),
            b.base_address == 0x100000,
            b.frame_count == 262_144,
            forall|n: int| !b.used(n),
    {
        let mut bits: Vec<u8> = Vec::new();
        let mut i: usize = 0;
        while i < BITMAP_BYTES
            invariant
                i <= BITMAP_BYTES,
                bits@.len() == i,
                forall|j: int| 0 <= j < i ==> bits@[j] == 0,
            decreases BITMAP_BYTES - i,
        {
            bits.push(0u8);
            i += 1;
        }
        let b = FrameBitmap { bits, base_address: 0x100000, frame_count: 262_144 };
        proof {
            assert forall|n: int| !b.used(n) by {
                if 0 <= n < 8 * b.bits@.len() {
                    lemma_zero_bits((n % 8) as u8);
                }
            }
        }
        b
    }

    /// Tells whether a frame is recorded as in use. A frame that the bitmap
    /// has no bit for is not.
    pub fn contains(&self, frame: u64) -> (b: bool)
        requires
            self.wf(),
        ensures
            b == self.used(Self::number(frame)),
    {
        let index: u64 = frame / FRAME_SIZE;
        let byte: u64 = index / 8;
        let bit: u8 = (index % 8) as u8;
        if byte >= self.bits.len() as u64 {
            return false;
        }
        self.bits[byte as usize] & (1u8 << bit) != 0
    }

    /// Tells whether a frame that the bitmap has a bit for is recorded as in
    /// use.
    pub fn is_used(&self, frame: u64) -> (b: bool)
        requires
            self.wf(),
            Self::number(frame) < 8 * BITMAP_BYTES,
        ensures
            b == self.used(Self::number(frame)),
    {
        let index: u64 = frame / FRAME_SIZE;
        let byte: usize = (index / 8) as usize;
        let bit: u8 = (index % 8) as u8;
        self.bits[byte] & (1u8 << bit) != 0
    }

    /// Records a frame as in use. Returns `false`, with nothing changed,
    /// for a frame that the bitmap has no bit for.
    pub fn mark_used(&mut self, frame: u64) -> (ok: bool)
        requires
            old(self).wf(),
        ensures
            final(self).wf(),
            final(self).base_address == old(self).base_address,
            final(self).frame_count == old(self).frame_count,
            ok == (Self::number(frame) < 8 * BITMAP_BYTES),
            forall|n: int|
                final(self).used(n) == (old(self).used(n) || (ok && n == Self::number(frame))),
    {
        let index: u64 = frame / FRAME_SIZE;
        let byte: u64 = index / 8;
        let bit: u8 = (index % 8) as u8;
        if byte >= self.bits.len() as u64 {
            return false;
        }
        let before: u8 = self.bits[byte as usize];
        self.bits[byte as usize] = before | (1u8 << bit);
        proof {
            assert forall|n: int|
                self.used(n) == (old(self).used(n) || n == Self::number(frame)) by {
                if 0 <= n < 8 * self.bits@.len() {
                    if n / 8 == byte {
                        lemma_set_bit(before, bit, (n % 8) as u8);
                    }
                }
            }
        }
        true
    }

    /// The frames that can be handed out, lowest first.
    pub fn all_frames(&self) -> (frames: Vec<u64>)
        requires
            self.wf(),
        ensures
            frames@.len() == self.frame_count,
            forall|i: int| 0 <= i < self.frame_count ==> #[trigger] frames@[i] == self.candidate(i),
    {
        let mut frames: Vec<u64> = Vec::new();
        let mut i: usize = 0;
        while i < self.frame_count
            invariant
                i <= self.frame_count,
                self.wf(),
                frames@.len() == i,
                forall|j: int| 0 <= j < i ==> #[trigger] frames@[j] == self.candidate(j),
            decreases self.frame_count - i,
        {
            frames.push(self.frame_at(i));
            i += 1;
        }
        frames
    }

    /// The frames among the first `n` frame numbers that are recorded as in
    /// use, lowest first.
    pub open spec fn used_below(&self, n: nat) -> Seq<u64>
        decreases n,
    {
        if n == 0 {
            Seq::empty()
        } else if self.used(n - 1) {
            self.used_below((n - 1) as nat).push(((n - 1) * FRAME_SIZE) as u64)
        } else {
            self.used_below((n - 1) as nat)
        }
    }

    /// The frames that are recorded as in use, lowest first.
    pub fn iter_used_frames(&self) -> (frames: Vec<u64>)
        requires
            self.wf(),
        ensures
            frames@ == self.used_below((8 * BITMAP_BYTES) as nat),
    {
        let mut frames: Vec<u64> = Vec::new();
        let mut byte: usize = 0;
        while byte < BITMAP_BYTES
            invariant
                byte <= BITMAP_BYTES,
                self.wf(),
                frames@ == self.used_below((8 * byte) as nat),
            decreases BITMAP_BYTES - byte,
        {
            let mut bit: u8 = 0;
            while bit < 8
                invariant
                    byte < BITMAP_BYTES,
                    bit <= 8,
                    self.wf(),
                    frames@ == self.used_below((8 * byte + bit) as nat),
                decreases 8 - bit,
            {
                let number: usize = byte * 8 + bit as usize;
                proof {
                    assert(number / 8 == byte && number % 8 == bit);
                }
                if self.bits[byte] & (1u8 << bit) != 0 {
                    frames.push((number as u64) * FRAME_SIZE);
                }
                bit += 1;
            }
            byte += 1;
        }
        frames
    }

    /// The address of the `i`-th frame that can be handed out.
    pub fn frame_at(&self, i: usize) -> (frame: u64)
        requires
            self.wf(),
            i < self.frame_count,
        ensures
            frame == self.candidate(i as int),
            frame == self.base_address + i * FRAME_SIZE,
    {
        assert(i * FRAME_SIZE <= self.frame_count * FRAME_SIZE) by (nonlinear_arith)
            requires
                i < self.frame_count,
        ;
        self.base_address + (i as u64) * FRAME_SIZE
    }
}

/// The first frame that can be handed out and is not in use.
pub fn find_unused_frame(allocator: &FrameBitmap) -> (r: Option<u64>)
    requires
        allocator.wf(),
    ensures
        match r {
            Some(frame) => exists|i: int|
                0 <= i < allocator.frame_count && frame == allocator.candidate(i)
                    && !#[trigger] allocator.candidate_used(i) && forall|j: int|
                    0 <= j < i ==> #[trigger] allocator.candidate_used(j),
            None => forall|j: int|
                0 <= j < allocator.frame_count ==> #[trigger] allocator.candidate_used(j),
        },
{
    let mut i: usize = 0;
    while i < allocator.frame_count
        invariant
            i <= allocator.frame_count,
            allocator.wf(),
            forall|j: int| 0 <= j < i ==> #[trigger] allocator.candidate_used(j),
        decreases allocator.frame_count - i,
    {
        let frame = allocator.frame_at(i);
        if !allocator.contains(frame) {
            proof {
                assert(!allocator.candidate_used(i as int));
            }
            return Some(frame);
        }
        i += 1;
    }
    None
}

/// The allocator of early boot: a fixed table of frames, handed out in the
/// order of the table.
pub struct PreHeapAllocator {
    pub frames: Vec<Option<u64>>,
    pub next: usize,
}

impl PreHeapAllocator {
    /// The position of the first frame from `from` on, or the length of the
    /// table where none is left.
    pub open spec fn first_frame(frames: Seq<Option<u64>>, from: int) -> int
        decreases frames.len() - from,
    {
        if from >= frames.len() {
            frames.len() as int
        } else if frames[from] is Some {
            from
        } else {
            Self::first_frame(frames, from + 1)
        }
    }

    /// Hands out the next frame of the table and clears its slot. Empty
    /// slots are passed over.
    pub fn allocate_frame(&mut self) -> (r: Option<u64>)
        requires
            old(self).next <= old(self).frames@.len(),
        ensures
            final(self).next <= final(self).frames@.len(),
            ({
                let at = Self::first_frame(old(self).frames@, old(self).next as int);
                if at < old(self).frames@.len() {
                    r == old(self).frames@[at] && final(self).next == at + 1 && final(self).frames@
                        == old(self).frames@.update(at, None)
                } else {
                    r is None && final(self).next == old(self).frames@.len() && final(self).frames@
                        == old(self).frames@
                }
            }),
    {
        while self.next < self.frames.len()
            invariant
                self.next <= self.frames@.len(),
                self.frames@ == old(self).frames@,
                old(self).next <= self.next,
                Self::first_frame(old(self).frames@, old(self).next as int) == Self::first_frame(
                    self.frames@,
                    self.next as int,
                ),
            decreases self.frames@.len() - self.next,
        {
            let at: usize = self.next;
            match self.frames[at] {
                Some(frame) => {
                    self.frames[at] = None;
                    self.next = at + 1;
                    return Some(frame);
                },
                None => {},
            }
            self.next = at + 1;
        }
        None
    }

    /// The frames that are left in the table, in its order.
    pub fn into_vec(self) -> (v: Vec<u64>)
        ensures
            v@ == Self::remaining(self.frames@, self.frames@.len()),
    {
        let mut v: Vec<u64> = Vec::new();
        let mut i: usize = 0;
        while i < self.frames.len()
            invariant
                i <= self.frames@.len(),
                v@ == Self::remaining(self.frames@, i as nat),
            decreases self.frames@.len() - i,
        {
            match self.frames[i] {
                Some(frame) => {
                    v.push(frame);
                },
                None => {},
            }
            i += 1;
        }
        v
    }

    /// The frames in the first `n` slots of the table.
    pub open spec fn remaining(frames: Seq<Option<u64>>, n: nat) -> Seq<u64>
        decreases n,
    {
        if n == 0 {
            Seq::empty()
        } else {
            match frames[n - 1] {
                Some(frame) => Self::remaining(frames, (n - 1) as nat).push(frame),
                None => Self::remaining(frames, (n - 1) as nat),
            }
        }
    }
}

/// A region of the memory map: the addresses from `start` up to `end`, and
/// whether the kernel may use them.
#[derive(Clone, Copy, Debug, PartialEq, Eq, Structural)]
pub struct MemoryRegion {
    pub start: u64,
    pub end: u64,
    pub usable: bool,
}

/// How many addresses a walk through the region visits: it starts at the
/// start of the region and goes on by the size of a frame while it is
/// below the end.
pub open spec fn steps(r: MemoryRegion) -> nat {
    if r.start >= r.end {
        0
    } else {
        ((r.end - r.start + FRAME_SIZE - 1) / FRAME_SIZE as int) as nat
    }
}

/// The `k`-th address of the walk through the region.
pub open spec fn step_addr(r: MemoryRegion, k: int) -> u64 {
    (r.start + k * FRAME_SIZE) as u64
}

/// The frames that the first `k` steps through the region find, without
/// those of low memory.
pub open spec fn region_frames(r: MemoryRegion, k: nat) -> Seq<u64>
    decreases k,
{
    if k == 0 {
        Seq::empty()
    } else if frame_of(step_addr(r, k - 1)) < LOW_MEMORY_END {
        region_frames(r, (k - 1) as nat)
    } else {
        region_frames(r, (k - 1) as nat).push(frame_of(step_addr(r, k - 1)))
    }
}

/// The frames of the first `n` regions of the map, region by region.
pub open spec fn map_frames(map: Seq<MemoryRegion>, n: nat) -> Seq<u64>
    decreases n,
{
    if n == 0 {
        Seq::empty()
    } else {
        map_frames(map, (n - 1) as nat) + region_frames(map[n - 1], steps(map[n - 1]))
    }
}

/// The first steps through a region find a prefix of what all steps find.
proof fn lemma_region_prefix(r: MemoryRegion, k: nat, m: nat)
    requires
        k <= m,
    ensures
        region_frames(r, k).is_prefix_of(region_frames(r, m)),
    decreases m,
{
    if k < m {
        lemma_region_prefix(r, k, (m - 1) as nat);
    }
}

/// The frames of the first regions are a prefix of the frames of the map.
proof fn lemma_map_prefix(map: Seq<MemoryRegion>, i: nat, n: nat)
    requires
        i <= n,
    ensures
        map_frames(map, i).is_prefix_of(map_frames(map, n)),
    decreases n,
{
    if i < n {
        lemma_map_prefix(map, i, (n - 1) as nat);
    }
}

/// The walk has `k` steps behind it exactly when its address is the `k`-th:
/// an address below the end is a step of the region, the first address that
/// is not below the end comes behind the last step.
proof fn lemma_steps(r: MemoryRegion, k: nat)
    requires
        r.start < r.end,
        r.start + k * FRAME_SIZE <= u64::MAX,
    ensures
        r.start + k * FRAME_SIZE < r.end <==> k < steps(r),
{
    let span = r.end - r.start;
    assert(k * 4096 < span <==> k < (span + 4095) / 4096) by (nonlinear_arith)
        requires
            span > 0,
    ;
}

/// The frames that the walk through a region adds to what was collected.
fn collect_region(frames: &mut Vec<u64>, region: &MemoryRegion, limit: usize) -> (full: bool)
    requires
        old(frames)@.len() <= limit,
    ensures
        final(frames)@.len() <= limit,
        final(frames)@.is_prefix_of(old(frames)@ + region_frames(*region, steps(*region))),
        old(frames)@.is_prefix_of(final(frames)@),
        !full ==> final(frames)@ == old(frames)@ + region_frames(*region, steps(*region)),
        full ==> final(frames)@.len() == limit,
{
    if region.start >= region.end {
        proof {
            assert(frames@ + region_frames(*region, 0) =~= frames@);
        }
        return frames.len() >= limit;
    }
    let mut addr: u64 = region.start;
    let mut stopped: bool = false;
    let ghost mut k: nat = 0;
    proof {
        assert(frames@ + region_frames(*region, 0) =~= frames@);
        lemma_steps(*region, 0);
    }
    loop
        invariant_except_break
            addr == region.start + k * FRAME_SIZE,
            addr < region.end,
            k < steps(*region),
            frames@ == old(frames)@ + region_frames(*region, k),
        invariant
            region.start < region.end,
            frames@.len() <= limit,
        ensures
            frames@.len() <= limit,
            frames@.is_prefix_of(old(frames)@ + region_frames(*region, steps(*region))),
            old(frames)@.is_prefix_of(frames@),
            stopped ==> frames@.len() == limit,
            !stopped ==> frames@ == old(frames)@ + region_frames(*region, steps(*region)),
        decreases steps(*region) - k,
    {
        if frames.len() >= limit {
            proof {
                lemma_region_prefix(*region, k, steps(*region));
                let all = old(frames)@ + region_frames(*region, steps(*region));
                assert(frames@ =~= all.subrange(0, frames@.len() as int));
                assert(old(frames)@ =~= frames@.subrange(0, old(frames)@.len() as int));
            }
            stopped = true;
            break;
        }
        let frame = frame_containing(addr);
        let ghost before = frames@;
        if frame >= LOW_MEMORY_END {
            frames.push(frame);
        }
        proof {
            assert(step_addr(*region, k as int) == addr);
            assert(frames@ =~= old(frames)@ + region_frames(*region, k + 1));
        }
        if addr > u64::MAX - FRAME_SIZE || addr + FRAME_SIZE >= region.end {
            proof {
                if addr <= u64::MAX - FRAME_SIZE {
                    assert((k + 1) * FRAME_SIZE == k * FRAME_SIZE + FRAME_SIZE) by (nonlinear_arith);
                    lemma_steps(*region, k + 1);
                } else {
                    let span = region.end - region.start;
                    assert(k + 1 >= (span + 4095) / 4096) by (nonlinear_arith)
                        requires
                            k * 4096 + 4096 >= span,
                            span > 0,
                    ;
                }
                assert(steps(*region) == k + 1);
                assert(old(frames)@ =~= frames@.subrange(0, old(frames)@.len() as int));
                let all = old(frames)@ + region_frames(*region, steps(*region));
                assert(frames@ =~= all.subrange(0, frames@.len() as int));
            }
            stopped = false;
            break;
        }
        proof {
            assert((k + 1) * FRAME_SIZE == k * FRAME_SIZE + FRAME_SIZE) by (nonlinear_arith);
            lemma_steps(*region, k + 1);
            k = k + 1;
        }
        addr = addr + FRAME_SIZE;
    }
    stopped
}

/// The frames of the map, region by region, at most `limit` of them.
fn collect_frames(memory_map: &[MemoryRegion], limit: usize) -> (frames: Vec<u64>)
    ensures
        frames@.len() <= limit,
        frames@.is_prefix_of(map_frames(memory_map@, memory_map@.len())),
        frames@.len() < limit ==> frames@ == map_frames(memory_map@, memory_map@.len()),
{
    let mut frames: Vec<u64> = Vec::new();
    let mut i: usize = 0;
    while i < memory_map.len()
        invariant
            i <= memory_map@.len(),
            frames@.len() <= limit,
            frames@ == map_frames(memory_map@, i as nat),
        decreases memory_map@.len() - i,
    {
        let full = collect_region(&mut frames, &memory_map[i], limit);
        proof {
            lemma_map_prefix(memory_map@, (i + 1) as nat, memory_map@.len());
            let upto = map_frames(memory_map@, (i + 1) as nat);
            let all = map_frames(memory_map@, memory_map@.len());
            assert(frames@ =~= all.subrange(0, frames@.len() as int)) by {
                assert(frames@ =~= upto.subrange(0, frames@.len() as int));
                assert(upto =~= all.subrange(0, upto.len() as int));
            }
        }
        if full {
            return frames;
        }
        i += 1;
    }
    proof {
        assert(frames@ =~= map_frames(memory_map@, memory_map@.len()).subrange(
            0,
            frames@.len() as int,
        ));
    }
    frames
}

/// One of the first `k` steps through the region finds the frame with
/// number `n`.
pub open spec fn region_marks(r: MemoryRegion, k: nat, n: int) -> bool
    decreases k,
{
    k > 0 && (FrameBitmap::number(frame_of(step_addr(r, k - 1))) == n || region_marks(
        r,
        (k - 1) as nat,
        n,
    ))
}

/// The frame with number `n` lies in one of the first `i` regions of the
/// map that the kernel may not use.
pub open spec fn taken(map: Seq<MemoryRegion>, i: nat, n: int) -> bool
    decreases i,
{
    i > 0 && ((!map[i - 1].usable && region_marks(map[i - 1], steps(map[i - 1]), n)) || taken(
        map,
        (i - 1) as nat,
        n,
    ))
}

/// Records the frames that the walk through a region finds as in use.
fn mark_region(bitmap: &mut FrameBitmap, region: &MemoryRegion)
    requires
        old(bitmap).wf(),
    ensures
        final(bitmap).wf(),
        final(bitmap).base_address == old(bitmap).base_address,
        final(bitmap).frame_count == old(bitmap).frame_count,
        forall|n: int|
            #![trigger final(bitmap).used(n)]
            final(bitmap).used(n) == (old(bitmap).used(n) || (0 <= n < 8 * BITMAP_BYTES
                && region_marks(*region, steps(*region), n))),
{
    if region.start >= region.end {
        return ;
    }
    let mut addr: u64 = region.start;
    let ghost mut k: nat = 0;
    proof {
        lemma_steps(*region, 0);
    }
    loop
        invariant_except_break
            addr == region.start + k * FRAME_SIZE,
            addr < region.end,
            k < steps(*region),
            forall|n: int|
                #![trigger bitmap.used(n)]
                bitmap.used(n) == (old(bitmap).used(n) || (0 <= n < 8 * BITMAP_BYTES
                    && region_marks(*region, k, n))),
        invariant
            region.start < region.end,
            bitmap.wf(),
            bitmap.base_address == old(bitmap).base_address,
            bitmap.frame_count == old(bitmap).frame_count,
        ensures
            forall|n: int|
                #![trigger bitmap.used(n)]
                bitmap.used(n) == (old(bitmap).used(n) || (0 <= n < 8 * BITMAP_BYTES
                    && region_marks(*region, steps(*region), n))),
        decreases steps(*region) - k,
    {
        let frame = frame_containing(addr);
        let _ = bitmap.mark_used(frame);
        proof {
            assert(step_addr(*region, k as int) == addr);
            assert forall|n: int|
                #![trigger bitmap.used(n)]
                bitmap.used(n) == (old(bitmap).used(n) || (0 <= n < 8 * BITMAP_BYTES
                    && region_marks(*region, k + 1, n))) by {
                assert(region_marks(*region, k + 1, n) == (FrameBitmap::number(frame) == n
                    || region_marks(*region, k, n)));
            }
        }
        if addr > u64::MAX - FRAME_SIZE || addr + FRAME_SIZE >= region.end {
            proof {
                if addr <= u64::MAX - FRAME_SIZE {
                    assert((k + 1) * FRAME_SIZE == k * FRAME_SIZE + FRAME_SIZE) by (nonlinear_arith);
                    lemma_steps(*region, k + 1);
                } else {
                    let span = region.end - region.start;
                    assert(k + 1 >= (span + 4095) / 4096) by (nonlinear_arith)
                        requires
                            k * 4096 + 4096 >= span,
                            span > 0,
                    ;
                }
                assert(steps(*region) == k + 1);
            }
            break;
        }
        proof {
            assert((k + 1) * FRAME_SIZE == k * FRAME_SIZE + FRAME_SIZE) by (nonlinear_arith);
            lemma_steps(*region, k + 1);
            k = k + 1;
        }
        addr = addr + FRAME_SIZE;
    }
}

/// The allocator of the running kernel: the memory map, the list of frames
/// to hand out, in order, and the bitmap of the frames in use.
pub struct BootInfoFrameAllocator {
    pub memory_map: Vec<MemoryRegion>,
    pub frames: Vec<u64>,
    pub next: usize,
    pub allocated: FrameBitmap,
}

impl BootInfoFrameAllocator {
    /// The invariant: the next frame is a position of the list or its end,
    /// and the bitmap is well-formed.
    pub open spec fn wf(&self) -> bool {
        self.next <= self.frames@.len() && self.allocated.wf()
    }

    /// An allocator over `frames` with nothing handed out.
    pub fn new(memory_map: Vec<MemoryRegion>, frames: Vec<u64>) -> (a: BootInfoFrameAllocator)
        ensures
            a.wf(),
            a.memory_map@ == memory_map@,
            a.frames@ == frames@,
            a.next == 0,
            forall|n: int| !a.allocated.used(n),
    {
        BootInfoFrameAllocator { memory_map, frames, next: 0, allocated: FrameBitmap::new() }
    }

    /// The table of the early allocator: the first `PRE_HEAP_FRAMES` frames
    /// of the map, without those of low memory; the slots behind them are
    /// empty.
    pub fn init_temp(memory_map: &[MemoryRegion]) -> (table: Vec<Option<u64>>)
        ensures
            table@.len() == PRE_HEAP_FRAMES,
            forall|i: int|
                0 <= i < PRE_HEAP_FRAMES ==> #[trigger] table@[i] == if i < map_frames(
                    memory_map@,
                    memory_map@.len(),
                ).len() {
                    Some(map_frames(memory_map@, memory_map@.len())[i])
                } else {
                    None
                },
    {
        let frames = collect_frames(memory_map, PRE_HEAP_FRAMES);
        let mut table: Vec<Option<u64>> = Vec::new();
        let mut i: usize = 0;
        while i < PRE_HEAP_FRAMES
            invariant
                i <= PRE_HEAP_FRAMES,
                table@.len() == i,
                frames@.len() <= PRE_HEAP_FRAMES,
                forall|j: int|
                    0 <= j < i ==> #[trigger] table@[j] == if j < frames@.len() {
                        Some(frames@[j])
                    } else {
                        None
                    },
            decreases PRE_HEAP_FRAMES - i,
        {
            if i < frames.len() {
                table.push(Some(frames[i]));
            } else {
                table.push(None);
            }
            i += 1;
        }
        table
    }

    /// An allocator over all frames of the map, without those of low
    /// memory, with nothing handed out. A list of frames cannot be longer
    /// than a machine word counts; it holds the first frames then.
    pub fn init(memory_map: &[MemoryRegion]) -> (a: BootInfoFrameAllocator)
        ensures
            a.wf(),
            a.memory_map@ == memory_map@,
            a.frames@.is_prefix_of(map_frames(memory_map@, memory_map@.len())),
            a.frames@.len() < usize::MAX ==> a.frames@ == map_frames(
                memory_map@,
                memory_map@.len(),
            ),
            a.next == 0,
            forall|n: int| !a.allocated.used(n),
    {
        let frames = collect_frames(memory_map, usize::MAX);
        let map = vstd::slice::slice_to_vec(memory_map);
        BootInfoFrameAllocator::new(map, frames)
    }

    /// Records the frames of every region that the kernel may not use as in
    /// use.
    pub fn mark_used_frames(&mut self)
        requires
            old(self).wf(),
        ensures
            final(self).wf(),
            final(self).memory_map@ == old(self).memory_map@,
            final(self).frames@ == old(self).frames@,
            final(self).next == old(self).next,
            forall|n: int|
                #![trigger final(self).allocated.used(n)]
                final(self).allocated.used(n) == (old(self).allocated.used(n) || (0 <= n < 8
                    * BITMAP_BYTES && taken(
                    old(self).memory_map@,
                    old(self).memory_map@.len(),
                    n,
                ))),
    {
        let ghost map = self.memory_map@;
        let mut i: usize = 0;
        while i < self.memory_map.len()
            invariant
                i <= map.len(),
                self.wf(),
                self.memory_map@ == map,
                map == old(self).memory_map@,
                self.frames@ == old(self).frames@,
                self.next == old(self).next,
                forall|n: int|
                    #![trigger self.allocated.used(n)]
                    self.allocated.used(n) == (old(self).allocated.used(n) || (0 <= n < 8
                        * BITMAP_BYTES && taken(map, i as nat, n))),
            decreases map.len() - i,
        {
            let region = self.memory_map[i];
            let ghost before = self.allocated;
            if !region.usable {
                mark_region(&mut self.allocated, &region);
            }
            proof {
                assert forall|n: int|
                    #![trigger self.allocated.used(n)]
                    self.allocated.used(n) == (old(self).allocated.used(n) || (0 <= n < 8
                        * BITMAP_BYTES && taken(map, (i + 1) as nat, n))) by {
                    assert(taken(map, (i + 1) as nat, n) == ((!region.usable && region_marks(
                        region,
                        steps(region),
                        n,
                    )) || taken(map, i as nat, n)));
                    assert(before.used(n) == (old(self).allocated.used(n) || (0 <= n < 8
                        * BITMAP_BYTES && taken(map, i as nat, n))));
                }
            }
            i += 1;
        }
        proof {
            assert(i == map.len());
        }
    }

    /// Hands out the next frame of the list and records it as in use.
    /// `None` when the list is used up.
    pub fn allocate_frame(&mut self) -> (r: Option<u64>)
        requires
            old(self).wf(),
        ensures
            final(self).wf(),
            final(self).frames@ == old(self).frames@,
            final(self).memory_map@ == old(self).memory_map@,
            old(self).next < old(self).frames@.len() ==> r == Some(
                old(self).frames@[old(self).next as int],
            ) && final(self).next == old(self).next + 1 && forall|n: int|
                final(self).allocated.used(n) == (old(self).allocated.used(n) || (n
                    == FrameBitmap::number(old(self).frames@[old(self).next as int]) && n < 8
                    * BITMAP_BYTES)),
            old(self).next >= old(self).frames@.len() ==> r is None && final(self).next == old(
                self,
            ).next && forall|n: int| final(self).allocated.used(n) == old(self).allocated.used(n),
    {
        if self.next >= self.frames.len() {
            return None;
        }
        let frame = self.frames[self.next];
        self.next = self.next + 1;
        let _ = self.allocated.mark_used(frame);
        Some(frame)
    }

    /// The frames that are recorded as in use, lowest first.
    pub fn allocated_frames(&self) -> (frames: Vec<u64>)
        requires
            self.wf(),
        ensures
            frames@ == self.allocated.used_below((8 * BITMAP_BYTES) as nat),
    {
        self.allocated.iter_used_frames()
    }

    /// Tells whether a frame is recorded as in use.
    pub fn is_allocated(&self, frame: u64) -> (b: bool)
        requires
            self.wf(),
        ensures
            b == self.allocated.used(FrameBitmap::number(frame)),
    {
        self.allocated.contains(frame)
    }

    /// The list of frames.
    pub fn into_vec(self) -> (v: Vec<u64>)
        ensures
            v@ == self.frames@,
    {
        self.frames
    }
}

} // verus!
