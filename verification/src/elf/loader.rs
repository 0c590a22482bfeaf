//! Validation of the file header, parsing of the program header table, and
//! the list of segments that a loader has to map.

use vstd::prelude::*;
use crate::elf::types::{
    ELFCLASS64,
    ELFDATA2LSB,
    ELFMAG0,
    ELFMAG1,
    ELFMAG2,
    ELFMAG3,
    EHDR_SIZE,
    EM_X86_64,
    ET_EXEC,
    Elf64_Ehdr,
    Elf64_Phdr,
    PHDR_SIZE,
    PT_LOAD,
};

verus! {

/// Why a file is refused.
#[derive(Clone, Copy, Debug, PartialEq, Eq, Structural)]
pub enum ElfError {
    BadMagic,
    BadClass,
    BadEndian,
    BadMachine,
    BadType,
    BadHeaderSize,
    BadPhSize,
    PhOutOfBounds,
}

/// What the checks of the header find, in their order: the magic bytes, the
/// 64-bit class, little-endian data, the x86-64 machine, the executable
/// type, and the sizes of the header and of a program header.
pub open spec fn header_verdict(hdr: Elf64_Ehdr) -> Result<(), ElfError> {
    if hdr.e_ident@[0] != ELFMAG0 || hdr.e_ident@[1] != ELFMAG1 || hdr.e_ident@[2] != ELFMAG2
        || hdr.e_ident@[3] != ELFMAG3 {
        Err(ElfError::BadMagic)
    } else if hdr.e_ident@[4] != ELFCLASS64 {
        Err(ElfError::BadClass)
    } else if hdr.e_ident@[5] != ELFDATA2LSB {
        Err(ElfError::BadEndian)
    } else if hdr.e_machine != EM_X86_64 {
        Err(ElfError::BadMachine)
    } else if hdr.e_type != ET_EXEC {
        Err(ElfError::BadType)
    } else if hdr.e_ehsize != EHDR_SIZE {
        Err(ElfError::BadHeaderSize)
    } else if hdr.e_phentsize != PHDR_SIZE {
        Err(ElfError::BadPhSize)
    } else {
        Ok(())
    }
}

/// Checks that the header is that of a little-endian x86-64 executable.
pub fn validate_elf_header(hdr: &Elf64_Ehdr) -> (r: Result<(), ElfError>)
    ensures
        r == header_verdict(*hdr),
{
    if hdr.e_ident[0] != ELFMAG0 || hdr.e_ident[1] != ELFMAG1 || hdr.e_ident[2] != ELFMAG2
        || hdr.e_ident[3] != ELFMAG3 {
        return Err(ElfError::BadMagic);
    }
    if hdr.e_ident[4] != ELFCLASS64 {
        return Err(ElfError::BadClass);
    }
    if hdr.e_ident[5] != ELFDATA2LSB {
        return Err(ElfError::BadEndian);
    }
    if hdr.e_machine != EM_X86_64 {
        return Err(ElfError::BadMachine);
    }
    if hdr.e_type != ET_EXEC {
        return Err(ElfError::BadType);
    }
    if hdr.e_ehsize as usize != EHDR_SIZE {
        return Err(ElfError::BadHeaderSize);
    }
    if hdr.e_phentsize as usize != PHDR_SIZE {
        return Err(ElfError::BadPhSize);
    }
    Ok(())
}

/// The number that `width` bytes at `at` hold, least significant byte
/// first.
pub open spec fn le_value(data: Seq<u8>, at: int, width: nat) -> nat
    decreases width,
{
    if width == 0 {
        0
    } else {
        data[at] as nat + 256 * le_value(data, at + 1, (width - 1) as nat)
    }
}

/// A number of `width` bytes is below 256 to the power of `width`.
proof fn lemma_le_bound(data: Seq<u8>, at: int, width: nat)
    ensures
        width == 2 ==> le_value(data, at, width) <= 0xffff,
        width == 4 ==> le_value(data, at, width) <= 0xffff_ffff,
        width == 8 ==> le_value(data, at, width) <= 0xffff_ffff_ffff_ffff,
{
    reveal_with_fuel(le_value, 9);
}

/// Reads a 16-bit number, least significant byte first.
fn read_u16(data: &[u8], at: usize) -> (v: u16)
    requires
        at + 2 <= data@.len(),
    ensures
        v == le_value(data@, at as int, 2),
{
    proof {
        reveal_with_fuel(le_value, 3);
    }
    (data[at] as u16) + (data[at + 1] as u16) * 0x100
}

/// Reads a 32-bit number, least significant byte first.
fn read_u32(data: &[u8], at: usize) -> (v: u32)
    requires
        at + 4 <= data@.len(),
    ensures
        v == le_value(data@, at as int, 4),
{
    proof {
        reveal_with_fuel(le_value, 5);
    }
    (data[at] as u32) + (data[at + 1] as u32) * 0x100 + (data[at + 2] as u32) * 0x1_0000 + (data[at
        + 3] as u32) * 0x100_0000
}

/// Reads a 64-bit number, least significant byte first.
fn read_u64(data: &[u8], at: usize) -> (v: u64)
    requires
        at + 8 <= data@.len(),
    ensures
        v == le_value(data@, at as int, 8),
{
    proof {
        reveal_with_fuel(le_value, 9);
    }
    (data[at] as u64) + (data[at + 1] as u64) * 0x100 + (data[at + 2] as u64) * 0x1_0000 + (data[at
        + 3] as u64) * 0x100_0000 + (data[at + 4] as u64) * 0x1_0000_0000 + (data[at + 5] as u64)
        * 0x100_0000_0000 + (data[at + 6] as u64) * 0x1_0000_0000_0000 + (data[at + 7] as u64)
        * 0x100_0000_0000_0000
}

/// The file header that the first 64 bytes of a file hold: the
/// identification as it stands, each number least significant byte first.
pub open spec fn is_header_of(hdr: Elf64_Ehdr, data: Seq<u8>) -> bool {
    &&& hdr.e_ident@ == data.subrange(0, 16)
    &&& hdr.e_type == le_value(data, 16, 2)
    &&& hdr.e_machine == le_value(data, 18, 2)
    &&& hdr.e_version == le_value(data, 20, 4)
    &&& hdr.e_entry == le_value(data, 24, 8)
    &&& hdr.e_phoff == le_value(data, 32, 8)
    &&& hdr.e_shoff == le_value(data, 40, 8)
    &&& hdr.e_flags == le_value(data, 48, 4)
    &&& hdr.e_ehsize == le_value(data, 52, 2)
    &&& hdr.e_phentsize == le_value(data, 54, 2)
    &&& hdr.e_phnum == le_value(data, 56, 2)
    &&& hdr.e_shentsize == le_value(data, 58, 2)
    &&& hdr.e_shnum == le_value(data, 60, 2)
    &&& hdr.e_shstrndx == le_value(data, 62, 2)
}

/// Parses the file header at the start of a file. A file shorter than a
/// header has none.
pub fn read_header(data: &[u8]) -> (r: Option<Elf64_Ehdr>)
    ensures
        r is Some <==> data@.len() >= EHDR_SIZE,
        r matches Some(hdr) ==> is_header_of(hdr, data@),
{
    if data.len() < EHDR_SIZE {
        return None;
    }
    let mut e_ident: [u8; 16] = [0u8;16];
    let mut i: usize = 0;
    while i < 16
        invariant
            i <= 16,
            data@.len() >= 64,
            forall|j: int| 0 <= j < i ==> e_ident@[j] == data@[j],
        decreases 16 - i,
    {
        e_ident[i] = data[i];
        i += 1;
    }
    proof {
        assert(e_ident@ =~= data@.subrange(0, 16));
    }
    Some(
        Elf64_Ehdr {
            e_ident,
            e_type: read_u16(data, 16),
            e_machine: read_u16(data, 18),
            e_version: read_u32(data, 20),
            e_entry: read_u64(data, 24),
            e_phoff: read_u64(data, 32),
            e_shoff: read_u64(data, 40),
            e_flags: read_u32(data, 48),
            e_ehsize: read_u16(data, 52),
            e_phentsize: read_u16(data, 54),
            e_phnum: read_u16(data, 56),
            e_shentsize: read_u16(data, 58),
            e_shnum: read_u16(data, 60),
            e_shstrndx: read_u16(data, 62),
        },
    )
}

/// The program header that the 56 bytes at `at` hold.
pub open spec fn phdr_at(data: Seq<u8>, at: int) -> Elf64_Phdr {
    Elf64_Phdr {
        p_type: le_value(data, at, 4) as u32,
        p_flags: le_value(data, at + 4, 4) as u32,
        p_offset: le_value(data, at + 8, 8) as u64,
        p_vaddr: le_value(data, at + 16, 8) as u64,
        p_paddr: le_value(data, at + 24, 8) as u64,
        p_filesz: le_value(data, at + 32, 8) as u64,
        p_memsz: le_value(data, at + 40, 8) as u64,
        p_align: le_value(data, at + 48, 8) as u64,
    }
}

/// The bytes that the program header table takes, by the header: the
/// entries it counts, each of the size it names, and no entry smaller than
/// a program header.
pub open spec fn table_size(hdr: Elf64_Ehdr) -> int {
    if hdr.e_phentsize < PHDR_SIZE {
        PHDR_SIZE * hdr.e_phnum
    } else {
        hdr.e_phentsize * hdr.e_phnum
    }
}

/// The table lies within the file.
pub open spec fn table_in_bounds(len: nat, hdr: Elf64_Ehdr) -> bool {
    hdr.e_phoff + table_size(hdr) <= len
}

/// Parses the program header table: `e_phnum` headers of 56 bytes each,
/// from `e_phoff` on. A table that does not lie within the file gives
/// `PhOutOfBounds`.
pub fn get_program_headers(elf_data: &[u8], hdr: &Elf64_Ehdr) -> (r: Result<
    Vec<Elf64_Phdr>,
    ElfError,
>)
    ensures
        match r {
            Ok(phdrs) => table_in_bounds(elf_data@.len(), *hdr) && phdrs@.len() == hdr.e_phnum
                && forall|i: int|
                0 <= i < phdrs@.len() ==> #[trigger] phdrs@[i] == phdr_at(
                    elf_data@,
                    hdr.e_phoff + i * PHDR_SIZE,
                ),
            Err(e) => e == ElfError::PhOutOfBounds && !table_in_bounds(elf_data@.len(), *hdr),
        },
{
    let len: usize = elf_data.len();
    let entry: u64 = if (hdr.e_phentsize as usize) < PHDR_SIZE {
        PHDR_SIZE as u64
    } else {
        hdr.e_phentsize as u64
    };
    let phnum: u64 = hdr.e_phnum as u64;
    assert(entry * phnum <= 0xffff * 0xffff) by (nonlinear_arith)
        requires
            entry <= 0xffff,
            phnum <= 0xffff,
    ;
    let total: u64 = entry * phnum;
    if hdr.e_phoff > u64::MAX - total || hdr.e_phoff + total > len as u64 {
        return Err(ElfError::PhOutOfBounds);
    }
    let phoff: usize = hdr.e_phoff as usize;
    let count: usize = hdr.e_phnum as usize;
    assert(PHDR_SIZE * count <= entry * phnum) by (nonlinear_arith)
        requires
            PHDR_SIZE <= entry,
            count == phnum,
    ;
    let mut phdrs: Vec<Elf64_Phdr> = Vec::new();
    let mut i: usize = 0;
    while i < count
        invariant
            i <= count,
            count == hdr.e_phnum,
            phoff == hdr.e_phoff,
            len == elf_data@.len(),
            phoff + PHDR_SIZE * count <= len,
            phdrs@.len() == i,
            forall|j: int|
                0 <= j < i ==> #[trigger] phdrs@[j] == phdr_at(elf_data@, phoff + j * PHDR_SIZE),
        decreases count - i,
    {
        assert(phoff + i * PHDR_SIZE + PHDR_SIZE <= len) by (nonlinear_arith)
            requires
                i < count,
                phoff + PHDR_SIZE * count <= len,
        ;
        let at: usize = phoff + i * PHDR_SIZE;
        proof {
            lemma_le_bound(elf_data@, at as int, 4);
            lemma_le_bound(elf_data@, at + 4, 4);
            lemma_le_bound(elf_data@, at + 8, 8);
            lemma_le_bound(elf_data@, at + 16, 8);
            lemma_le_bound(elf_data@, at + 24, 8);
            lemma_le_bound(elf_data@, at + 32, 8);
            lemma_le_bound(elf_data@, at + 40, 8);
            lemma_le_bound(elf_data@, at + 48, 8);
        }
        let ph = Elf64_Phdr {
            p_type: read_u32(elf_data, at),
            p_flags: read_u32(elf_data, at + 4),
            p_offset: read_u64(elf_data, at + 8),
            p_vaddr: read_u64(elf_data, at + 16),
            p_paddr: read_u64(elf_data, at + 24),
            p_filesz: read_u64(elf_data, at + 32),
            p_memsz: read_u64(elf_data, at + 40),
            p_align: read_u64(elf_data, at + 48),
        };
        phdrs.push(ph);
        i += 1;
    }
    Ok(phdrs)
}

/// What a segment may be used for.
#[derive(Clone, Copy, Debug, PartialEq, Eq, Structural)]
pub struct SegmentFlags {
    pub executable: bool,
    pub writable: bool,
    pub accessible: bool,
}

/// A segment to map: `mem_size` bytes at `vaddr`, of which the first
/// `file_size` come from the file at `file_offset` and the rest are zero.
#[derive(Clone, Copy, Debug, PartialEq, Eq, Structural)]
pub struct Segment {
    pub vaddr: u64,
    pub mem_size: u64,
    pub file_offset: u64,
    pub file_size: u64,
    pub flags: SegmentFlags,
}

/// The segment that a loadable program header describes.
pub open spec fn segment_of(ph: Elf64_Phdr) -> Segment {
    Segment {
        vaddr: ph.p_vaddr,
        mem_size: ph.p_memsz,
        file_offset: ph.p_offset,
        file_size: ph.p_filesz,
        flags: SegmentFlags {
            executable: ph.p_flags & 0x1 != 0,
            writable: ph.p_flags & 0x2 != 0,
            accessible: ph.p_flags & 0x4 != 0,
        },
    }
}

/// The header asks for a segment to be loaded.
pub open spec fn loadable(ph: Elf64_Phdr) -> bool {
    ph.p_type == PT_LOAD
}

/// The part of the segment that comes from the file lies within the file.
pub open spec fn backed(ph: Elf64_Phdr, len: nat) -> bool {
    ph.p_offset + ph.p_filesz <= len
}

/// The segments of the first `n` program headers, in their order.
pub open spec fn segments_of(phdrs: Seq<Elf64_Phdr>, n: nat) -> Seq<Segment>
    decreases n,
{
    if n == 0 {
        Seq::empty()
    } else if loadable(phdrs[n - 1]) {
        segments_of(phdrs, (n - 1) as nat).push(segment_of(phdrs[n - 1]))
    } else {
        segments_of(phdrs, (n - 1) as nat)
    }
}

/// Lists the segments to map, one for each loadable program header, in the
/// order of the headers. If the file-backed part of one of them does not lie
/// within the file, nothing is listed: `PhOutOfBounds`.
pub fn load_segments(elf_data: &[u8], hdr: &Elf64_Ehdr, phdrs: &[Elf64_Phdr]) -> (r: Result<
    Vec<Segment>,
    ElfError,
>)
    ensures
        match r {
            Ok(segments) => segments@ == segments_of(phdrs@, phdrs@.len()) && forall|i: int|
                0 <= i < phdrs@.len() && loadable(#[trigger] phdrs@[i]) ==> backed(
                    phdrs@[i],
                    elf_data@.len(),
                ),
            Err(e) => e == ElfError::PhOutOfBounds && exists|i: int|
                0 <= i < phdrs@.len() && loadable(#[trigger] phdrs@[i]) && !backed(
                    phdrs@[i],
                    elf_data@.len(),
                ),
        },
{
    let len: u64 = elf_data.len() as u64;
    let mut segments: Vec<Segment> = Vec::new();
    let mut i: usize = 0;
    while i < phdrs.len()
        invariant
            i <= phdrs@.len(),
            len == elf_data@.len(),
            segments@ == segments_of(phdrs@, i as nat),
            forall|j: int|
                0 <= j < i && loadable(#[trigger] phdrs@[j]) ==> backed(phdrs@[j], elf_data@.len()),
        decreases phdrs@.len() - i,
    {
        let ph = phdrs[i];
        if ph.p_type == PT_LOAD {
            if ph.p_filesz > u64::MAX - ph.p_offset || ph.p_offset + ph.p_filesz > len {
                return Err(ElfError::PhOutOfBounds);
            }
            segments.push(
                Segment {
                    vaddr: ph.p_vaddr,
                    mem_size: ph.p_memsz,
                    file_offset: ph.p_offset,
                    file_size: ph.p_filesz,
                    flags: SegmentFlags {
                        executable: (ph.p_flags & 0x1) != 0,
                        writable: (ph.p_flags & 0x2) != 0,
                        accessible: (ph.p_flags & 0x4) != 0,
                    },
                },
            );
        }
        i += 1;
    }
    Ok(segments)
}

} // verus!
