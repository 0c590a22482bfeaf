//! The records of a 64-bit ELF file and the constants that go with them.
#![allow(non_camel_case_types)]

use vstd::prelude::*;

verus! {

/// The length of the identification at the start of the header.
pub const EI_NIDENT: usize = 16;

/// The size of the file header in bytes.
pub const EHDR_SIZE: usize = 64;

/// The size of a program header in bytes.
pub const PHDR_SIZE: usize = 56;

pub const PT_NULL: u32 = 0;
pub const PT_LOAD: u32 = 1;

pub const ELFMAG0: u8 = 0x7F;
pub const ELFMAG1: u8 = 0x45;
pub const ELFMAG2: u8 = 0x4C;
pub const ELFMAG3: u8 = 0x46;

pub const ELFCLASS64: u8 = 2;
pub const ELFDATA2LSB: u8 = 1;
pub const ET_EXEC: u16 = 2;
pub const EM_X86_64: u16 = 62;

/// Segment permission bits of `p_flags`.
pub const PF_X: u32 = 0x1;
pub const PF_W: u32 = 0x2;
pub const PF_R: u32 = 0x4;

/// The file header.
#[derive(Clone, Copy, Debug)]
pub struct Elf64_Ehdr {
    pub e_ident: [u8; 16],
    pub e_type: u16,
    pub e_machine: u16,
    pub e_version: u32,
    pub e_entry: u64,
    pub e_phoff: u64,
    pub e_shoff: u64,
    pub e_flags: u32,
    pub e_ehsize: u16,
    pub e_phentsize: u16,
    pub e_phnum: u16,
    pub e_shentsize: u16,
    pub e_shnum: u16,
    pub e_shstrndx: u16,
}

/// A program header.
#[derive(Clone, Copy, Debug, PartialEq, Eq, Structural)]
pub struct Elf64_Phdr {
    pub p_type: u32,
    pub p_flags: u32,
    pub p_offset: u64,
    pub p_vaddr: u64,
    pub p_paddr: u64,
    pub p_filesz: u64,
    pub p_memsz: u64,
    pub p_align: u64,
}

} // verus!
