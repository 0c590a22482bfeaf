//! Reading 64-bit ELF executables: the header, the program headers, and the
//! segments to load.

pub mod types;
pub mod loader;
