//! Bulldog: the logic of a small kernel, with its contracts.
//!
//! The core is the syscall-mediated I/O layer: the error taxonomy (`errno`),
//! the user-pointer guard over a model of user memory (`usermem`), the
//! capability interfaces and their backends (`file`, `memfile`, `store`),
//! the descriptor table (`fd`), the virtual filesystem (`vfs`), the kernel
//! context (`kernel`), and the syscall table, dispatcher and handlers
//! (`syscall`), with the user side of the trap (`user_errno`, `user_sys`).
//! What holds of the layer as a whole is stated in `laws`.
//!
//! Around it stand the parts of the kernel that compute on plain values:
//! the heap (`allocator`), physical frames (`memory`), the ELF loader
//! (`elf`), the local APIC (`apic`), ticks and the watchdog (`time`), the
//! framebuffer (`framebuffer`), the text writer (`writer`) and the filter
//! of the logger (`logger`).

pub mod errno;
pub mod text;
pub mod usermem;
pub mod file;
pub mod memfile;
pub mod store;
pub mod fd;
pub mod vfs;
pub mod kernel;
pub mod syscall;
pub mod allocator;
pub mod user_errno;
pub mod user_sys;
pub mod laws;
pub mod elf;
pub mod time;
pub mod apic;
pub mod framebuffer;
pub mod memory;
pub mod writer;
pub mod logger;
