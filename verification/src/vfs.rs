//! The virtual filesystem: a tree of directories, files and symbolic links
//! under one mount, addressed by absolute paths.

pub mod tree;
pub mod path;
pub mod node;
pub mod mount;
pub mod ops;
pub mod resolve;
pub mod init;
