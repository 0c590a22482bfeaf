//! The syscalls: their numbers, the table that finds a handler by number,
//! the dispatcher, and the handlers.

pub mod table;
pub mod open;
pub mod read;
pub mod write;
pub mod close;
pub mod exit;
pub mod heap;
pub mod dispatcher;
