//! Fixed-capacity ring deque and the bounded buffers built on it.

pub mod cmd;
pub mod collection;
pub mod driver;
pub mod elf;
pub mod io;
pub mod ip;
pub mod log;
pub mod rawbuf;
pub mod task;
