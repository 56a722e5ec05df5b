//! Non-blocking byte transfer interfaces that devices implement.

use vstd::prelude::*;

verus! {

/// The failure of a transfer.
#[derive(Clone, Copy, Debug, PartialEq, Eq, Structural)]
pub enum Error {
    Fatal,
    TimedOut,
    Unsupported,
}

/// The state of a transfer that may not be done yet.
#[derive(Clone, Copy, Debug, PartialEq, Eq, Structural)]
pub enum Poll<T> {
    Ready(T),
    Pending,
}

/// A sink that takes bytes when it can.
pub trait AsyncWrite {
    fn poll_write(&mut self, buf: &[u8]) -> Poll<Result<usize, Error>>;
}

/// A source that hands out bytes when it has some.
pub trait AsyncRead {
    fn poll_read(&mut self, buf: &mut [u8]) -> Poll<Result<usize, Error>>;
}

/// Where a seek is counted from.
#[derive(Clone, Copy, Debug, PartialEq, Eq, Structural)]
pub enum SeekFrom {
    Start(u64),
    End(i64),
    Current(i64),
}

/// A device whose position can be moved.
pub trait AsyncSeek {
    fn poll_seek(&mut self, pos: SeekFrom) -> Poll<Result<u64, Error>>;
}

} // verus!
