//! Descriptions of memory that devices transfer data through.

use vstd::prelude::*;

verus! {

/// A buffer for direct memory access: its first address, its length in
/// bytes and how far it has been used.
#[derive(Clone, Copy, Debug, PartialEq, Eq, Structural)]
pub struct DmaBuf {
    base: usize,
    len: usize,
    pos: usize,
}

impl DmaBuf {
    pub closed spec fn spec_base(&self) -> usize {
        self.base
    }

    pub closed spec fn spec_len(&self) -> usize {
        self.len
    }

    pub closed spec fn spec_pos(&self) -> usize {
        self.pos
    }

    /// An unused buffer at `base` of `len` bytes; the alignment is not kept.
    pub fn new(base: usize, len: usize, _align: usize) -> (r: Self)
        ensures
            r.spec_base() == base,
            r.spec_len() == len,
            r.spec_pos() == 0,
    {
        DmaBuf { base, len, pos: 0 }
    }
}

/// A 16550-compatible serial port behind the register access `io`.
pub struct Uart16550<IO> {
    io: IO,
}

impl<IO> Uart16550<IO> {
    pub closed spec fn spec_io(&self) -> IO {
        self.io
    }

    pub fn new(io: IO) -> (r: Self)
        ensures
            r.spec_io() == io,
    {
        Self { io }
    }
}

} // verus!
