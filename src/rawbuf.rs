use vstd::prelude::*;

verus! {

/// A region of memory given by its first address and its length in bytes.
#[derive(Clone, Copy, Debug, PartialEq, Eq, Structural)]
pub struct RawBuf {
    base: usize,
    len: usize,
}

impl RawBuf {
    pub closed spec fn spec_addr(&self) -> usize {
        self.base
    }

    pub closed spec fn spec_len(&self) -> usize {
        self.len
    }

    pub fn new(base: usize, len: usize) -> (r: Self)
        ensures
            r.spec_addr() == base,
            r.spec_len() == len,
    {
        Self { base, len }
    }

    pub fn addr(&self) -> (r: usize)
        ensures
            r == self.spec_addr(),
    {
        self.base
    }

    pub fn len(&self) -> (r: usize)
        ensures
            r == self.spec_len(),
    {
        self.len
    }
}

} // verus!
