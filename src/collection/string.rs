use vstd::prelude::*;
use vstd::string::StringSliceAdditionalSpecFns;
use crate::collection::deque::{Deque, keep_last};

verus! {

/// A byte string of at most `LEN` bytes in a fixed buffer. Built from a
/// longer text it keeps the text's last `LEN` bytes.
#[derive(Clone, Copy, Debug)]
pub struct String<const LEN: usize> {
    deque: Deque<u8, LEN>,
}

impl<const LEN: usize> View for String<LEN> {
    type V = Seq<u8>;

    closed spec fn view(&self) -> Seq<u8> {
        self.deque@
    }
}

impl<const LEN: usize> String<LEN> {
    pub closed spec fn wf(&self) -> bool {
        self.deque.wf()
    }

    /// The bytes of `s`, each pushed at the back with the oldest byte
    /// dropped once the buffer is full.
    pub fn new(s: &str) -> (r: Self)
        ensures
            r.wf(),
            r@ == keep_last(s.spec_bytes(), LEN as nat),
    {
        let mut deque = Deque::<u8, LEN>::default();
        let bytes = s.as_bytes();
        deque.extend_overwrite(bytes);
        proof { assert(Seq::<u8>::empty() + bytes@ =~= bytes@); }
        Self { deque }
    }

    /// The bytes, first to last.
    pub fn bytes(&self) -> (r: &Deque<u8, LEN>)
        ensures
            r@ == self@,
            self.wf() ==> r.wf(),
    {
        &self.deque
    }
}

} // verus!
