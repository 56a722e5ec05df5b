//! A queue of commands between processes, backed by fixed buffers.

use vstd::prelude::*;
use crate::cmd::Poll;
use crate::cmd::rw::{Cmd, Error, Status};
use crate::collection::deque::Deque;
use crate::rawbuf::RawBuf;

verus! {

/// The smallest buffer a read command may name.
pub const MIN_READ_LEN: usize = 128;

/// Whether `cmd` is a read into a buffer too small to take a transfer.
pub open spec fn is_short_read(cmd: Cmd) -> bool {
    match cmd {
        Cmd::Read(buf) => buf.spec_len() < MIN_READ_LEN,
        _ => false,
    }
}

/// Commands handed to the transport `rwqueue`, with room for `CMDNR`
/// pending requests and responses.
pub struct IPQueue<Q, const CMDNR: usize> {
    rwqueue: Q,
    reqbuf: Deque<Cmd, CMDNR>,
    rspbuf: Deque<Status, CMDNR>,
}

impl<Q, const CMDNR: usize> IPQueue<Q, CMDNR> {
    pub closed spec fn wf(&self) -> bool {
        &&& self.reqbuf.wf()
        &&& self.rspbuf.wf()
    }

    /// The buffer of responses not taken yet.
    pub closed spec fn responses(&self) -> Deque<Status, CMDNR> {
        self.rspbuf
    }

    pub closed spec fn transport(&self) -> Q {
        self.rwqueue
    }

    /// A queue over `rwqueue` with no requests and no responses; every slot
    /// of the buffers starts out as an empty read or a success.
    pub fn new(rwqueue: Q) -> (r: Self)
        requires
            CMDNR > 0,
        ensures
            r.wf(),
            r.responses()@.len() == 0,
            r.transport() == rwqueue,
    {
        Self {
            rwqueue,
            reqbuf: Deque::new(|_i: usize| Cmd::Read(RawBuf::new(0, 0))),
            rspbuf: Deque::new(|_i: usize| Status::Success),
        }
    }

    /// Checks a batch of commands: it is refused when a read names a buffer
    /// shorter than `MIN_READ_LEN`, and accepted otherwise.
    pub fn push(&mut self, reqs: &[Cmd]) -> (r: Poll<Result<(), Error>>)
        ensures
            (exists|i: int| 0 <= i < reqs@.len() && is_short_read(#[trigger] reqs@[i])) ==> r == Poll::<
                Result<(), Error>,
            >::Ready(Err(Error::Fatal)),
            (forall|i: int| 0 <= i < reqs@.len() ==> !is_short_read(#[trigger] reqs@[i])) ==> r == Poll::<
                Result<(), Error>,
            >::Ready(Ok(())),
    {
        let mut i: usize = 0;
        while i < reqs.len()
            invariant
                i <= reqs@.len(),
                forall|j: int| 0 <= j < i ==> !is_short_read(#[trigger] reqs@[j]),
            decreases reqs@.len() - i,
        {
            if let Cmd::Read(buf) = reqs[i] {
                if buf.len() < MIN_READ_LEN {
                    return Poll::Ready(Err(Error::Fatal));
                }
            }
            i += 1;
        }
        Poll::Ready(Ok(()))
    }

    /// All responses gathered so far, as a copy.
    pub fn pop(&mut self) -> (r: Poll<Result<Deque<Status, CMDNR>, Error>>)
        ensures
            r == Poll::<Result<Deque<Status, CMDNR>, Error>>::Ready(Ok(old(self).responses())),
            *final(self) == *old(self),
    {
        Poll::Ready(Ok(self.rspbuf))
    }
}

} // verus!
