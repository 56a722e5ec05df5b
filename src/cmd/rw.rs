use vstd::prelude::*;
use crate::collection::deque::{Deque, front_step, keep_last};
use crate::rawbuf::RawBuf;

verus! {

/// A transfer to or from a region of memory.
#[derive(Clone, Copy, Debug, Default)]
pub enum Cmd {
    #[default]
    Noop,
    Read(RawBuf),
    Write(RawBuf),
}

/// A queue of at most `LEN` pending commands; when full, a new command
/// pushes out the oldest.
#[derive(Clone, Copy, Debug)]
pub struct Request<const LEN: usize> {
    deque: Deque<Cmd, LEN>,
}

impl<const LEN: usize> View for Request<LEN> {
    type V = Seq<Cmd>;

    closed spec fn view(&self) -> Seq<Cmd> {
        self.deque@
    }
}

impl<const LEN: usize> Request<LEN> {
    pub closed spec fn wf(&self) -> bool {
        self.deque.wf()
    }

    /// A well-formed queue holds at most `LEN` entries.
    pub proof fn lemma_wf(&self)
        requires
            self.wf(),
        ensures
            self@.len() <= LEN,
    {
        self.deque.lemma_wf();
    }

    /// Queues `cmd`, dropping the oldest command when the queue is full. A
    /// `Noop` is not queued.
    pub fn push(&mut self, cmd: Cmd)
        requires
            old(self).wf(),
        ensures
            final(self).wf(),
            cmd is Noop ==> final(self)@ == old(self)@,
            !(cmd is Noop) ==> final(self)@ == keep_last(old(self)@.push(cmd), LEN as nat),
    {
        if let Cmd::Noop = cmd {
            return;
        }
        self.deque.push_overwrite(cmd);
    }

    /// Takes the oldest command, if any.
    pub fn pop(&mut self) -> (r: Option<Cmd>)
        requires
            old(self).wf(),
        ensures
            final(self).wf(),
            (r, final(self)@) == front_step(old(self)@),
    {
        self.deque.pop_front()
    }
}

impl<const LEN: usize> Default for Request<LEN> {
    /// An empty queue.
    fn default() -> (r: Self)
        ensures
            r.wf(),
            r@.len() == 0,
    {
        Self { deque: Deque::default() }
    }
}

/// The outcome of a command.
#[derive(Clone, Copy, Debug, Default, PartialEq, Eq, Structural)]
pub enum Status {
    #[default]
    Success,
}

/// A queue of at most `LEN` outcomes; when full, a new outcome pushes out
/// the oldest.
#[derive(Clone, Copy, Debug)]
pub struct Response<const LEN: usize> {
    deque: Deque<Status, LEN>,
}

impl<const LEN: usize> View for Response<LEN> {
    type V = Seq<Status>;

    closed spec fn view(&self) -> Seq<Status> {
        self.deque@
    }
}

impl<const LEN: usize> Response<LEN> {
    pub closed spec fn wf(&self) -> bool {
        self.deque.wf()
    }

    /// A well-formed queue holds at most `LEN` entries.
    pub proof fn lemma_wf(&self)
        requires
            self.wf(),
        ensures
            self@.len() <= LEN,
    {
        self.deque.lemma_wf();
    }

    /// Queues `status`, dropping the oldest outcome when the queue is full.
    pub fn push(&mut self, status: Status)
        requires
            old(self).wf(),
        ensures
            final(self).wf(),
            final(self)@ == keep_last(old(self)@.push(status), LEN as nat),
    {
        self.deque.push_overwrite(status);
    }

    /// Takes the oldest outcome, if any.
    pub fn pop(&mut self) -> (r: Option<Status>)
        requires
            old(self).wf(),
        ensures
            final(self).wf(),
            (r, final(self)@) == front_step(old(self)@),
    {
        self.deque.pop_front()
    }
}

impl<const LEN: usize> Default for Response<LEN> {
    /// An empty queue.
    fn default() -> (r: Self)
        ensures
            r.wf(),
            r@.len() == 0,
    {
        Self { deque: Deque::default() }
    }
}

/// The failure of a command.
#[derive(Clone, Copy, Debug, PartialEq, Eq, Structural)]
pub enum Error {
    Fatal,
}

} // verus!
