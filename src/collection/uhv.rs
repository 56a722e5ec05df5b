//! The deque interface of the runtime library: a deque whose slots start out
//! at their default value, with its own error type.

use vstd::prelude::*;
use crate::collection::cursor::{ring_back, ring_fwd};
use crate::collection::deque::{Deque, DequeError, DequeIter, DequeRefIter, back_step, front_step};

verus! {

/// The error of a push onto a full `UhvDeque`.
#[derive(Clone, Copy, Debug, PartialEq, Eq, Structural)]
pub enum UhvDequeError {
    Fatal,
}

/// A double-ended queue of at most `SIZE` items, kept in a `Deque`.
#[derive(Clone, Copy, Debug)]
pub struct UhvDeque<E, const SIZE: usize> {
    deque: Deque<E, SIZE>,
}

impl<E: Copy, const SIZE: usize> View for UhvDeque<E, SIZE> {
    type V = Seq<E>;

    /// The items from front to back.
    closed spec fn view(&self) -> Seq<E> {
        self.deque@
    }
}

impl<E: Copy + Default, const SIZE: usize> UhvDeque<E, SIZE> {
    pub closed spec fn wf(&self) -> bool {
        self.deque.wf()
    }

    /// The number of slots the cursors go round (one when `SIZE` is zero).
    pub closed spec fn ring(&self) -> int {
        self.deque.ring()
    }

    /// The slot of the front item.
    pub closed spec fn head_slot(&self) -> int {
        self.deque.head_slot()
    }

    /// The slot the next `push_back` writes.
    pub closed spec fn tail_slot(&self) -> int {
        self.deque.tail_slot()
    }

    /// The front boundary: the slot the next `push_front` writes, and `true`
    /// for a free slot; on a full deque (of at least one slot), the slot of
    /// the front item and `false`.
    pub open spec fn get_front_spec(&self) -> (usize, bool) {
        if 0 < SIZE && self@.len() == SIZE {
            (self.head_slot() as usize, false)
        } else {
            (ring_fwd(self.head_slot(), 1, self.ring()) as usize, true)
        }
    }

    /// The back boundary: the slot the next `push_back` writes, and `true`
    /// for a free slot; on a full deque (of at least one slot), the slot of
    /// the last item and `false`.
    pub open spec fn get_back_spec(&self) -> (usize, bool) {
        if 0 < SIZE && self@.len() == SIZE {
            (ring_fwd(self.tail_slot(), 1, self.ring()) as usize, false)
        } else {
            (self.tail_slot() as usize, true)
        }
    }

    /// What a well-formed deque's view and slots satisfy.
    pub proof fn lemma_wf(&self)
        requires
            self.wf(),
        ensures
            self@.len() <= SIZE,
            SIZE > 0 ==> self.ring() == SIZE,
            SIZE == 0 ==> self.ring() == 1,
            0 <= self.head_slot() < self.ring(),
            0 <= self.tail_slot() < self.ring(),
    {
        self.deque.lemma_wf();
    }

    /// An empty deque with default slots.
    pub fn new() -> (r: Self)
        ensures
            r.wf(),
            r@.len() == 0,
            SIZE > 0 ==> r.head_slot() == SIZE - 1 && r.tail_slot() == SIZE - 1,
    {
        Self { deque: Deque::default() }
    }

    pub fn capacity(&self) -> (r: usize)
        ensures
            r == SIZE,
    {
        self.deque.capacity()
    }

    pub fn len(&self) -> (r: usize)
        requires
            self.wf(),
        ensures
            r == self@.len(),
            r <= SIZE,
    {
        proof { self.deque.lemma_wf(); }
        self.deque.len()
    }

    fn convert(r: Result<(), DequeError>) -> (c: Result<(), UhvDequeError>)
        ensures
            r is Ok ==> c == Ok::<(), UhvDequeError>(()),
            r is Err ==> c == Err::<(), UhvDequeError>(UhvDequeError::Fatal),
    {
        match r {
            Ok(()) => Ok(()),
            Err(DequeError::Fatal) => Err(UhvDequeError::Fatal),
        }
    }

    /// Appends `entry` at the back; a full deque is left as it is.
    pub fn push_back(&mut self, entry: E) -> (r: Result<(), UhvDequeError>)
        requires
            old(self).wf(),
        ensures
            final(self).wf(),
            old(self)@.len() == SIZE ==> r == Err::<(), UhvDequeError>(UhvDequeError::Fatal) && final(self)@ == old(self)@,
            old(self)@.len() < SIZE ==> r == Ok::<(), UhvDequeError>(()) && final(self)@ == old(self)@.push(entry),
            final(self).ring() == old(self).ring(),
            final(self).head_slot() == old(self).head_slot(),
            old(self)@.len() < SIZE ==> final(self).tail_slot() == ring_back(old(self).tail_slot(), 1, old(self).ring()),
            old(self)@.len() == SIZE ==> final(self).tail_slot() == old(self).tail_slot(),
    {
        Self::convert(self.deque.push_back(entry))
    }

    /// Puts `entry` in front; a full deque is left as it is.
    pub fn push_front(&mut self, entry: E) -> (r: Result<(), UhvDequeError>)
        requires
            old(self).wf(),
        ensures
            final(self).wf(),
            old(self)@.len() == SIZE ==> r == Err::<(), UhvDequeError>(UhvDequeError::Fatal) && final(self)@ == old(self)@,
            old(self)@.len() < SIZE ==> r == Ok::<(), UhvDequeError>(()) && final(self)@ == seq![entry] + old(self)@,
            final(self).ring() == old(self).ring(),
            final(self).tail_slot() == old(self).tail_slot(),
            old(self)@.len() < SIZE ==> final(self).head_slot() == ring_fwd(old(self).head_slot(), 1, old(self).ring()),
            old(self)@.len() == SIZE ==> final(self).head_slot() == old(self).head_slot(),
    {
        Self::convert(self.deque.push_front(entry))
    }

    /// Removes and returns the last item, or `None` when empty.
    pub fn pop_back(&mut self) -> (r: Option<E>)
        requires
            old(self).wf(),
        ensures
            final(self).wf(),
            (r, final(self)@) == back_step(old(self)@),
            final(self).ring() == old(self).ring(),
            final(self).head_slot() == old(self).head_slot(),
            old(self)@.len() > 0 ==> final(self).tail_slot() == ring_fwd(old(self).tail_slot(), 1, old(self).ring()),
            old(self)@.len() == 0 ==> final(self).tail_slot() == old(self).tail_slot(),
    {
        self.deque.pop_back()
    }

    /// Removes and returns the first item, or `None` when empty.
    pub fn pop_front(&mut self) -> (r: Option<E>)
        requires
            old(self).wf(),
        ensures
            final(self).wf(),
            (r, final(self)@) == front_step(old(self)@),
            final(self).ring() == old(self).ring(),
            final(self).tail_slot() == old(self).tail_slot(),
            old(self)@.len() > 0 ==> final(self).head_slot() == ring_back(old(self).head_slot(), 1, old(self).ring()),
            old(self)@.len() == 0 ==> final(self).head_slot() == old(self).head_slot(),
    {
        self.deque.pop_front()
    }

    /// See `get_front_spec`.
    pub fn get_front(&self) -> (r: (usize, bool))
        requires
            self.wf(),
        ensures
            r == self.get_front_spec(),
    {
        self.deque.get_front()
    }

    /// See `get_back_spec`.
    pub fn get_back(&self) -> (r: (usize, bool))
        requires
            self.wf(),
        ensures
            r == self.get_back_spec(),
    {
        self.deque.get_back()
    }

    /// An iterator that owns a copy of the deque.
    pub fn into_iter(self) -> (r: UhvDequeIter<E, SIZE>)
        requires
            self.wf(),
        ensures
            r.wf(),
            r@ == self@,
    {
        UhvDequeIter { iter: self.deque.into_iter() }
    }

    /// An iterator over references to the items.
    pub fn iter(&self) -> (r: UhvDequeRefIter<'_, E, SIZE>)
        requires
            self.wf(),
        ensures
            r.wf(),
            r@ == self@,
    {
        UhvDequeRefIter { iter: self.deque.iter() }
    }
}

/// An iterator that owns a copy of a `UhvDeque`; see `DequeIter`.
pub struct UhvDequeIter<E, const SIZE: usize> {
    iter: DequeIter<E, SIZE>,
}

impl<E: Copy, const SIZE: usize> View for UhvDequeIter<E, SIZE> {
    type V = Seq<E>;

    closed spec fn view(&self) -> Seq<E> {
        self.iter@
    }
}

impl<E: Copy, const SIZE: usize> UhvDequeIter<E, SIZE> {
    pub closed spec fn wf(&self) -> bool {
        self.iter.wf()
    }

    pub closed spec fn front_slot(&self) -> int {
        self.iter.front_slot()
    }

    pub closed spec fn back_slot(&self) -> int {
        self.iter.back_slot()
    }

    pub fn get_front(&self) -> (r: usize)
        ensures
            r == self.front_slot(),
    {
        self.iter.get_front()
    }

    pub fn get_back(&self) -> (r: usize)
        ensures
            r == self.back_slot(),
    {
        self.iter.get_back()
    }

    pub fn next(&mut self) -> (r: Option<E>)
        requires
            old(self).wf(),
        ensures
            final(self).wf(),
            (r, final(self)@) == front_step(old(self)@),
    {
        self.iter.next()
    }

    pub fn next_back(&mut self) -> (r: Option<E>)
        requires
            old(self).wf(),
        ensures
            final(self).wf(),
            (r, final(self)@) == back_step(old(self)@),
    {
        self.iter.next_back()
    }

    pub fn size_hint(&self) -> (r: (usize, Option<usize>))
        requires
            self.wf(),
        ensures
            r == (self@.len() as usize, Some(self@.len() as usize)),
    {
        self.iter.size_hint()
    }
}

/// An iterator over references to the items of a borrowed `UhvDeque`; see
/// `DequeRefIter`.
pub struct UhvDequeRefIter<'a, E, const SIZE: usize> {
    iter: DequeRefIter<'a, E, SIZE>,
}

impl<'a, E: Copy, const SIZE: usize> View for UhvDequeRefIter<'a, E, SIZE> {
    type V = Seq<E>;

    closed spec fn view(&self) -> Seq<E> {
        self.iter@
    }
}

impl<'a, E: Copy, const SIZE: usize> UhvDequeRefIter<'a, E, SIZE> {
    pub closed spec fn wf(&self) -> bool {
        self.iter.wf()
    }

    pub fn next(&mut self) -> (r: Option<&'a E>)
        requires
            old(self).wf(),
        ensures
            final(self).wf(),
            old(self)@.len() == 0 ==> r is None && final(self)@ == old(self)@,
            old(self)@.len() > 0 ==> r == Some(&old(self)@[0]) && final(self)@ == old(self)@.drop_first(),
    {
        self.iter.next()
    }

    pub fn next_back(&mut self) -> (r: Option<&'a E>)
        requires
            old(self).wf(),
        ensures
            final(self).wf(),
            old(self)@.len() == 0 ==> r is None && final(self)@ == old(self)@,
            old(self)@.len() > 0 ==> r == Some(&old(self)@.last()) && final(self)@ == old(self)@.drop_last(),
    {
        self.iter.next_back()
    }

    pub fn size_hint(&self) -> (r: (usize, Option<usize>))
        requires
            self.wf(),
        ensures
            r == (self@.len() as usize, Some(self@.len() as usize)),
    {
        self.iter.size_hint()
    }
}

} // verus!
