use vstd::prelude::*;
use vstd::std_specs::cmp::PartialEqSpec;
use vstd::slice::slice_subrange;
use crate::collection::cursor::{Cursor, ring_back, ring_fwd};

verus! {

/// The last `n` items of `s`, or all of `s` when it is shorter.
pub open spec fn keep_last<A>(s: Seq<A>, n: nat) -> Seq<A> {
    if s.len() <= n {
        s
    } else {
        s.subrange(s.len() - n, s.len() as int)
    }
}

/// Keeping the last `n` items before appending one more loses nothing that
/// keeping the last `n` afterwards would have kept.
pub proof fn lemma_keep_last_push<A>(s: Seq<A>, x: A, n: nat)
    ensures
        keep_last(keep_last(s, n).push(x), n) == keep_last(s.push(x), n),
{
    if s.len() > n {
        assert(keep_last(s, n).push(x) =~= s.push(x).subrange(s.len() - n, s.len() + 1int));
        assert(keep_last(keep_last(s, n).push(x), n) =~= keep_last(s.push(x), n));
    }
}

/// One step from the front: the first item and what is left, or nothing.
pub open spec fn front_step<A>(s: Seq<A>) -> (Option<A>, Seq<A>) {
    if s.len() == 0 {
        (None, s)
    } else {
        (Some(s[0]), s.drop_first())
    }
}

/// One step from the back: the last item and what is left, or nothing.
pub open spec fn back_step<A>(s: Seq<A>) -> (Option<A>, Seq<A>) {
    if s.len() == 0 {
        (None, s)
    } else {
        (Some(s.last()), s.drop_last())
    }
}

/// The error of a strict push onto a full deque.
#[derive(Clone, Copy, Debug, PartialEq, Eq, Structural)]
pub enum DequeError {
    Fatal,
}

/// A double-ended queue of at most `L` items held in a fixed array.
///
/// The items occupy the slots `head`, `head - 1`, ..., `tail + 1` (modulo `L`):
/// both cursors step towards lower indices, `head` holds the front item and
/// `tail` is the slot the next `push_back` writes. The `full` flag tells a
/// full deque from an empty one when the two cursors meet.
#[derive(Clone, Copy, Debug)]
pub struct Deque<I, const L: usize> {
    buf: [I; L],
    head: Cursor,
    tail: Cursor,
    full: bool,
}

impl<I: Copy, const L: usize> View for Deque<I, L> {
    type V = Seq<I>;

    /// The items from front to back.
    closed spec fn view(&self) -> Seq<I> {
        Seq::new(self.spec_len(), |k: int| self.buf@[ring_back(self.head.index(), k, self.ring())])
    }
}

impl<I: Copy, const L: usize> Deque<I, L> {
    /// The number of slots the cursors go round (one when `L` is zero).
    pub closed spec fn ring(&self) -> int {
        self.head.ring()
    }

    /// The slot of the front item.
    pub closed spec fn head_slot(&self) -> int {
        self.head.index()
    }

    /// The slot the next `push_back` writes.
    pub closed spec fn tail_slot(&self) -> int {
        self.tail.index()
    }

    closed spec fn spec_len(&self) -> nat {
        if self.full {
            L as nat
        } else {
            ring_back(self.head.index(), self.tail.index(), self.ring()) as nat
        }
    }

    pub closed spec fn wf(&self) -> bool {
        &&& self.head.wf()
        &&& self.tail.wf()
        &&& !self.head.inc()
        &&& !self.tail.inc()
        &&& self.tail.ring() == self.head.ring()
        &&& if L == 0 {
            &&& self.head.ring() == 1
            &&& self.head.index() == 0
            &&& self.tail.index() == 0
            &&& !self.full
        } else {
            self.head.ring() == L
        }
        &&& self.full ==> self.head.index() == self.tail.index()
    }

    /// What a well-formed deque's view and slots satisfy.
    pub proof fn lemma_wf(&self)
        requires
            self.wf(),
        ensures
            self@.len() <= L,
            L > 0 ==> self.ring() == L,
            L == 0 ==> self.ring() == 1,
            0 <= self.head_slot() < self.ring(),
            0 <= self.tail_slot() < self.ring(),
            self@.len() < L ==> self.tail_slot() == ring_back(self.head_slot(), self@.len() as int, self.ring()),
            self@.len() == L ==> self.tail_slot() == self.head_slot(),
    {
        self.head.lemma_wf();
        self.tail.lemma_wf();
    }

    /// An empty deque over the slots `buf`, with both cursors on the last slot.
    fn with_slots(buf: [I; L]) -> (r: Self)
        ensures
            r.wf(),
            r@.len() == 0,
            L > 0 ==> r.head_slot() == L - 1 && r.tail_slot() == L - 1,
    {
        let n: usize = if L == 0 { 1 } else { L };
        Self {
            buf,
            head: Cursor::new(n - 1, n, false),
            tail: Cursor::new(n - 1, n, false),
            full: false,
        }
    }

    pub fn capacity(&self) -> (r: usize)
        ensures
            r == L,
    {
        L
    }

    pub fn len(&self) -> (r: usize)
        requires
            self.wf(),
        ensures
            r == self@.len(),
    {
        proof { self.head.lemma_wf(); self.tail.lemma_wf(); }
        if self.full {
            L
        } else if self.head.pos() >= self.tail.pos() {
            self.head.pos() - self.tail.pos()
        } else {
            L - (self.tail.pos() - self.head.pos())
        }
    }

    pub fn is_empty(&self) -> (r: bool)
        requires
            self.wf(),
        ensures
            r == (self@.len() == 0),
    {
        self.len() == 0
    }

    pub fn is_full(&self) -> (r: bool)
        requires
            self.wf(),
        ensures
            r == (self@.len() == L),
    {
        self.len() == self.capacity()
    }
    /// Appends `item` at the back. A full deque is left as it is and the
    /// push fails; a push onto a deque one short of full makes it full.
    pub fn push_back(&mut self, item: I) -> (r: Result<(), DequeError>)
        requires
            old(self).wf(),
        ensures
            final(self).wf(),
            old(self)@.len() == L ==> r == Err::<(), DequeError>(DequeError::Fatal) && *final(self) == *old(self),
            old(self)@.len() < L ==> r == Ok::<(), DequeError>(()) && final(self)@ == old(self)@.push(item),
            old(self)@.len() + 1 == L ==> final(self)@.len() == L,
            final(self).ring() == old(self).ring(),
            final(self).head_slot() == old(self).head_slot(),
            old(self)@.len() < L ==> final(self).tail_slot() == ring_back(old(self).tail_slot(), 1, old(self).ring()),
    {
        if self.is_full() {
            return Err(DequeError::Fatal);
        }
        let ghost pre = *self;
        proof { pre.lemma_wf(); }
        let t = self.tail.pos();
        self.buf[t] = item;
        self.tail.next();
        if self.tail.pos() == self.head.pos() {
            self.full = true;
        }
        proof {
            let n = pre@.len() as int;
            let rr = pre.ring();
            assert(self.spec_len() == n + 1);
            assert forall|k: int| 0 <= k < n + 1 implies #[trigger] self@[k] == pre@.push(item)[k] by {
                if k < n {
                    assert(ring_back(pre.head_slot(), k, rr) != t);
                }
            }
            assert(self@ =~= pre@.push(item));
        }
        Ok(())
    }

    /// Puts `item` in front of the first item. A full deque is left as it is
    /// and the push fails.
    pub fn push_front(&mut self, item: I) -> (r: Result<(), DequeError>)
        requires
            old(self).wf(),
        ensures
            final(self).wf(),
            old(self)@.len() == L ==> r == Err::<(), DequeError>(DequeError::Fatal) && *final(self) == *old(self),
            old(self)@.len() < L ==> r == Ok::<(), DequeError>(()) && final(self)@ == seq![item] + old(self)@,
            old(self)@.len() + 1 == L ==> final(self)@.len() == L,
            final(self).ring() == old(self).ring(),
            final(self).tail_slot() == old(self).tail_slot(),
            old(self)@.len() < L ==> final(self).head_slot() == ring_fwd(old(self).head_slot(), 1, old(self).ring()),
    {
        if self.is_full() {
            return Err(DequeError::Fatal);
        }
        let ghost pre = *self;
        proof { pre.lemma_wf(); }
        self.head.prev();
        let h = self.head.pos();
        self.buf[h] = item;
        if self.tail.pos() == self.head.pos() {
            self.full = true;
        }
        proof {
            let n = pre@.len() as int;
            let rr = pre.ring();
            assert(h == ring_fwd(pre.head_slot(), 1, rr));
            assert(self.spec_len() == n + 1);
            assert forall|k: int| 0 <= k < n + 1 implies #[trigger] self@[k] == (seq![item] + pre@)[k] by {
                if k > 0 {
                    assert(ring_back(h as int, k, rr) == ring_back(pre.head_slot(), k - 1, rr));
                    assert(ring_back(h as int, k, rr) != h);
                }
            }
            assert(self@ =~= seq![item] + pre@);
        }
        Ok(())
    }

    /// Removes and returns the last item, or `None` when the deque is empty.
    pub fn pop_back(&mut self) -> (r: Option<I>)
        requires
            old(self).wf(),
        ensures
            final(self).wf(),
            old(self)@.len() == 0 ==> r == None::<I> && *final(self) == *old(self),
            old(self)@.len() > 0 ==> r == Some(old(self)@.last()) && final(self)@ == old(self)@.drop_last(),
            (r, final(self)@) == back_step(old(self)@),
            final(self).ring() == old(self).ring(),
            final(self).head_slot() == old(self).head_slot(),
            old(self)@.len() > 0 ==> final(self).tail_slot() == ring_fwd(old(self).tail_slot(), 1, old(self).ring()),
    {
        if self.is_empty() {
            return None;
        }
        let ghost pre = *self;
        proof { pre.lemma_wf(); }
        self.tail.prev();
        self.full = false;
        let item = self.buf[self.tail.pos()];
        proof {
            let n = pre@.len() as int;
            let rr = pre.ring();
            assert(self.tail_slot() == ring_back(pre.head_slot(), n - 1, rr));
            assert(self.spec_len() == n - 1);
            assert(self@ =~= pre@.drop_last());
        }
        Some(item)
    }

    /// Removes and returns the first item, or `None` when the deque is empty.
    pub fn pop_front(&mut self) -> (r: Option<I>)
        requires
            old(self).wf(),
        ensures
            final(self).wf(),
            old(self)@.len() == 0 ==> r == None::<I> && *final(self) == *old(self),
            old(self)@.len() > 0 ==> r == Some(old(self)@[0]) && final(self)@ == old(self)@.drop_first(),
            (r, final(self)@) == front_step(old(self)@),
            final(self).ring() == old(self).ring(),
            final(self).tail_slot() == old(self).tail_slot(),
            old(self)@.len() > 0 ==> final(self).head_slot() == ring_back(old(self).head_slot(), 1, old(self).ring()),
    {
        if self.is_empty() {
            return None;
        }
        let ghost pre = *self;
        proof { pre.lemma_wf(); }
        let item = self.buf[self.head.pos()];
        self.head.next();
        self.full = false;
        proof {
            let n = pre@.len() as int;
            let rr = pre.ring();
            assert(self.spec_len() == n - 1);
            assert forall|k: int| 0 <= k < n - 1 implies #[trigger] self@[k] == pre@.drop_first()[k] by {
                assert(ring_back(self.head_slot(), k, rr) == ring_back(pre.head_slot(), k + 1, rr));
            }
            assert(self@ =~= pre@.drop_first());
        }
        Some(item)
    }

    /// The front boundary: the slot the next `push_front` writes, and `true`
    /// for a free slot; on a full deque (of at least one slot), the slot of
    /// the front item and `false`.
    pub open spec fn get_front_spec(&self) -> (usize, bool) {
        if 0 < L && self@.len() == L {
            (self.head_slot() as usize, false)
        } else {
            (ring_fwd(self.head_slot(), 1, self.ring()) as usize, true)
        }
    }

    /// The back boundary: the slot the next `push_back` writes, and `true`
    /// for a free slot; on a full deque (of at least one slot), the slot of
    /// the last item and `false`.
    pub open spec fn get_back_spec(&self) -> (usize, bool) {
        if 0 < L && self@.len() == L {
            (ring_fwd(self.tail_slot(), 1, self.ring()) as usize, false)
        } else {
            (self.tail_slot() as usize, true)
        }
    }

    /// See `get_front_spec`.
    pub fn get_front(&self) -> (r: (usize, bool))
        requires
            self.wf(),
        ensures
            r == self.get_front_spec(),
    {
        proof { self.lemma_wf(); }
        if self.full {
            (self.head.pos(), false)
        } else {
            let mut c = self.head;
            c.prev();
            (c.pos(), true)
        }
    }

    /// See `get_back_spec`.
    pub fn get_back(&self) -> (r: (usize, bool))
        requires
            self.wf(),
        ensures
            r == self.get_back_spec(),
    {
        proof { self.lemma_wf(); }
        if self.full {
            let mut c = self.tail;
            c.prev();
            (c.pos(), false)
        } else {
            (self.tail.pos(), true)
        }
    }
    /// Appends `item` at the back; on a full deque the front item is dropped
    /// first to make room. Never fails: the deque keeps the newest `L` items.
    pub fn push_overwrite(&mut self, item: I)
        requires
            old(self).wf(),
        ensures
            final(self).wf(),
            final(self)@ == keep_last(old(self)@.push(item), L as nat),
    {
        let ghost pre = self@;
        proof { self.lemma_wf(); }
        if self.is_full() {
            let _ = self.pop_front();
        }
        let _ = self.push_back(item);
        proof {
            if pre.len() == L && L > 0 {
                assert(self@ =~= keep_last(pre.push(item), L as nat));
            } else if L == 0 {
                assert(self@ =~= keep_last(pre.push(item), L as nat));
            }
        }
    }

    /// Appends all of `items` at the back as one chunk. Where the free slots do
    /// not suffice, exactly as many front items as needed are dropped first; a
    /// chunk longer than the capacity leaves its own last `L` items.
    pub fn extend_overwrite(&mut self, items: &[I])
        requires
            old(self).wf(),
        ensures
            final(self).wf(),
            final(self)@ == keep_last(old(self)@ + items@, L as nat),
    {
        let ghost pre = self@;
        proof {
            assert(pre + items@.take(0) =~= pre);
            self.lemma_wf();
        }
        let mut i: usize = 0;
        while i < items.len()
            invariant
                self.wf(),
                i <= items@.len(),
                self@ == keep_last(pre + items@.take(i as int), L as nat),
            decreases items@.len() - i,
        {
            self.push_overwrite(items[i]);
            proof {
                lemma_keep_last_push(pre + items@.take(i as int), items@[i as int], L as nat);
                assert((pre + items@.take(i as int)).push(items@[i as int]) =~= pre + items@.take(i + 1));
            }
            i += 1;
        }
        proof {
            assert(items@.take(i as int) =~= items@);
        }
    }
}

impl<I: Copy, const L: usize> Deque<I, L> {
    /// An empty deque whose slot `i` starts out as `ctor(i)`; `ctor` is called
    /// once for each slot, in index order.
    pub fn new<F: Fn(usize) -> I>(ctor: F) -> (r: Self)
        requires
            L > 0,
            forall|i: usize| i < L ==> ctor.requires((i,)),
        ensures
            r.wf(),
            r@.len() == 0,
            r.head_slot() == L - 1,
            r.tail_slot() == L - 1,
    {
        let mut buf = [ctor(0); L];
        let mut i: usize = 1;
        while i < L
            invariant
                1 <= i <= L,
                forall|j: usize| j < L ==> ctor.requires((j,)),
            decreases L - i,
        {
            buf[i] = ctor(i);
            i += 1;
        }
        Self::with_slots(buf)
    }
}

impl<I: Copy + Default, const L: usize> Deque<I, L> {
    /// A deque holding `items` from front to back, pushed one by one at the
    /// back; items past the capacity are left out.
    pub fn from_iter(items: &[I]) -> (r: Self)
        ensures
            r.wf(),
            r@ == items@.take(if items@.len() <= L { items@.len() as int } else { L as int }),
    {
        let mut d = Self::default();
        let mut i: usize = 0;
        while i < items.len()
            invariant
                d.wf(),
                i <= items@.len(),
                d@ == items@.take(if i <= L { i as int } else { L as int }),
            decreases items@.len() - i,
        {
            let _ = d.push_back(items[i]);
            proof {
                if i < L {
                    assert(items@.take(i as int).push(items@[i as int]) =~= items@.take(i + 1));
                }
            }
            i += 1;
        }
        d
    }
}

impl<I: Copy + Default, const L: usize> Default for Deque<I, L> {
    /// An empty deque with default slots and both cursors on the last slot.
    fn default() -> (r: Self)
        ensures
            r.wf(),
            r@.len() == 0,
            L > 0 ==> r.head_slot() == L - 1 && r.tail_slot() == L - 1,
    {
        Self::with_slots([I::default(); L])
    }
}

/// A walk over the slots of a deque's items from both ends at once: `front`
/// steps towards lower slots from the first item, `back` towards higher slots
/// from the last one, and `end` is set once the two have met and the meeting
/// slot was handed out.
#[derive(Clone, Copy, Debug)]
pub struct Iter {
    front: Cursor,
    back: Cursor,
    max: usize,
    end: bool,
}

impl Iter {
    pub closed spec fn ring(&self) -> int {
        self.front.ring()
    }

    pub closed spec fn front_slot(&self) -> int {
        self.front.index()
    }

    pub closed spec fn back_slot(&self) -> int {
        self.back.index()
    }

    /// How many slots are left to hand out.
    pub closed spec fn remaining(&self) -> nat {
        if self.end {
            0
        } else {
            (ring_back(self.front.index(), self.back.index(), self.ring()) + 1) as nat
        }
    }

    /// The `k`-th slot left, counted from the front.
    pub closed spec fn slot(&self, k: int) -> int {
        ring_back(self.front.index(), k, self.ring())
    }

    pub closed spec fn wf(&self) -> bool {
        &&& self.front.wf()
        &&& self.back.wf()
        &&& !self.front.inc()
        &&& self.back.inc()
        &&& self.back.ring() == self.front.ring()
        &&& self.max + 1 == self.front.ring()
        &&& self.end ==> self.front.index() == self.back.index()
    }

    pub proof fn lemma_wf(&self)
        requires
            self.wf(),
        ensures
            0 < self.ring() <= usize::MAX,
            self.remaining() <= self.ring(),
            0 <= self.front_slot() < self.ring(),
            0 <= self.back_slot() < self.ring(),
            forall|k: int| 0 <= k < self.remaining() ==> 0 <= #[trigger] self.slot(k) < self.ring(),
    {
        self.front.lemma_wf();
        self.back.lemma_wf();
    }

    /// A walk between `front` and `back` on a ring of `len` slots; `end`
    /// makes it a walk with nothing left.
    pub fn new(front: Cursor, back: Cursor, len: usize, end: bool) -> (r: Self)
        requires
            front.wf(),
            back.wf(),
            !front.inc(),
            back.inc(),
            front.ring() == len,
            back.ring() == len,
            end ==> front.index() == back.index(),
        ensures
            r.wf(),
            r.ring() == len,
            r.front_slot() == front.index(),
            r.back_slot() == back.index(),
            end ==> r.remaining() == 0,
            !end ==> r.remaining() == ring_back(front.index(), back.index(), len as int) + 1,
    {
        proof { front.lemma_wf(); back.lemma_wf(); }
        Self { front, back, max: len - 1, end }
    }

    pub fn get_front(&self) -> (r: usize)
        ensures
            r == self.front_slot(),
    {
        self.front.pos()
    }

    pub fn get_back(&self) -> (r: usize)
        ensures
            r == self.back_slot(),
    {
        self.back.pos()
    }

    pub fn len(&self) -> (r: usize)
        requires
            self.wf(),
        ensures
            r == self.remaining(),
    {
        proof { self.lemma_wf(); }
        if self.end {
            0
        } else if self.back.pos() <= self.front.pos() {
            self.front.pos() - self.back.pos() + 1
        } else {
            self.max - (self.back.pos() - self.front.pos()) + 2
        }
    }

    /// Hands out the front slot. The last slot is handed out in place: both
    /// cursors stay on it.
    pub fn next(&mut self) -> (r: Option<usize>)
        requires
            old(self).wf(),
        ensures
            final(self).wf(),
            final(self).ring() == old(self).ring(),
            old(self).remaining() == 0 ==> r is None && *final(self) == *old(self),
            old(self).remaining() > 0 ==> r == Some(old(self).slot(0) as usize),
            old(self).remaining() > 0 ==> final(self).remaining() == old(self).remaining() - 1,
            forall|k: int| 0 <= k < final(self).remaining() ==> #[trigger] final(self).slot(k) == old(self).slot(k + 1),
            final(self).back_slot() == old(self).back_slot(),
            old(self).remaining() > 1 ==> final(self).front_slot() == ring_back(old(self).front_slot(), 1, old(self).ring()),
            old(self).remaining() <= 1 ==> final(self).front_slot() == old(self).front_slot(),
    {
        proof { self.lemma_wf(); }
        if self.end {
            return None;
        }
        let res = self.front.pos();
        if self.len() == 1 {
            self.end = true;
            return Some(res);
        }
        self.front.next();
        Some(res)
    }

    /// Hands out the back slot. The last slot is handed out in place: both
    /// cursors stay on it.
    pub fn prev(&mut self) -> (r: Option<usize>)
        requires
            old(self).wf(),
        ensures
            final(self).wf(),
            final(self).ring() == old(self).ring(),
            final(self).front_slot() == old(self).front_slot(),
            old(self).remaining() == 0 ==> r is None && *final(self) == *old(self),
            old(self).remaining() > 0 ==> r == Some(old(self).slot(old(self).remaining() - 1) as usize),
            old(self).remaining() > 0 ==> final(self).remaining() == old(self).remaining() - 1,
            old(self).remaining() > 1 ==> final(self).back_slot() == ring_fwd(old(self).back_slot(), 1, old(self).ring()),
            old(self).remaining() <= 1 ==> final(self).back_slot() == old(self).back_slot(),
    {
        proof { self.lemma_wf(); }
        if self.end {
            return None;
        }
        let res = self.back.pos();
        if self.len() == 1 {
            self.end = true;
            return Some(res);
        }
        self.back.next();
        Some(res)
    }
}

impl<I: Copy, const L: usize> Deque<I, L> {
    /// A walk over the slots of the items, first to last.
    fn walk(&self) -> (r: Iter)
        requires
            self.wf(),
        ensures
            r.wf(),
            r.ring() == self.ring(),
            r.remaining() == self@.len(),
            r.front_slot() == self.head_slot(),
            self@.len() == 0 ==> r.back_slot() == self.tail_slot(),
            self@.len() > 0 ==> r.back_slot() == ring_fwd(self.tail_slot(), 1, self.ring()),
            forall|k: int| 0 <= k < self@.len() ==> #[trigger] r.slot(k) == ring_back(self.head_slot(), k, self.ring()),
    {
        proof { self.lemma_wf(); }
        let n: usize = if L == 0 { 1 } else { L };
        let len = self.len();
        let front = Cursor::new(self.head.pos(), n, false);
        let mut back = Cursor::new(self.tail.pos(), n, true);
        if len == 0 {
            Iter::new(front, back, n, true)
        } else {
            back.next();
            Iter::new(front, back, n, false)
        }
    }

    /// An iterator that owns a copy of the deque and hands out its items
    /// from either end.
    pub fn into_iter(self) -> (r: DequeIter<I, L>)
        requires
            self.wf(),
        ensures
            r.wf(),
            r@ == self@,
            r.ring() == self.ring(),
            r.front_slot() == self.head_slot(),
            self@.len() == 0 ==> r.back_slot() == self.tail_slot(),
            self@.len() > 0 ==> r.back_slot() == ring_fwd(self.tail_slot(), 1, self.ring()),
    {
        proof { self.lemma_wf(); }
        let iter = self.walk();
        let r = DequeIter { deque: self, iter };
        proof { assert(r@ =~= self@); }
        r
    }

    /// An iterator over references to the items, from either end.
    pub fn iter(&self) -> (r: DequeRefIter<'_, I, L>)
        requires
            self.wf(),
        ensures
            r.wf(),
            r@ == self@,
    {
        proof { self.lemma_wf(); }
        let iter = self.walk();
        let r = DequeRefIter { deque: self, iter };
        proof { assert(r@ =~= self@); }
        r
    }

    /// The items as two runs of the backing array, without copying: read
    /// each run from its end to its start, the first run and then the second
    /// give the items from front to back. The second run is empty unless the
    /// items wrap past slot zero.
    pub fn as_slices(&self) -> (r: (&[I], &[I]))
        requires
            self.wf(),
        ensures
            self@ == r.0@.reverse() + r.1@.reverse(),
            r.0@.len() + r.1@.len() == self@.len(),
            r.1@.len() > 0 ==> r.0@.len() == self.head_slot() + 1,
    {
        proof { self.lemma_wf(); }
        let all = self.buf.as_slice();
        let len = self.len();
        if len == 0 {
            let r = (slice_subrange(all, 0, 0), slice_subrange(all, 0, 0));
            proof { assert(self@ =~= r.0@.reverse() + r.1@.reverse()); }
            return r;
        }
        let h = self.head.pos();
        if len <= h + 1 {
            let r = (slice_subrange(all, h + 1 - len, h + 1), slice_subrange(all, 0, 0));
            proof { assert(self@ =~= r.0@.reverse() + r.1@.reverse()); }
            r
        } else {
            let r = (slice_subrange(all, 0, h + 1), slice_subrange(all, L - (len - h - 1), L));
            proof {
                let a = r.0@.reverse();
                let b = r.1@.reverse();
                assert forall|k: int| 0 <= k < len implies #[trigger] self@[k] == (a + b)[k] by {
                    if k > h {
                        assert(ring_back(h as int, k, L as int) == L - (k - h));
                    }
                }
                assert(self@ =~= a + b);
            }
            r
        }
    }
}

/// An iterator that owns a copy of a deque. `next` and `next_back` hand out
/// the items from the two ends and meet in the middle; each item comes out
/// once.
#[derive(Clone, Copy, Debug)]
pub struct DequeIter<I, const L: usize> {
    deque: Deque<I, L>,
    iter: Iter,
}

impl<I: Copy, const L: usize> View for DequeIter<I, L> {
    type V = Seq<I>;

    /// The items not handed out yet, from front to back.
    closed spec fn view(&self) -> Seq<I> {
        Seq::new(self.iter.remaining(), |k: int| self.deque.buf@[self.iter.slot(k)])
    }
}

impl<I: Copy, const L: usize> DequeIter<I, L> {
    pub closed spec fn wf(&self) -> bool {
        &&& self.deque.wf()
        &&& self.iter.wf()
        &&& self.iter.ring() == self.deque.ring()
        &&& self.iter.remaining() <= L
    }

    /// The number of slots of the deque's ring.
    pub closed spec fn ring(&self) -> int {
        self.iter.ring()
    }

    pub closed spec fn front_slot(&self) -> int {
        self.iter.front_slot()
    }

    pub closed spec fn back_slot(&self) -> int {
        self.iter.back_slot()
    }

    /// The slot of the next item from the front.
    pub fn get_front(&self) -> (r: usize)
        ensures
            r == self.front_slot(),
    {
        self.iter.get_front()
    }

    /// The slot of the next item from the back.
    pub fn get_back(&self) -> (r: usize)
        ensures
            r == self.back_slot(),
    {
        self.iter.get_back()
    }

    pub fn next(&mut self) -> (r: Option<I>)
        requires
            old(self).wf(),
        ensures
            final(self).wf(),
            (r, final(self)@) == front_step(old(self)@),
            final(self).ring() == old(self).ring(),
            final(self).back_slot() == old(self).back_slot(),
            old(self)@.len() > 1 ==> final(self).front_slot() == ring_back(old(self).front_slot(), 1, old(self).ring()),
            old(self)@.len() <= 1 ==> final(self).front_slot() == old(self).front_slot(),
    {
        proof { self.iter.lemma_wf(); self.deque.lemma_wf(); }
        let ghost pre = self@;
        match self.iter.next() {
            None => None,
            Some(idx) => {
                let item = self.deque.buf[idx];
                proof { assert(self@ =~= pre.drop_first()); }
                Some(item)
            },
        }
    }

    pub fn next_back(&mut self) -> (r: Option<I>)
        requires
            old(self).wf(),
        ensures
            final(self).wf(),
            (r, final(self)@) == back_step(old(self)@),
            final(self).ring() == old(self).ring(),
            final(self).front_slot() == old(self).front_slot(),
            old(self)@.len() > 1 ==> final(self).back_slot() == ring_fwd(old(self).back_slot(), 1, old(self).ring()),
            old(self)@.len() <= 1 ==> final(self).back_slot() == old(self).back_slot(),
    {
        proof { self.iter.lemma_wf(); self.deque.lemma_wf(); }
        let ghost pre = self@;
        match self.iter.prev() {
            None => None,
            Some(idx) => {
                let item = self.deque.buf[idx];
                proof { assert(self@ =~= pre.drop_last()); }
                Some(item)
            },
        }
    }

    /// The exact number of items left, as a lower and an upper bound.
    pub fn size_hint(&self) -> (r: (usize, Option<usize>))
        requires
            self.wf(),
        ensures
            r == (self@.len() as usize, Some(self@.len() as usize)),
    {
        let n = self.iter.len();
        (n, Some(n))
    }
}

/// An iterator over references to the items of a borrowed deque, from
/// either end.
pub struct DequeRefIter<'a, I, const L: usize> {
    deque: &'a Deque<I, L>,
    iter: Iter,
}

impl<'a, I: Copy, const L: usize> View for DequeRefIter<'a, I, L> {
    type V = Seq<I>;

    /// The items not handed out yet, from front to back.
    closed spec fn view(&self) -> Seq<I> {
        Seq::new(self.iter.remaining(), |k: int| self.deque.buf@[self.iter.slot(k)])
    }
}

impl<'a, I: Copy, const L: usize> DequeRefIter<'a, I, L> {
    pub closed spec fn wf(&self) -> bool {
        &&& self.deque.wf()
        &&& self.iter.wf()
        &&& self.iter.ring() == self.deque.ring()
        &&& self.iter.remaining() <= L
    }

    pub fn next(&mut self) -> (r: Option<&'a I>)
        requires
            old(self).wf(),
        ensures
            final(self).wf(),
            old(self)@.len() == 0 ==> r is None && final(self)@ == old(self)@,
            old(self)@.len() > 0 ==> r == Some(&old(self)@[0]) && final(self)@ == old(self)@.drop_first(),
    {
        proof { self.iter.lemma_wf(); self.deque.lemma_wf(); }
        let ghost pre = self@;
        match self.iter.next() {
            None => None,
            Some(idx) => {
                let item = &self.deque.buf[idx];
                proof { assert(self@ =~= pre.drop_first()); }
                Some(item)
            },
        }
    }

    pub fn next_back(&mut self) -> (r: Option<&'a I>)
        requires
            old(self).wf(),
        ensures
            final(self).wf(),
            old(self)@.len() == 0 ==> r is None && final(self)@ == old(self)@,
            old(self)@.len() > 0 ==> r == Some(&old(self)@.last()) && final(self)@ == old(self)@.drop_last(),
    {
        proof { self.iter.lemma_wf(); self.deque.lemma_wf(); }
        let ghost pre = self@;
        match self.iter.prev() {
            None => None,
            Some(idx) => {
                let item = &self.deque.buf[idx];
                proof { assert(self@ =~= pre.drop_last()); }
                Some(item)
            },
        }
    }

    /// The exact number of items left, as a lower and an upper bound.
    pub fn size_hint(&self) -> (r: (usize, Option<usize>))
        requires
            self.wf(),
        ensures
            r == (self@.len() as usize, Some(self@.len() as usize)),
    {
        let n = self.iter.len();
        (n, Some(n))
    }
}

impl<I: Copy, const L: usize> Deque<I, L> {
    /// Whether the cursors and the flag are in one of the states the
    /// operations keep them in.
    fn is_valid(&self) -> (r: bool)
        ensures
            r == self.wf(),
    {
        if !self.head.is_valid() || !self.tail.is_valid() || self.head.is_inc() || self.tail.is_inc() {
            return false;
        }
        let n = self.head.ring_len();
        if self.tail.ring_len() != n {
            return false;
        }
        let shape = if L == 0 {
            n == 1 && self.head.pos() == 0 && self.tail.pos() == 0 && !self.full
        } else {
            n == L
        };
        shape && (!self.full || self.head.pos() == self.tail.pos())
    }

    /// The item at position `index` counted from the front, if there is one.
    pub fn get(&self, index: usize) -> (r: Option<&I>)
        requires
            self.wf(),
        ensures
            index < self@.len() ==> r == Some(&self@[index as int]),
            index >= self@.len() ==> r is None,
    {
        proof { self.lemma_wf(); }
        if index >= self.len() {
            return None;
        }
        let h = self.head.pos();
        let slot = if h >= index { h - index } else { L - (index - h) };
        Some(&self.buf[slot])
    }
}

impl<I: Copy + PartialEq, const L: usize> PartialEq for Deque<I, L> {
    /// Compares the items in order from the front; where the items sit in
    /// the two arrays plays no part.
    fn eq(&self, other: &Self) -> (r: bool) {
        if !self.is_valid() || !other.is_valid() {
            return false;
        }
        let n = self.len();
        if n != other.len() {
            return false;
        }
        let mut k: usize = 0;
        while k < n
            invariant
                self.wf(),
                other.wf(),
                n == self@.len(),
                n == other@.len(),
                k <= n,
                I::obeys_eq_spec() ==> forall|j: int| 0 <= j < k ==> #[trigger] self@[j].eq_spec(&other@[j]),
            decreases n - k,
        {
            let x = self.get(k).unwrap();
            let y = other.get(k).unwrap();
            if !x.eq(y) {
                return false;
            }
            k += 1;
        }
        true
    }
}

impl<I: Copy + PartialEq, const L: usize> vstd::std_specs::cmp::PartialEqSpecImpl for Deque<I, L> {
    open spec fn obeys_eq_spec() -> bool {
        I::obeys_eq_spec()
    }

    open spec fn eq_spec(&self, other: &Self) -> bool {
        &&& self.wf()
        &&& other.wf()
        &&& self@.len() == other@.len()
        &&& forall|k: int| 0 <= k < self@.len() ==> #[trigger] self@[k].eq_spec(&other@[k])
    }
}

} // verus!
