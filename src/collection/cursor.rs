use vstd::prelude::*;

verus! {

/// The slot `k` steps before `p` on a ring of `n` slots (`0 <= p < n`, `0 <= k <= n`).
pub open spec fn ring_back(p: int, k: int, n: int) -> int {
    if p >= k {
        p - k
    } else {
        p - k + n
    }
}

/// The slot `k` steps after `p` on a ring of `n` slots (`0 <= p < n`, `0 <= k <= n`).
pub open spec fn ring_fwd(p: int, k: int, n: int) -> int {
    if p + k < n {
        p + k
    } else {
        p + k - n
    }
}

/// One step from `p` on a ring of `n` slots, towards higher indices when `inc` holds.
pub open spec fn ring_step(p: int, n: int, inc: bool) -> int {
    if inc {
        ring_fwd(p, 1, n)
    } else {
        ring_back(p, 1, n)
    }
}

/// An index into a ring of slots `[0, len)` that moves one slot at a time and
/// wraps around at either end. The direction of `next` is fixed when the
/// cursor is made; `prev` always undoes `next`.
#[derive(Clone, Copy, Debug)]
pub struct Cursor {
    pos: usize,
    max: usize,
    inc: bool,
}

impl Cursor {
    /// The cursor's slot.
    pub closed spec fn index(&self) -> int {
        self.pos as int
    }

    /// The number of slots of the ring.
    pub closed spec fn ring(&self) -> int {
        self.max + 1
    }

    /// Whether `next` moves towards higher indices.
    pub closed spec fn inc(&self) -> bool {
        self.inc
    }

    pub closed spec fn wf(&self) -> bool {
        &&& self.pos <= self.max
        &&& self.max < usize::MAX
    }

    pub proof fn lemma_wf(&self)
        requires
            self.wf(),
        ensures
            0 <= self.index() < self.ring() <= usize::MAX,
    {
    }

    /// A cursor on a ring of `len` slots. A position past the end is clamped
    /// to the last slot.
    pub fn new(pos: usize, len: usize, inc: bool) -> (r: Self)
        requires
            len > 0,
        ensures
            r.wf(),
            r.ring() == len,
            r.inc() == inc,
            r.index() == if pos < len { pos as int } else { len - 1 },
    {
        let max = len - 1;
        let pos = if pos < len { pos } else { max };
        Self { pos, max, inc }
    }

    pub fn pos(&self) -> (r: usize)
        ensures
            r == self.index(),
    {
        self.pos
    }

    /// Moves one slot in the cursor's direction.
    pub fn next(&mut self)
        requires
            old(self).wf(),
        ensures
            final(self).wf(),
            final(self).ring() == old(self).ring(),
            final(self).inc() == old(self).inc(),
            final(self).index() == ring_step(old(self).index(), old(self).ring(), old(self).inc()),
    {
        self.pos = if self.inc {
            if self.pos == self.max {
                0
            } else {
                self.pos + 1
            }
        } else {
            if self.pos == 0 {
                self.max
            } else {
                self.pos - 1
            }
        };
    }

    /// Moves one slot against the cursor's direction.
    pub fn prev(&mut self)
        requires
            old(self).wf(),
        ensures
            final(self).wf(),
            final(self).ring() == old(self).ring(),
            final(self).inc() == old(self).inc(),
            final(self).index() == ring_step(old(self).index(), old(self).ring(), !old(self).inc()),
    {
        self.pos = if self.inc {
            if self.pos == 0 {
                self.max
            } else {
                self.pos - 1
            }
        } else {
            if self.pos == self.max {
                0
            } else {
                self.pos + 1
            }
        };
    }
    /// Whether the cursor lies on its ring.
    pub fn is_valid(&self) -> (r: bool)
        ensures
            r == self.wf(),
    {
        self.pos <= self.max && self.max < usize::MAX
    }

    /// The number of slots of the ring.
    pub fn ring_len(&self) -> (r: usize)
        requires
            self.wf(),
        ensures
            r == self.ring(),
    {
        self.max + 1
    }

    /// Whether `next` moves towards higher indices.
    pub fn is_inc(&self) -> (r: bool)
        ensures
            r == self.inc(),
    {
        self.inc
    }
}

} // verus!
