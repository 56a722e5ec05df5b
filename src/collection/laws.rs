//! Laws that relate several operations of `Deque` and its iterators, stated
//! over the sequences their contracts speak of.

use vstd::prelude::*;
use vstd::std_specs::cmp::PartialEqSpec;
use crate::collection::deque::{Deque, DequeIter, back_step, front_step, keep_last, lemma_keep_last_push};

verus! {

/// What `push_back` makes of `s` when handed `items` one at a time with room
/// for all of them.
pub open spec fn push_back_all<A>(s: Seq<A>, items: Seq<A>) -> Seq<A>
    decreases items.len(),
{
    if items.len() == 0 {
        s
    } else {
        push_back_all(s.push(items[0]), items.drop_first())
    }
}

/// What `push_front` makes of `s` when handed `items` one at a time with room
/// for all of them.
pub open spec fn push_front_all<A>(s: Seq<A>, items: Seq<A>) -> Seq<A>
    decreases items.len(),
{
    if items.len() == 0 {
        s
    } else {
        push_front_all(seq![items[0]] + s, items.drop_first())
    }
}

/// What `push_overwrite` makes of `s` on a deque of capacity `n` when handed
/// `items` one at a time.
pub open spec fn overwrite_all<A>(s: Seq<A>, items: Seq<A>, n: nat) -> Seq<A>
    decreases items.len(),
{
    if items.len() == 0 {
        s
    } else {
        overwrite_all(keep_last(s.push(items[0]), n), items.drop_first(), n)
    }
}

/// The values that `n` front steps (`pop_front`, or `next` of an iterator)
/// hand out, starting from `s`.
pub open spec fn front_outputs<A>(s: Seq<A>, n: nat) -> Seq<Option<A>>
    decreases n,
{
    if n == 0 {
        Seq::empty()
    } else {
        seq![front_step(s).0] + front_outputs(front_step(s).1, (n - 1) as nat)
    }
}

/// What is left of `s` after `n` front steps.
pub open spec fn front_rest<A>(s: Seq<A>, n: nat) -> Seq<A>
    decreases n,
{
    if n == 0 {
        s
    } else {
        front_rest(front_step(s).1, (n - 1) as nat)
    }
}

/// The values that `n` back steps (`pop_back`, or `next_back` of an
/// iterator) hand out, starting from `s`.
pub open spec fn back_outputs<A>(s: Seq<A>, n: nat) -> Seq<Option<A>>
    decreases n,
{
    if n == 0 {
        Seq::empty()
    } else {
        seq![back_step(s).0] + back_outputs(back_step(s).1, (n - 1) as nat)
    }
}

/// What is left of `s` after `n` back steps.
pub open spec fn back_rest<A>(s: Seq<A>, n: nat) -> Seq<A>
    decreases n,
{
    if n == 0 {
        s
    } else {
        back_rest(back_step(s).1, (n - 1) as nat)
    }
}

/// The items of `s`, each wrapped in `Some`, then `None` up to length `n`.
pub open spec fn somes_then_none<A>(s: Seq<A>, n: nat) -> Seq<Option<A>> {
    Seq::new(n, |i: int| if i < s.len() { Some(s[i]) } else { None })
}

/// A deque never holds more items than its capacity, and it is full exactly
/// when it holds that many: when its boundary getters report no free slot.
pub proof fn lemma_len_within_capacity<I: Copy, const L: usize>(d: Deque<I, L>)
    requires
        d.wf(),
    ensures
        0 <= d@.len() <= L,
        L > 0 ==> (d@.len() == L <==> !d.get_front_spec().1),
        L > 0 ==> (d@.len() == L <==> !d.get_back_spec().1),
{
    d.lemma_wf();
}

/// Popping from the front hands out the items in order, then `None`.
pub proof fn lemma_front_outputs<A>(s: Seq<A>, n: nat)
    ensures
        front_outputs(s, n) == somes_then_none(s, n),
        front_rest(s, n) == s.skip(if n <= s.len() { n as int } else { s.len() as int }),
    decreases n,
{
    if n > 0 {
        lemma_front_outputs(front_step(s).1, (n - 1) as nat);
        if s.len() > 0 {
            assert(front_rest(s, n) =~= s.skip(if n <= s.len() { n as int } else { s.len() as int }));
        }
        assert(front_outputs(s, n) =~= somes_then_none(s, n));
    } else {
        assert(s.skip(0) =~= s);
    }
}

/// Popping from the back hands out the items last first, then `None`.
pub proof fn lemma_back_outputs<A>(s: Seq<A>, n: nat)
    ensures
        back_outputs(s, n) == somes_then_none(s.reverse(), n),
        back_rest(s, n) == s.take(if n <= s.len() { s.len() - n } else { 0 }),
    decreases n,
{
    if n > 0 {
        lemma_back_outputs(back_step(s).1, (n - 1) as nat);
        if s.len() > 0 {
            assert(back_rest(s, n) =~= s.take(if n <= s.len() { s.len() - n } else { 0 }));
            assert(s.drop_last().reverse() =~= s.reverse().drop_first());
        }
        assert(back_outputs(s, n) =~= somes_then_none(s.reverse(), n));
    } else {
        assert(s.take(s.len() as int) =~= s);
    }
}

/// Appending one item at a time at the back appends them all.
pub proof fn lemma_push_back_all<A>(s: Seq<A>, items: Seq<A>)
    ensures
        push_back_all(s, items) == s + items,
    decreases items.len(),
{
    if items.len() > 0 {
        lemma_push_back_all(s.push(items[0]), items.drop_first());
        assert(s.push(items[0]) + items.drop_first() =~= s + items);
    } else {
        assert(s + items =~= s);
    }
}

/// Putting one item at a time in front puts them all in front, last first.
pub proof fn lemma_push_front_all<A>(s: Seq<A>, items: Seq<A>)
    ensures
        push_front_all(s, items) == items.reverse() + s,
    decreases items.len(),
{
    if items.len() > 0 {
        lemma_push_front_all(seq![items[0]] + s, items.drop_first());
        assert(items.drop_first().reverse() + (seq![items[0]] + s) =~= items.reverse() + s);
    } else {
        assert(items.reverse() + s =~= s);
    }
}

/// Items pushed at the back of an empty deque come out of the front in the
/// order they went in; items pushed at the front come out of the front in
/// the reverse order.
pub proof fn lemma_round_trip_order<A>(items: Seq<A>)
    ensures
        front_outputs(push_back_all(Seq::empty(), items), items.len()) == somes_then_none(items, items.len()),
        front_outputs(push_front_all(Seq::empty(), items), items.len()) == somes_then_none(
            items.reverse(),
            items.len(),
        ),
{
    lemma_push_back_all(Seq::<A>::empty(), items);
    lemma_push_front_all(Seq::<A>::empty(), items);
    assert(Seq::<A>::empty() + items =~= items);
    assert(items.reverse() + Seq::<A>::empty() =~= items.reverse());
    lemma_front_outputs(items, items.len());
    lemma_front_outputs(items.reverse(), items.len());
}

/// Deques compare equal exactly when they hold equal items in the same
/// order, wherever those items sit in their arrays.
pub proof fn lemma_eq_ignores_rotation<I: Copy + PartialEq, const L: usize>(a: Deque<I, L>, b: Deque<I, L>)
    requires
        a.wf(),
        b.wf(),
        vstd::laws_eq::obeys_concrete_eq::<I>(),
    ensures
        a.eq_spec(&b) <==> a@ == b@,
{
    reveal(vstd::laws_eq::obeys_concrete_eq);
    if a@ == b@ {
        assert forall|k: int| 0 <= k < a@.len() implies #[trigger] a@[k].eq_spec(&b@[k]) by {}
    }
    if a.eq_spec(&b) {
        assert forall|k: int| 0 <= k < a@.len() implies a@[k] == b@[k] by {
            assert(a@[k].eq_spec(&b@[k]));
        }
        assert(a@ =~= b@);
    }
}

/// An iterator made from a deque hands out, step by step from the front,
/// exactly what popping the deque from the front hands out: its items in
/// order, then `None`.
pub proof fn lemma_iter_matches_pop_front<I: Copy, const L: usize>(d: Deque<I, L>, it: DequeIter<I, L>, n: nat)
    requires
        d.wf(),
        it.wf(),
        it@ == d@,
    ensures
        front_outputs(it@, n) == front_outputs(d@, n),
        front_outputs(d@, n) == somes_then_none(d@, n),
{
    lemma_front_outputs(d@, n);
}

/// Taking `m` items from the front and the other `k - m` from the back of `k`
/// items hands out each item once (front part in order, back part from the
/// end), and leaves nothing, so one more step at either end gives `None`.
pub proof fn lemma_double_ended_meet<A>(s: Seq<A>, m: nat)
    requires
        m <= s.len(),
    ensures
        front_outputs(s, m) == somes_then_none(s.take(m as int), m),
        back_outputs(front_rest(s, m), (s.len() - m) as nat) == somes_then_none(
            s.skip(m as int).reverse(),
            (s.len() - m) as nat,
        ),
        s.take(m as int) + s.skip(m as int) == s,
        back_rest(front_rest(s, m), (s.len() - m) as nat).len() == 0,
        front_step(back_rest(front_rest(s, m), (s.len() - m) as nat)).0 is None,
        back_step(back_rest(front_rest(s, m), (s.len() - m) as nat)).0 is None,
{
    lemma_front_outputs(s, m);
    assert(front_outputs(s, m) =~= somes_then_none(s.take(m as int), m));
    lemma_back_outputs(s.skip(m as int), (s.len() - m) as nat);
    assert(s.take(m as int) + s.skip(m as int) =~= s);
}

/// Pushing with eviction keeps the newest `n` items, oldest first.
pub proof fn lemma_overwrite_all<A>(s: Seq<A>, items: Seq<A>, n: nat)
    requires
        s.len() <= n,
    ensures
        overwrite_all(s, items, n) == keep_last(s + items, n),
    decreases items.len(),
{
    if items.len() > 0 {
        lemma_overwrite_all(keep_last(s.push(items[0]), n), items.drop_first(), n);
        assert(s.push(items[0]) + items.drop_first() =~= s + items);
        lemma_keep_last_overwrite_chunk(s.push(items[0]), items.drop_first(), n);
    } else {
        assert(s + items =~= s);
    }
}

/// Trimming to the last `n` items before appending more keeps what trimming
/// afterwards keeps.
pub proof fn lemma_keep_last_overwrite_chunk<A>(s: Seq<A>, t: Seq<A>, n: nat)
    ensures
        keep_last(keep_last(s, n) + t, n) == keep_last(s + t, n),
    decreases t.len(),
{
    if s.len() > n {
        let u = keep_last(s, n) + t;
        let v = s + t;
        assert(u =~= v.subrange(s.len() - n, v.len() as int));
        assert(keep_last(u, n) =~= keep_last(v, n));
    }
}

/// Pushing `n + m` items (`m > 0`) one by one with eviction onto an empty
/// deque of capacity `n` leaves exactly the last `n` of them, oldest first.
pub proof fn lemma_eviction_keeps_newest<A>(items: Seq<A>, n: nat)
    requires
        items.len() > n,
    ensures
        overwrite_all(Seq::empty(), items, n) == items.subrange(items.len() - n, items.len() as int),
{
    lemma_overwrite_all(Seq::<A>::empty(), items, n);
    assert(Seq::<A>::empty() + items =~= items);
}

} // verus!
