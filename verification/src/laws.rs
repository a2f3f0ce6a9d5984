//! Laws that relate several operations: first-in first-out order across a
//! whole round trip, the distinguishability of "full" and "empty", and the
//! visibility of a peer's disconnection.

use vstd::prelude::*;

use crate::rb::LocalRb;

verus! {

/// The logical contents after pushing every element of `vs` in order,
/// oldest first, onto contents `s` — the view-level effect that the
/// contract of `try_push` gives to each successful push.
pub open spec fn after_pushes<T>(s: Seq<T>, vs: Seq<T>) -> Seq<T>
    decreases vs.len(),
{
    if vs.len() == 0 {
        s
    } else {
        after_pushes(s.push(vs[0]), vs.subrange(1, vs.len() as int))
    }
}

/// Pushing a sequence of elements appends it to the logical contents.
pub proof fn lemma_after_pushes_appends<T>(s: Seq<T>, vs: Seq<T>)
    ensures
        after_pushes(s, vs) == s + vs,
    decreases vs.len(),
{
    if vs.len() == 0 {
        assert(s + vs =~= s);
    } else {
        lemma_after_pushes_appends(s.push(vs[0]), vs.subrange(1, vs.len() as int));
        assert(s.push(vs[0]) + vs.subrange(1, vs.len() as int) =~= s + vs);
    }
}

/// Round trip: pushing the elements of `vs` into an empty buffer yields
/// exactly the contents `vs`, and the contract of `try_pop` returns the
/// elements of the contents front first — so popping `vs.len()` times
/// yields `vs` again, in the same order.
pub proof fn lemma_fifo_round_trip<T>(vs: Seq<T>)
    ensures
        after_pushes(Seq::<T>::empty(), vs) == vs,
        forall|k: int|
            0 <= k <= vs.len() ==> #[trigger] after_pushes(Seq::<T>::empty(), vs).subrange(0, k)
                == vs.subrange(0, k),
{
    lemma_after_pushes_appends(Seq::<T>::empty(), vs);
    assert(Seq::<T>::empty() + vs =~= vs);
}

/// The contents remaining after the `m` oldest elements are popped — the
/// view-level effect that the contract of `try_pop` gives to `m` successive
/// successful pops.
pub open spec fn after_pops<T>(s: Seq<T>, m: int) -> Seq<T>
    recommends
        0 <= m <= s.len(),
{
    s.subrange(m, s.len() as int)
}

/// Wraparound correctness: starting from any contents `s` — a full buffer
/// included — popping `m` elements and then pushing new ones preserves
/// first-in first-out order: the contents become the surviving suffix of
/// `s` followed by the new elements, in order. The physical wrap of the
/// positions past the end of storage is discharged inside the proofs of
/// `try_push` and `try_pop`, so it cannot disturb this logical sequence.
pub proof fn lemma_wraparound_order<T>(s: Seq<T>, vs: Seq<T>, m: int)
    requires
        0 <= m <= s.len(),
    ensures
        after_pushes(after_pops(s, m), vs) == s.subrange(m, s.len() as int) + vs,
{
    lemma_after_pushes_appends(after_pops(s, m), vs);
}

/// With a nonzero capacity, "empty" and "full" are distinct states, even
/// though both are detected from the two positions alone: a buffer with
/// exactly `capacity` net pushes is full and not empty, one with none is
/// empty and not full.
pub proof fn lemma_full_empty_disambiguation<T>(rb: LocalRb<T>)
    requires
        rb.wf(),
    ensures
        !(rb@.len() == 0 && rb@.len() == rb.cap()),
{
}

/// Disconnect visibility: once the consumer's hold is released, the
/// producer side observes closure, with no push or pop required first.
pub proof fn lemma_disconnect_visible<T>(rb: LocalRb<T>)
    requires
        !rb.read_held_spec(),
    ensures
        rb.producer_sees_closed(),
{
}

} // verus!
