//! The ring buffer for one execution context: storage plus a `read` end and
//! a `write` end, each an extended-domain position with a "held" flag.
//!
//! The logical contents are the slots in the circular range from `read` to
//! `write`; the invariant ties the `Some`/`None` state of every physical
//! slot to that range, so occupied slots always hold a value and vacant
//! slots never do.

use vstd::prelude::*;

use crate::storage::ContainerStorage;
use crate::storage::Storage;
use crate::utils::cyc_dist;
use crate::utils::ext_next;
use crate::utils::lemma_cyc_dist_of_wrap;
use crate::utils::lemma_wrap_add;
use crate::utils::projected;
use crate::utils::ranges;
use crate::utils::wrap_at;

verus! {

/// One end of the buffer: a position in the extended index domain and a
/// flag that is true while a live handle for this side exists.
pub struct End {
    pub index: usize,
    pub held: bool,
}

impl End {
    /// A fresh end at the given position, not yet held by any handle.
    pub fn new(index: usize) -> (r: Self)
        ensures
            r.index == index,
            !r.held,
    {
        End { index, held: false }
    }
}

/// Ring buffer for use within a single execution context.
pub struct LocalRb<T> {
    pub(crate) storage: ContainerStorage<T>,
    pub(crate) read: End,
    pub(crate) write: End,
}

impl<T> LocalRb<T> {
    /// The contents of every physical slot, vacant slots being `None`.
    pub closed spec fn slots(&self) -> Seq<Option<T>> {
        self.storage.contents()
    }

    /// The `read` position in the extended index domain.
    pub closed spec fn read_index_spec(&self) -> int {
        self.read.index as int
    }

    /// The `write` position in the extended index domain.
    pub closed spec fn write_index_spec(&self) -> int {
        self.write.index as int
    }

    /// Whether a live consumer handle exists.
    pub closed spec fn read_held_spec(&self) -> bool {
        self.read.held
    }

    /// Whether a live producer handle exists.
    pub closed spec fn write_held_spec(&self) -> bool {
        self.write.held
    }

    /// The fixed capacity: the number of physical slots.
    pub open spec fn cap(&self) -> int {
        self.slots().len() as int
    }

    /// The number of elements currently stored.
    pub open spec fn len_spec(&self) -> int {
        cyc_dist(self.read_index_spec(), self.write_index_spec(), 2 * self.cap())
    }

    /// The physical slot of the `read` position.
    pub open spec fn phys_read(&self) -> int {
        wrap_at(self.read_index_spec(), self.cap())
    }

    /// The physical slot of the `write` position.
    pub open spec fn phys_write(&self) -> int {
        wrap_at(self.write_index_spec(), self.cap())
    }

    /// Both positions lie in the extended domain and the distance between
    /// them never exceeds the capacity.
    pub open spec fn wf(&self) -> bool {
        &&& 1 <= self.cap()
        &&& 2 * self.cap() <= usize::MAX as int
        &&& 0 <= self.read_index_spec() < 2 * self.cap()
        &&& 0 <= self.write_index_spec() < 2 * self.cap()
        &&& 0 <= self.len_spec() <= self.cap()
    }

    /// Whether physical slot `j` lies in the occupied circular range.
    pub open spec fn slot_occupied(&self, j: int) -> bool {
        cyc_dist(self.phys_read(), j, self.cap()) < self.len_spec()
    }

    /// Slot partition: a physical slot holds a value exactly when it lies in
    /// the occupied circular range.
    pub open spec fn inv(&self) -> bool {
        &&& self.wf()
        &&& forall|j: int|
            0 <= j < self.cap() ==> ((#[trigger] self.slots()[j]) is Some <==> self.slot_occupied(j))
    }

    /// What the producer side observes as peer disconnection: no live
    /// consumer handle remains.
    pub open spec fn producer_sees_closed(&self) -> bool {
        !self.read_held_spec()
    }

    /// What the consumer side observes as peer disconnection: no live
    /// producer handle remains.
    pub open spec fn consumer_sees_closed(&self) -> bool {
        !self.write_held_spec()
    }
}

impl<T> View for LocalRb<T> {
    type V = Seq<T>;

    /// The logical contents, oldest element first.
    open spec fn view(&self) -> Seq<T> {
        Seq::new(
            self.len_spec() as nat,
            |i: int| self.slots()[wrap_at(self.phys_read() + i, self.cap())]->0,
        )
    }
}

impl<T> LocalRb<T> {
    /// A fresh buffer with the given capacity: empty, with both positions at
    /// the origin and neither side held.
    pub fn new(capacity: usize) -> (r: Self)
        requires
            1 <= capacity,
            capacity <= usize::MAX / 2,
        ensures
            r.inv(),
            r@ == Seq::<T>::empty(),
            r.cap() == capacity,
            r.read_index_spec() == 0,
            r.write_index_spec() == 0,
            !r.read_held_spec(),
            !r.write_held_spec(),
    {
        let mut container: Vec<Option<T>> = Vec::new();
        let mut i: usize = 0;
        while i < capacity
            invariant
                i <= capacity,
                container@.len() == i,
                forall|j: int| 0 <= j < i ==> (#[trigger] container@[j]) is None,
            decreases capacity - i,
        {
            container.push(None);
            i = i + 1;
        }
        let r = LocalRb {
            storage: ContainerStorage::new(container),
            read: End::new(0),
            write: End::new(0),
        };
        proof {
            assert(r@ =~= Seq::<T>::empty());
        }
        r
    }

    /// Reconstructs a buffer from storage and positions. The caller asserts
    /// that slots in the circular range from `read` to `write` hold values
    /// and all others are vacant.
    pub fn from_raw_parts(storage: ContainerStorage<T>, read: usize, write: usize) -> (r: Self)
        requires
            1 <= storage.contents().len(),
            2 * storage.contents().len() <= usize::MAX,
            read < 2 * storage.contents().len(),
            write < 2 * storage.contents().len(),
            cyc_dist(read as int, write as int, 2 * storage.contents().len() as int)
                <= storage.contents().len(),
            forall|j: int|
                0 <= j < storage.contents().len() ==> ((#[trigger] storage.contents()[j]) is Some
                    <==> cyc_dist(
                        wrap_at(read as int, storage.contents().len() as int),
                        j,
                        storage.contents().len() as int,
                    ) < cyc_dist(
                        read as int,
                        write as int,
                        2 * storage.contents().len() as int,
                    )),
        ensures
            r.inv(),
            r.slots() == storage.contents(),
            r.cap() == storage.contents().len(),
            r.read_index_spec() == read,
            r.write_index_spec() == write,
            !r.read_held_spec(),
            !r.write_held_spec(),
    {
        LocalRb { storage, read: End::new(read), write: End::new(write) }
    }

    /// Destructures the buffer into its storage and positions, transferring
    /// responsibility for the occupied contents to the caller.
    pub fn into_raw_parts(self) -> (r: (ContainerStorage<T>, usize, usize))
        ensures
            r.0.contents() == self.slots(),
            r.1 == self.read_index_spec(),
            r.2 == self.write_index_spec(),
    {
        let LocalRb { storage, read, write } = self;
        (storage, read.index, write.index)
    }

    /// The fixed capacity.
    pub fn capacity(&self) -> (r: usize)
        ensures
            r == self.cap(),
    {
        self.storage.len()
    }

    /// The current `read` position in the extended domain.
    pub fn read_index(&self) -> (r: usize)
        ensures
            r == self.read_index_spec(),
    {
        self.read.index
    }

    /// The current `write` position in the extended domain.
    pub fn write_index(&self) -> (r: usize)
        ensures
            r == self.write_index_spec(),
    {
        self.write.index
    }

    /// Whether a live consumer handle exists.
    pub fn read_is_held(&self) -> (r: bool)
        ensures
            r == self.read_held_spec(),
    {
        self.read.held
    }

    /// Whether a live producer handle exists.
    pub fn write_is_held(&self) -> (r: bool)
        ensures
            r == self.write_held_spec(),
    {
        self.write.held
    }

    /// Records whether a live consumer handle exists; nothing else changes.
    pub fn hold_read(&mut self, flag: bool)
        ensures
            final(self).read_held_spec() == flag,
            final(self).slots() == old(self).slots(),
            final(self).read_index_spec() == old(self).read_index_spec(),
            final(self).write_index_spec() == old(self).write_index_spec(),
            final(self).write_held_spec() == old(self).write_held_spec(),
            final(self)@ == old(self)@,
            old(self).inv() ==> final(self).inv(),
            old(self).wf() ==> final(self).wf(),
    {
        self.read.held = flag;
    }

    /// Records whether a live producer handle exists; nothing else changes.
    pub fn hold_write(&mut self, flag: bool)
        ensures
            final(self).write_held_spec() == flag,
            final(self).slots() == old(self).slots(),
            final(self).read_index_spec() == old(self).read_index_spec(),
            final(self).write_index_spec() == old(self).write_index_spec(),
            final(self).read_held_spec() == old(self).read_held_spec(),
            final(self)@ == old(self)@,
            old(self).inv() ==> final(self).inv(),
            old(self).wf() ==> final(self).wf(),
    {
        self.write.held = flag;
    }

    /// The number of elements currently stored.
    pub fn len(&self) -> (r: usize)
        requires
            self.wf(),
        ensures
            r == self@.len(),
            r == self.len_spec(),
    {
        let cap = self.capacity();
        let rd = self.read.index;
        let wr = self.write.index;
        if wr >= rd {
            wr - rd
        } else {
            (2 * cap - rd) + wr
        }
    }

    /// Whether the buffer holds no elements.
    pub fn is_empty(&self) -> (r: bool)
        requires
            self.wf(),
        ensures
            r == (self@.len() == 0),
    {
        self.read.index == self.write.index
    }

    /// Whether the buffer holds exactly `capacity` elements.
    pub fn is_full(&self) -> (r: bool)
        requires
            self.wf(),
        ensures
            r == (self@.len() == self.cap()),
    {
        self.len() == self.capacity()
    }

    /// The number of vacant slots. Together with `len` it always accounts
    /// for the whole capacity.
    pub fn remaining(&self) -> (r: usize)
        requires
            self.wf(),
        ensures
            r == self.cap() - self@.len(),
            r + self@.len() == self.cap(),
    {
        self.capacity() - self.len()
    }

    /// Projects the occupied circular range onto at most two linear storage
    /// ranges, in order: every listed slot holds the corresponding element
    /// of the logical contents.
    pub fn occupied_ranges(&self) -> (r: ((usize, usize), (usize, usize)))
        requires
            self.inv(),
        ensures
            r.0.0 <= r.0.1 <= self.cap(),
            r.1.0 == 0,
            r.1.1 <= r.0.0,
            (r.0.1 - r.0.0) + (r.1.1 - r.1.0) == self@.len(),
            forall|i: int|
                0 <= i < r.0.1 - r.0.0 ==> self.slots()[r.0.0 + i] == Some(#[trigger] self@[i]),
            forall|i: int|
                0 <= i < r.1.1 - r.1.0 ==> self.slots()[r.1.0 + i] == Some(
                    #[trigger] self@[(r.0.1 - r.0.0) + i],
                ),
    {
        let cap = self.capacity();
        let count = self.len();
        let r = ranges(cap, self.read.index, count);
        proof {
            let c = self.cap();
            let pr = self.phys_read();
            let l = self.len_spec();
            let ps = projected(c, self.read_index_spec(), l);
            let f0 = r.0.0 as int;
            let f1 = r.0.1 as int;
            assert forall|i: int| 0 <= i < f1 - f0 implies self.slots()[f0 + i] == Some(
                self@[i],
            ) by {
                assert(ps[i] == f0 + i);
                lemma_cyc_dist_of_wrap(pr, i, c);
                assert(self.slot_occupied(wrap_at(pr + i, c)));
                assert(self@[i] == self.slots()[wrap_at(pr + i, c)]->0);
            }
            assert forall|i: int| 0 <= i < r.1.1 - r.1.0 implies self.slots()[r.1.0 + i] == Some(
                #[trigger] self@[(f1 - f0) + i],
            ) by {
                let k = (f1 - f0) + i;
                assert(ps[k] == r.1.0 + i);
                lemma_cyc_dist_of_wrap(pr, k, c);
                assert(self.slot_occupied(wrap_at(pr + k, c)));
                assert(self@[k] == self.slots()[wrap_at(pr + k, c)]->0);
            }
        }
        r
    }

    /// Projects the vacant circular range onto at most two linear storage
    /// ranges, in order: every listed slot is vacant.
    pub fn vacant_ranges(&self) -> (r: ((usize, usize), (usize, usize)))
        requires
            self.inv(),
        ensures
            r.0.0 <= r.0.1 <= self.cap(),
            r.1.0 == 0,
            r.1.1 <= r.0.0,
            (r.0.1 - r.0.0) + (r.1.1 - r.1.0) == self.cap() - self@.len(),
            forall|i: int| 0 <= i < r.0.1 - r.0.0 ==> (#[trigger] self.slots()[r.0.0 + i]) is None,
            forall|i: int| 0 <= i < r.1.1 - r.1.0 ==> (#[trigger] self.slots()[r.1.0 + i]) is None,
    {
        let cap = self.capacity();
        let count = self.capacity() - self.len();
        let r = ranges(cap, self.write.index, count);
        proof {
            let c = self.cap();
            let pr = self.phys_read();
            let pw = self.phys_write();
            let l = self.len_spec();
            let ps = projected(c, self.write_index_spec(), c - l);
            let f0 = r.0.0 as int;
            let f1 = r.0.1 as int;
            assert(pw == wrap_at(pr + l, c));
            assert forall|i: int| 0 <= i < c - l implies !((#[trigger] self.slots()[ps[i]]) is Some) by {
                lemma_wrap_add(pr, l, i, c);
                lemma_cyc_dist_of_wrap(pr, l + i, c);
                assert(ps[i] == wrap_at(pw + i, c));
                assert(ps[i] == wrap_at(pr + (l + i), c));
                assert(cyc_dist(pr, ps[i], c) == l + i);
                assert(!self.slot_occupied(ps[i]));
            }
            assert forall|i: int| 0 <= i < f1 - f0 implies (#[trigger] self.slots()[f0 + i]) is None by {
                assert(ps[i] == f0 + i);
                assert(!(self.slots()[ps[i]] is Some));
            }
            assert forall|i: int| 0 <= i < r.1.1 - r.1.0 implies (#[trigger] self.slots()[r.1.0 + i]) is None by {
                let k = (f1 - f0) + i;
                assert(ps[k] == r.1.0 + i);
                assert(!(self.slots()[ps[k]] is Some));
            }
        }
        r
    }

    /// Appends `elem` at the `write` end when the buffer is not full, or
    /// returns it unchanged when it is; a rejected push leaves the buffer
    /// untouched.
    pub fn try_push(&mut self, elem: T) -> (r: Result<(), T>)
        requires
            old(self).inv(),
        ensures
            final(self).inv(),
            final(self).cap() == old(self).cap(),
            final(self).read_index_spec() == old(self).read_index_spec(),
            final(self).read_held_spec() == old(self).read_held_spec(),
            final(self).write_held_spec() == old(self).write_held_spec(),
            old(self)@.len() < old(self).cap() ==> r is Ok && final(self)@ == old(self)@.push(elem)
                && final(self).write_index_spec() == ext_next(
                old(self).write_index_spec(),
                1,
                old(self).cap(),
            ),
            old(self)@.len() == old(self).cap() ==> r == Result::<(), T>::Err(elem) && *final(self)
                == *old(self),
    {
        if self.is_full() {
            return Err(elem);
        }
        let cap = self.capacity();
        let w = self.write.index;
        let pw = if w >= cap {
            w - cap
        } else {
            w
        };
        self.storage.set_slot(pw, elem);
        self.write.index = if w + 1 >= 2 * cap {
            (w + 1) - 2 * cap
        } else {
            w + 1
        };
        proof {
            let c = old(self).cap();
            let pr = old(self).phys_read();
            let l = old(self).len_spec();
            let pwi = old(self).phys_write();
            assert(pwi == wrap_at(pr + l, c));
            lemma_cyc_dist_of_wrap(pr, l, c);
            assert(self.len_spec() == l + 1);
            assert forall|j: int|
                0 <= j < c implies ((#[trigger] self.slots()[j]) is Some <==> self.slot_occupied(
                j,
            )) by {
                if j != pwi {
                    assert(self.slots()[j] == old(self).slots()[j]);
                    if cyc_dist(pr, j, c) == l {
                        assert(j == wrap_at(pr + l, c));
                    }
                }
            }
            assert forall|i: int| 0 <= i < l implies old(self)@[i] == #[trigger] self@[i] by {
                lemma_cyc_dist_of_wrap(pr, i, c);
                assert(wrap_at(pr + i, c) != pwi);
                assert(self.slots()[wrap_at(pr + i, c)] == old(self).slots()[wrap_at(pr + i, c)]);
            }
            assert(self@[l] == elem);
            assert(self@ =~= old(self)@.push(elem));
        }
        Ok(())
    }

    /// Removes and returns the oldest element, or returns nothing when the
    /// buffer is empty; popping from an empty buffer never mutates state.
    pub fn try_pop(&mut self) -> (r: Option<T>)
        requires
            old(self).inv(),
        ensures
            final(self).inv(),
            final(self).cap() == old(self).cap(),
            final(self).write_index_spec() == old(self).write_index_spec(),
            final(self).read_held_spec() == old(self).read_held_spec(),
            final(self).write_held_spec() == old(self).write_held_spec(),
            old(self)@.len() > 0 ==> r == Some(old(self)@[0]) && final(self)@ == old(
                self,
            )@.subrange(1, old(self)@.len() as int) && final(self).read_index_spec() == ext_next(
                old(self).read_index_spec(),
                1,
                old(self).cap(),
            ),
            old(self)@.len() == 0 ==> r is None && *final(self) == *old(self),
    {
        if self.is_empty() {
            return None;
        }
        let cap = self.capacity();
        let rd = self.read.index;
        let pr = if rd >= cap {
            rd - cap
        } else {
            rd
        };
        let v = self.storage.take_slot(pr);
        self.read.index = if rd + 1 >= 2 * cap {
            (rd + 1) - 2 * cap
        } else {
            rd + 1
        };
        proof {
            let c = old(self).cap();
            let pri = old(self).phys_read();
            let l = old(self).len_spec();
            let prn = self.phys_read();
            assert(self.len_spec() == l - 1);
            assert(prn == wrap_at(pri + 1, c));
            lemma_cyc_dist_of_wrap(pri, 0, c);
            assert(old(self).slot_occupied(pri));
            assert(old(self)@[0] == old(self).slots()[pri]->0);
            assert(v == Some(old(self)@[0]));
            assert forall|j: int|
                0 <= j < c implies ((#[trigger] self.slots()[j]) is Some <==> self.slot_occupied(
                j,
            )) by {
                if j == pri {
                    assert(cyc_dist(prn, j, c) == c - 1);
                } else {
                    assert(self.slots()[j] == old(self).slots()[j]);
                    assert(cyc_dist(pri, j, c) != 0);
                    assert(cyc_dist(prn, j, c) == cyc_dist(pri, j, c) - 1);
                }
            }
            assert forall|i: int| 0 <= i < l - 1 implies #[trigger] self@[i] == old(self)@[i
                + 1] by {
                lemma_wrap_add(pri, 1, i, c);
                lemma_cyc_dist_of_wrap(pri, i + 1, c);
                assert(wrap_at(prn + i, c) == wrap_at(pri + (1 + i), c));
                assert(wrap_at(pri + (i + 1), c) != pri);
                assert(self.slots()[wrap_at(prn + i, c)] == old(self).slots()[wrap_at(
                    pri + (1 + i),
                    c,
                )]);
            }
            assert(self@ =~= old(self)@.subrange(1, l));
        }
        v
    }

    /// Appends elements taken from the front of `items` until the buffer is
    /// full or `items` is exhausted; what was not appended remains in
    /// `items`, a partial fill being a normal outcome.
    pub fn push_iter(&mut self, items: &mut Vec<T>) -> (r: usize)
        requires
            old(self).inv(),
        ensures
            final(self).inv(),
            final(self).cap() == old(self).cap(),
            final(self).read_index_spec() == old(self).read_index_spec(),
            final(self).read_held_spec() == old(self).read_held_spec(),
            final(self).write_held_spec() == old(self).write_held_spec(),
            old(items)@.len() <= old(self).cap() - old(self)@.len() ==> r == old(items)@.len(),
            old(items)@.len() > old(self).cap() - old(self)@.len() ==> r == old(self).cap() - old(
                self,
            )@.len(),
            final(self)@ == old(self)@ + old(items)@.subrange(0, r as int),
            final(items)@ == old(items)@.subrange(r as int, old(items)@.len() as int),
    {
        let ghost init = *self;
        let ghost initems = *items;
        let mut count: usize = 0;
        while !items.is_empty() && !self.is_full()
            invariant
                self.inv(),
                self.cap() == init.cap(),
                self.read_index_spec() == init.read_index_spec(),
                self.read_held_spec() == init.read_held_spec(),
                self.write_held_spec() == init.write_held_spec(),
                count <= initems@.len(),
                items@ == initems@.subrange(count as int, initems@.len() as int),
                self@.len() == init@.len() + count,
                self@ == init@ + initems@.subrange(0, count as int),
            decreases initems@.len() - count,
        {
            let x = items.remove(0);
            proof {
                assert(x == initems@[count as int]);
                assert(initems@.subrange(count as int, initems@.len() as int).remove(0) =~=
                    initems@.subrange(count as int + 1, initems@.len() as int));
            }
            let _ = self.try_push(x);
            proof {
                assert((init@ + initems@.subrange(0, count as int)).push(initems@[count as int])
                    =~= init@ + initems@.subrange(0, count as int + 1));
            }
            count = count + 1;
        }
        count
    }

    /// Removes every element, leaving the buffer empty; the `write` position
    /// and the held flags stay as they were.
    pub fn clear(&mut self)
        requires
            old(self).inv(),
        ensures
            final(self).inv(),
            final(self).cap() == old(self).cap(),
            final(self)@ == Seq::<T>::empty(),
            final(self).write_index_spec() == old(self).write_index_spec(),
            final(self).read_held_spec() == old(self).read_held_spec(),
            final(self).write_held_spec() == old(self).write_held_spec(),
            final(self).read_index_spec() == final(self).write_index_spec(),
    {
        let ghost init = *self;
        while !self.is_empty()
            invariant
                self.inv(),
                self.cap() == init.cap(),
                self.write_index_spec() == init.write_index_spec(),
                self.read_held_spec() == init.read_held_spec(),
                self.write_held_spec() == init.write_held_spec(),
            decreases self@.len(),
        {
            let _ = self.try_pop();
        }
        proof {
            assert(self@ =~= Seq::<T>::empty());
        }
    }
}

impl<T: Copy> LocalRb<T> {
    /// Copies as many leading elements of `elems` as fit, in order, and
    /// reports how many; a short count signals backpressure, not an error.
    pub fn push_slice(&mut self, elems: &[T]) -> (r: usize)
        requires
            old(self).inv(),
        ensures
            final(self).inv(),
            final(self).cap() == old(self).cap(),
            final(self).read_index_spec() == old(self).read_index_spec(),
            final(self).read_held_spec() == old(self).read_held_spec(),
            final(self).write_held_spec() == old(self).write_held_spec(),
            elems@.len() <= old(self).cap() - old(self)@.len() ==> r == elems@.len(),
            elems@.len() > old(self).cap() - old(self)@.len() ==> r == old(self).cap() - old(
                self,
            )@.len(),
            final(self)@ == old(self)@ + elems@.subrange(0, r as int),
    {
        let ghost init = *self;
        let mut count: usize = 0;
        while count < elems.len() && !self.is_full()
            invariant
                self.inv(),
                self.cap() == init.cap(),
                self.read_index_spec() == init.read_index_spec(),
                self.read_held_spec() == init.read_held_spec(),
                self.write_held_spec() == init.write_held_spec(),
                count <= elems@.len(),
                self@.len() == init@.len() + count,
                self@ == init@ + elems@.subrange(0, count as int),
            decreases elems@.len() - count,
        {
            let _ = self.try_push(elems[count]);
            proof {
                assert((init@ + elems@.subrange(0, count as int)).push(elems@[count as int]) =~=
                    init@ + elems@.subrange(0, count as int + 1));
            }
            count = count + 1;
        }
        count
    }

    /// Removes up to `count` oldest elements and returns them in order; a
    /// short result signals that the buffer ran empty first.
    pub fn pop_slice(&mut self, count: usize) -> (r: Vec<T>)
        requires
            old(self).inv(),
        ensures
            final(self).inv(),
            final(self).cap() == old(self).cap(),
            final(self).write_index_spec() == old(self).write_index_spec(),
            final(self).read_held_spec() == old(self).read_held_spec(),
            final(self).write_held_spec() == old(self).write_held_spec(),
            count <= old(self)@.len() ==> r@.len() == count,
            count > old(self)@.len() ==> r@.len() == old(self)@.len(),
            r@ == old(self)@.subrange(0, r@.len() as int),
            final(self)@ == old(self)@.subrange(r@.len() as int, old(self)@.len() as int),
    {
        let ghost init = *self;
        let mut out: Vec<T> = Vec::new();
        let mut taken: usize = 0;
        while taken < count && !self.is_empty()
            invariant
                self.inv(),
                self.cap() == init.cap(),
                self.write_index_spec() == init.write_index_spec(),
                self.read_held_spec() == init.read_held_spec(),
                self.write_held_spec() == init.write_held_spec(),
                taken <= count,
                taken <= init@.len(),
                out@.len() == taken,
                out@ == init@.subrange(0, taken as int),
                self@ == init@.subrange(taken as int, init@.len() as int),
            decreases count - taken,
        {
            let v = self.try_pop();
            match v {
                Some(x) => {
                    out.push(x);
                    proof {
                        assert(init@.subrange(taken as int, init@.len() as int)[0] == init@[
                            taken as int]);
                        assert(init@.subrange(0, taken as int).push(init@[taken as int]) =~=
                            init@.subrange(0, taken as int + 1));
                        assert(init@.subrange(taken as int, init@.len() as int).subrange(
                            1,
                            init@.len() - taken as int,
                        ) =~= init@.subrange(taken as int + 1, init@.len() as int));
                    }
                    taken = taken + 1;
                },
                None => {
                    proof {
                        assert(false);
                    }
                },
            }
        }
        out
    }
}

} // verus!
