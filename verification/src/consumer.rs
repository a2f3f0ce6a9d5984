//! Consumer side: exclusive right to read occupied slots and to advance the
//! `read` position. Starvation is not an error: popping from an empty
//! buffer signals "nothing available" and never mutates state.

use vstd::prelude::*;

use crate::rb::LocalRb;

verus! {

/// The capability to remove elements and to observe whether the producer
/// side still holds the buffer.
pub trait Consumer {
    type Item;

    /// The structural invariant the operations preserve.
    spec fn cons_inv(&self) -> bool;

    /// The fixed capacity.
    spec fn cons_cap(&self) -> int;

    /// The logical contents, oldest element first.
    spec fn cons_view(&self) -> Seq<Self::Item>;

    /// Whether a live producer handle exists.
    spec fn producer_live(&self) -> bool;

    /// Whether a live consumer handle exists.
    spec fn consumer_live(&self) -> bool;

    /// Whether the producer side has disconnected; together with an empty
    /// buffer this is the "stream exhausted" condition.
    fn is_closed(&self) -> (r: bool)
        ensures
            r == !self.producer_live(),
    ;

    /// Releases this side's hold on the buffer.
    fn close(&mut self)
        ensures
            !final(self).consumer_live(),
            final(self).cons_inv() == old(self).cons_inv(),
            final(self).cons_cap() == old(self).cons_cap(),
            final(self).cons_view() == old(self).cons_view(),
            final(self).producer_live() == old(self).producer_live(),
    ;

    /// Removes and returns the oldest element, or returns nothing and leaves
    /// the buffer untouched when it is empty.
    fn try_pop(&mut self) -> (r: Option<Self::Item>)
        requires
            old(self).cons_inv(),
        ensures
            final(self).cons_inv(),
            final(self).cons_cap() == old(self).cons_cap(),
            final(self).producer_live() == old(self).producer_live(),
            old(self).cons_view().len() > 0 ==> r == Some(old(self).cons_view()[0])
                && final(self).cons_view() == old(self).cons_view().subrange(
                1,
                old(self).cons_view().len() as int,
            ),
            old(self).cons_view().len() == 0 ==> r is None && final(self).cons_view() == old(
                self,
            ).cons_view(),
    ;
}

impl<T> Consumer for LocalRb<T> {
    type Item = T;

    open spec fn cons_inv(&self) -> bool {
        self.inv()
    }

    open spec fn cons_cap(&self) -> int {
        self.cap()
    }

    open spec fn cons_view(&self) -> Seq<T> {
        self@
    }

    open spec fn producer_live(&self) -> bool {
        self.write_held_spec()
    }

    open spec fn consumer_live(&self) -> bool {
        self.read_held_spec()
    }

    fn is_closed(&self) -> (r: bool) {
        !self.write_is_held()
    }

    fn close(&mut self) {
        self.hold_read(false);
    }

    fn try_pop(&mut self) -> (r: Option<T>) {
        self.try_pop()
    }
}

} // verus!
