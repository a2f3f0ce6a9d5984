//! Producer side: exclusive right to fill vacant slots and to advance the
//! `write` position. Capacity exhaustion is not an error: a single-element
//! push hands the rejected element back, a bulk push reports a short count.

use vstd::prelude::*;

use crate::rb::LocalRb;

verus! {

/// The capability to append elements and to observe whether the consumer
/// side still holds the buffer.
pub trait Producer {
    type Item;

    /// The structural invariant the operations preserve.
    spec fn prod_inv(&self) -> bool;

    /// The fixed capacity.
    spec fn prod_cap(&self) -> int;

    /// The logical contents, oldest element first.
    spec fn prod_view(&self) -> Seq<Self::Item>;

    /// Whether a live consumer handle exists.
    spec fn consumer_held(&self) -> bool;

    /// Whether a live producer handle exists.
    spec fn producer_held(&self) -> bool;

    /// Whether the consumer side has disconnected.
    fn is_closed(&self) -> (r: bool)
        ensures
            r == !self.consumer_held(),
    ;

    /// Releases this side's hold on the buffer, signalling that no more
    /// data will ever be produced.
    fn close(&mut self)
        ensures
            !final(self).producer_held(),
            final(self).prod_inv() == old(self).prod_inv(),
            final(self).prod_cap() == old(self).prod_cap(),
            final(self).prod_view() == old(self).prod_view(),
            final(self).consumer_held() == old(self).consumer_held(),
    ;

    /// Appends an element, or hands it back unchanged when the buffer is
    /// full; state is untouched in the latter case.
    fn try_push(&mut self, elem: Self::Item) -> (r: Result<(), Self::Item>)
        requires
            old(self).prod_inv(),
        ensures
            final(self).prod_inv(),
            final(self).prod_cap() == old(self).prod_cap(),
            final(self).consumer_held() == old(self).consumer_held(),
            final(self).producer_held() == old(self).producer_held(),
            old(self).prod_view().len() < old(self).prod_cap() ==> r is Ok
                && final(self).prod_view() == old(self).prod_view().push(elem),
            old(self).prod_view().len() == old(self).prod_cap() ==> r == Result::<
                (),
                Self::Item,
            >::Err(elem) && final(self).prod_view() == old(self).prod_view(),
    ;
}

impl<T> Producer for LocalRb<T> {
    type Item = T;

    open spec fn prod_inv(&self) -> bool {
        self.inv()
    }

    open spec fn prod_cap(&self) -> int {
        self.cap()
    }

    open spec fn prod_view(&self) -> Seq<T> {
        self@
    }

    open spec fn consumer_held(&self) -> bool {
        self.read_held_spec()
    }

    open spec fn producer_held(&self) -> bool {
        self.write_held_spec()
    }

    fn is_closed(&self) -> (r: bool) {
        !self.read_is_held()
    }

    fn close(&mut self) {
        self.hold_write(false);
    }

    fn try_push(&mut self, elem: T) -> (r: Result<(), T>) {
        self.try_push(elem)
    }
}

} // verus!
