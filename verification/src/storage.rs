//! Storage abstraction: a linear region of element slots. A slot holds
//! `Some(value)` while it belongs to the occupied region and `None` while it
//! is vacant, so an element is never read from a vacant slot and never
//! dropped twice.

use vstd::prelude::*;

verus! {

/// A linear region of `len` element slots backing a ring buffer.
pub trait Storage {
    type Item;

    /// The current contents of every slot, vacant slots being `None`.
    spec fn contents(&self) -> Seq<Option<Self::Item>>;

    /// The number of slots, fixed for the lifetime of the storage.
    fn len(&self) -> (r: usize)
        ensures
            r == self.contents().len(),
    ;
}

/// A linear container of slots that can serve as backing storage for a
/// ring buffer.
pub trait Container {
    type Item;

    /// The slots the container holds, vacant slots being `None`.
    spec fn slots_view(&self) -> Seq<Option<Self::Item>>;

    /// Turns the container into ring-buffer storage, keeping every slot
    /// unchanged.
    fn into_storage(self) -> (r: ContainerStorage<Self::Item>)
        ensures
            r.contents() == self.slots_view(),
    ;
}

impl<T> Container for Vec<Option<T>> {
    type Item = T;

    open spec fn slots_view(&self) -> Seq<Option<T>> {
        self@
    }

    fn into_storage(self) -> (r: ContainerStorage<T>) {
        ContainerStorage::new(self)
    }
}

/// Heap-backed storage over a caller-supplied container of slots.
pub struct ContainerStorage<T> {
    container: Vec<Option<T>>,
}

impl<T> Storage for ContainerStorage<T> {
    type Item = T;

    closed spec fn contents(&self) -> Seq<Option<T>> {
        self.container@
    }

    fn len(&self) -> (r: usize) {
        self.container.len()
    }
}

impl<T> ContainerStorage<T> {
    /// Wraps a container of slots; its elements become the storage contents
    /// unchanged.
    pub fn new(container: Vec<Option<T>>) -> (r: Self)
        ensures
            r.contents() == container@,
    {
        ContainerStorage { container }
    }

    /// Destructures the storage back into the underlying container.
    pub fn into_inner(self) -> (r: Vec<Option<T>>)
        ensures
            r@ == self.contents(),
    {
        self.container
    }

    /// Fills slot `i` with an element, making it occupied.
    pub(crate) fn set_slot(&mut self, i: usize, elem: T)
        requires
            i < old(self).contents().len(),
        ensures
            final(self).contents() == old(self).contents().update(i as int, Some(elem)),
    {
        self.container[i] = Some(elem);
    }

    /// Moves the element out of slot `i`, leaving the slot vacant.
    pub(crate) fn take_slot(&mut self, i: usize) -> (r: Option<T>)
        requires
            i < old(self).contents().len(),
        ensures
            r == old(self).contents()[i as int],
            final(self).contents() == old(self).contents().update(i as int, None::<T>),
    {
        let v = self.container.remove(i);
        self.container.insert(i, None);
        proof {
            assert(self.container@ =~= old(self).container@.update(i as int, None::<T>));
        }
        v
    }
}

} // verus!
