//! The raw buffer: one contiguous block of slots with a fixed capacity.
//!
//! A slot within the block's length is either filled with an element or
//! still vacant (handed out by a sized allocation and never written). The
//! block is replaced wholesale when it grows: a new block is allocated, the
//! filled and vacant slots move over in order, and the old block is released.

use vstd::prelude::*;

verus! {

/// The capacity an array of `len` slots in a block of `cap` has after one
/// more append: unchanged while there is room, doubled when the block is full.
pub open spec fn cap_after_push(len: nat, cap: nat) -> nat {
    if len < cap {
        cap
    } else {
        2 * cap
    }
}

/// `n` vacant slots.
pub open spec fn vacant<T>(n: nat) -> Seq<Option<T>> {
    Seq::new(n, |i: int| None::<T>)
}

/// One block of memory for up to `cap` elements, of which the first `len`
/// slots are in use.
#[derive(Debug)]
pub struct RawBuf<T> {
    slots: std::vec::Vec<Option<T>>,
    cap: usize,
}

impl<T> View for RawBuf<T> {
    type V = Seq<Option<T>>;

    /// The slots in use, in order: `Some` where filled, `None` where vacant.
    closed spec fn view(&self) -> Seq<Option<T>> {
        self.slots@
    }
}

impl<T> RawBuf<T> {
    /// The block's capacity.
    pub closed spec fn capacity(&self) -> nat {
        self.cap as nat
    }

    /// A block is never empty-sized and never holds more than its capacity.
    pub open spec fn wf(&self) -> bool {
        &&& 0 < self.capacity() <= usize::MAX
        &&& self@.len() <= self.capacity()
    }

    /// Allocates a block of capacity `cap` whose first `len` slots are in
    /// use and vacant.
    pub fn allocate(len: usize, cap: usize) -> (block: Self)
        requires
            cap > 0,
            len <= cap,
        ensures
            block.wf(),
            block.capacity() == cap,
            block@ == vacant::<T>(len as nat),
    {
        let mut slots: std::vec::Vec<Option<T>> = std::vec::Vec::with_capacity(cap);
        let mut i: usize = 0;
        while i < len
            invariant
                i <= len,
                slots@ == vacant::<T>(i as nat),
            decreases len - i,
        {
            slots.push(None);
            i += 1;
            assert(slots@ =~= vacant::<T>(i as nat));
        }
        RawBuf { slots, cap }
    }

    /// Moves the slots into a new block of capacity `new_cap` and releases
    /// the old block. No element is duplicated or dropped on the way.
    pub fn grow(&mut self, new_cap: usize)
        requires
            old(self).wf(),
            new_cap >= old(self).capacity(),
        ensures
            final(self).wf(),
            final(self).capacity() == new_cap,
            final(self)@ == old(self)@,
    {
        let mut block: std::vec::Vec<Option<T>> = std::vec::Vec::with_capacity(new_cap);
        block.append(&mut self.slots);
        assert(block@ =~= old(self)@);
        self.slots = block;
        self.cap = new_cap;
    }

    /// Fills the first slot past the length with `value`, in place.
    pub fn write(&mut self, value: T)
        requires
            old(self).wf(),
            old(self)@.len() < old(self).capacity(),
        ensures
            final(self).wf(),
            final(self).capacity() == old(self).capacity(),
            final(self)@ == old(self)@.push(Some(value)),
    {
        self.slots.push(Some(value));
    }

    /// Whether slot `index` is in use and filled.
    pub fn is_filled(&self, index: usize) -> (yes: bool)
        ensures
            yes == (index < self@.len() && self@[index as int] is Some),
    {
        index < self.slots.len() && self.slots[index].is_some()
    }

    /// The element in slot `index`.
    pub fn read(&self, index: usize) -> (element: &T)
        requires
            index < self@.len(),
            self@[index as int] is Some,
        ensures
            Some(*element) == self@[index as int],
    {
        self.slots[index].as_ref().unwrap()
    }

    /// Takes the element out of slot `index`, leaving the slot vacant.
    pub fn take(&mut self, index: usize) -> (element: Option<T>)
        requires
            index < old(self)@.len(),
        ensures
            element == old(self)@[index as int],
            final(self)@ == old(self)@.update(index as int, None),
            final(self).capacity() == old(self).capacity(),
    {
        crate::mem::replace(&mut self.slots[index], None)
    }

    /// How many slots are in use.
    pub fn len(&self) -> (n: usize)
        ensures
            n == self@.len(),
    {
        self.slots.len()
    }

    /// The capacity of the block.
    pub fn cap(&self) -> (n: usize)
        ensures
            n == self.capacity(),
    {
        self.cap
    }

    /// Releases the block together with the elements still in it, and
    /// reports how many slots were given back.
    pub fn release(self) -> (freed: usize)
        ensures
            freed == self.capacity(),
    {
        self.cap
    }
}

} // verus!
