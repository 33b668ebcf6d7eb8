//! The growable array: append and index over a raw buffer, with capacity
//! doubling when the buffer is full.

use crate::raw_buf::cap_after_push;
use crate::raw_buf::vacant;
use crate::raw_buf::RawBuf;
use vstd::prelude::*;

verus! {

/// A contiguous growable array. Its capacity is never zero: there is no
/// unallocated state, and even an empty array owns a block. A block of
/// capacity zero cannot be asked for.
#[derive(Debug)]
pub struct Vec<T> {
    buf: RawBuf<T>,
}

impl<T> View for Vec<T> {
    type V = Seq<Option<T>>;

    /// The slots in use, in order: `Some` where filled, `None` where a
    /// sized construction left the slot vacant.
    closed spec fn view(&self) -> Seq<Option<T>> {
        self.buf@
    }
}

impl<T> Vec<T> {
    /// The capacity of the current block.
    pub closed spec fn capacity(&self) -> nat {
        self.buf.capacity()
    }

    /// `0 <= len <= cap` and `cap > 0`.
    pub open spec fn wf(&self) -> bool {
        &&& 0 < self.capacity() <= usize::MAX
        &&& self@.len() <= self.capacity()
    }

    /// An array of `len` vacant slots in a block of capacity `cap`.
    pub fn new_with_size_and_cap(len: usize, cap: usize) -> (v: Self)
        requires
            cap != 0,
            len <= cap,
        ensures
            v.wf(),
            v.capacity() == cap,
            v@ == vacant::<T>(len as nat),
    {
        Vec { buf: RawBuf::allocate(len, cap) }
    }

    /// The empty array, in the smallest block there is: capacity 1.
    pub fn new() -> (v: Self)
        ensures
            v.wf(),
            v.capacity() == 1,
            v@ == Seq::<Option<T>>::empty(),
    {
        let v = Vec { buf: RawBuf::allocate(0, 1) };
        assert(v@ =~= Seq::<Option<T>>::empty());
        v
    }

    /// The array that holds `x` alone, in a block of capacity 1.
    pub fn new_1(x: T) -> (v: Self)
        ensures
            v.wf(),
            v.capacity() == 1,
            v@ == seq![Some(x)],
    {
        let mut buf = RawBuf::allocate(0, 1);
        buf.write(x);
        assert(buf@ =~= seq![Some(x)]);
        Vec { buf }
    }

    /// Whether `index` is within the length and the slot there is filled:
    /// what `at` asks of its caller.
    pub fn is_filled(&self, index: usize) -> (yes: bool)
        ensures
            yes == (index < self@.len() && self@[index as int] is Some),
    {
        self.buf.is_filled(index)
    }

    /// The element at `index`.
    pub fn at(&self, index: usize) -> (element: &T)
        requires
            index < self@.len(),
            self@[index as int] is Some,
        ensures
            Some(*element) == self@[index as int],
    {
        self.buf.read(index)
    }

    /// Appends `x`. While there is room the element is written in place.
    /// When the block is full, a block of twice the capacity takes its
    /// place: the elements move over, `x` follows them, and the old block
    /// is released.
    pub fn push(&mut self, x: T)
        requires
            old(self).wf(),
            cap_after_push(old(self)@.len(), old(self).capacity()) <= usize::MAX,
        ensures
            final(self).wf(),
            final(self)@ == old(self)@.push(Some(x)),
            final(self).capacity() == cap_after_push(old(self)@.len(), old(self).capacity()),
    {
        if self.buf.len() < self.buf.cap() {
            self.buf.write(x);
        } else {
            let new_cap: usize = self.buf.cap() * 2;
            self.buf.grow(new_cap);
            self.buf.write(x);
        }
    }

    /// How many slots are in use.
    pub fn len(&self) -> (n: usize)
        ensures
            n == self@.len(),
    {
        self.buf.len()
    }

    /// The capacity of the current block.
    pub fn cap(&self) -> (n: usize)
        ensures
            n == self.capacity(),
    {
        self.buf.cap()
    }

    /// Tears the array down: the block is released together with the
    /// elements still in it. Returns the capacity that was given back.
    pub fn release(self) -> (freed: usize)
        ensures
            freed == self.capacity(),
    {
        self.buf.release()
    }
}

} // verus!
