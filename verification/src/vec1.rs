//! The growable array of the core layer, with the conversions into and
//! from iterators.

use crate::growth::cap_after_pushes;
use crate::iter::FromIterator;
use crate::iter::IntoIterator;
use crate::iter::Iterator;
use crate::raw_buf::cap_after_push;
use crate::raw_buf::vacant;
use crate::raw_buf::RawBuf;
use vstd::prelude::*;

verus! {

/// The slots that hold exactly `items`, all filled.
pub open spec fn filled<T>(items: Seq<T>) -> Seq<Option<T>> {
    Seq::new(items.len(), |i: int| Some(items[i]))
}

/// A contiguous growable array. Its capacity is never zero: there is no
/// unallocated state, and even an empty array owns a block. A block of
/// capacity zero cannot be asked for.
#[derive(Debug)]
pub struct Vec1<T> {
    buf: RawBuf<T>,
}

impl<T> View for Vec1<T> {
    type V = Seq<Option<T>>;

    /// The slots in use, in order: `Some` where filled, `None` where a
    /// sized construction left the slot vacant.
    closed spec fn view(&self) -> Seq<Option<T>> {
        self.buf@
    }
}

impl<T> Vec1<T> {
    /// The capacity of the current block.
    pub closed spec fn capacity(&self) -> nat {
        self.buf.capacity()
    }

    /// `0 <= len <= cap` and `cap > 0`.
    pub open spec fn wf(&self) -> bool {
        &&& 0 < self.capacity() <= usize::MAX
        &&& self@.len() <= self.capacity()
    }

    /// An array of `len` vacant slots in a block of capacity `cap`.
    pub fn new_with_size_and_cap(len: usize, cap: usize) -> (v: Self)
        requires
            cap != 0,
            len <= cap,
        ensures
            v.wf(),
            v.capacity() == cap,
            v@ == vacant::<T>(len as nat),
    {
        Vec1 { buf: RawBuf::allocate(len, cap) }
    }

    /// The array that holds `x` alone, in a block of capacity 1.
    pub fn new_1(x: T) -> (v: Self)
        ensures
            v.wf(),
            v.capacity() == 1,
            v@ == seq![Some(x)],
    {
        let mut buf = RawBuf::allocate(0, 1);
        buf.write(x);
        assert(buf@ =~= seq![Some(x)]);
        Vec1 { buf }
    }

    /// Whether `index` is within the length and the slot there is filled:
    /// what `at` asks of its caller.
    pub fn is_filled(&self, index: usize) -> (yes: bool)
        ensures
            yes == (index < self@.len() && self@[index as int] is Some),
    {
        self.buf.is_filled(index)
    }

    /// The element at `index`.
    pub fn at(&self, index: usize) -> (element: &T)
        requires
            index < self@.len(),
            self@[index as int] is Some,
        ensures
            Some(*element) == self@[index as int],
    {
        self.buf.read(index)
    }

    /// Appends `x`. While there is room the element is written in place.
    /// When the block is full, a block of twice the capacity takes its
    /// place: the elements move over, `x` follows them, and the old block
    /// is released.
    pub fn push(&mut self, x: T)
        requires
            old(self).wf(),
            cap_after_push(old(self)@.len(), old(self).capacity()) <= usize::MAX,
        ensures
            final(self).wf(),
            final(self)@ == old(self)@.push(Some(x)),
            final(self).capacity() == cap_after_push(old(self)@.len(), old(self).capacity()),
    {
        if self.buf.len() < self.buf.cap() {
            self.buf.write(x);
        } else {
            let new_cap: usize = self.buf.cap() * 2;
            self.buf.grow(new_cap);
            self.buf.write(x);
        }
    }

    /// How many slots are in use.
    pub fn len(&self) -> (n: usize)
        ensures
            n == self@.len(),
    {
        self.buf.len()
    }

    /// The capacity of the current block.
    pub fn cap(&self) -> (n: usize)
        ensures
            n == self.capacity(),
    {
        self.buf.cap()
    }
}

/// The iterator that hands the elements of an array out by value, in order.
pub struct VecIntoIter<T> {
    buf: RawBuf<T>,
    cur_pos: usize,
}

impl<T> VecIntoIter<T> {
    /// The slots of the array that is iterated over; a slot is vacant once
    /// its element was handed out.
    pub closed spec fn slots(&self) -> Seq<Option<T>> {
        self.buf@
    }

    /// The position of the next element to hand out.
    pub closed spec fn position(&self) -> nat {
        self.cur_pos as nat
    }

    /// The elements still to come, in order.
    pub open spec fn rest(&self) -> Seq<T> {
        Seq::new(
            (self.slots().len() - self.position()) as nat,
            |i: int| self.slots()[self.position() + i].unwrap(),
        )
    }

    pub fn new(vec: Vec1<T>) -> (it: Self)
        ensures
            it.slots() == vec@,
            it.position() == 0,
    {
        VecIntoIter { buf: vec.buf, cur_pos: 0 }
    }
}

impl<T> IntoIterator for Vec1<T> {
    type Item = T;

    type IntoIter = VecIntoIter<T>;

    /// Every slot is filled.
    open spec fn iterable(&self) -> bool {
        forall|i: int| 0 <= i < self@.len() ==> (#[trigger] self@[i]) is Some
    }

    open spec fn count(&self) -> nat {
        self@.len()
    }

    open spec fn gives(&self, items: Seq<T>) -> bool {
        self@ == filled(items)
    }

    fn into_iter(self) -> (it: VecIntoIter<T>)
        ensures
            it.slots() == self@,
            it.position() == 0,
    {
        let it = VecIntoIter::new(self);
        proof {
            assert forall|items: Seq<T>| #[trigger] it.yields(items) implies self.gives(items) by {
                assert(self@ =~= filled(items));
            }
        }
        it
    }
}

impl<T> Iterator for VecIntoIter<T> {
    type Item = T;

    /// The position lies within the array, and every slot from there on is
    /// filled.
    open spec fn wf(&self) -> bool {
        &&& self.position() <= self.slots().len()
        &&& forall|i: int|
            self.position() <= i < self.slots().len() ==> (#[trigger] self.slots()[i]) is Some
    }

    open spec fn remaining(&self) -> nat {
        (self.slots().len() - self.position()) as nat
    }

    open spec fn yields(&self, items: Seq<T>) -> bool {
        items == self.rest()
    }

    fn next(&mut self) -> (item: Option<Self::Item>)
        ensures
            old(self).remaining() > 0 ==> item == Some(old(self).rest()[0]),
            item is Some ==> final(self).rest() == old(self).rest().skip(1),
            item is None ==> final(self).rest() == old(self).rest(),
    {
        if self.cur_pos >= self.buf.len() {
            proof {
                assert(self.rest() =~= Seq::<T>::empty());
            }
            None
        } else {
            let next = self.buf.take(self.cur_pos);
            self.cur_pos += 1;
            proof {
                assert(self.rest() =~= old(self).rest().skip(1));
                assert(seq![next.unwrap()] + self.rest() =~= old(self).rest());
            }
            next
        }
    }

    fn size_hint(&self) -> (hint: (usize, Option<usize>))
        ensures
            hint.0 == self.remaining(),
            hint.1 == Some(hint.0),
    {
        let v: usize = self.buf.len() - self.cur_pos;
        (v, Some(v))
    }
}

impl<A> FromIterator<A> for Vec1<A> {
    /// Doubling must not overflow on the way to `n` elements.
    open spec fn room_for(n: nat) -> bool {
        2 * n <= usize::MAX
    }

    open spec fn holds(&self, items: Seq<A>) -> bool {
        self@ == filled(items)
    }

    /// Builds the array by appending the items to an empty array whose
    /// first block is sized by the iterator's own lower estimate (and is at
    /// least 1), so that an exact estimate costs no reallocation.
    fn from_iter<T: IntoIterator<Item = A>>(iter: T) -> (made: Self)
        ensures
            made.wf(),
            made@.len() == iter.count(),
            exists|first: nat|
                {
                    &&& 1 <= first <= usize::MAX
                    &&& first <= iter.count() || first == 1
                    &&& made.capacity() == #[trigger] cap_after_pushes(first, iter.count())
                },
    {
        let mut inner_iter = iter.into_iter();
        let (size, _) = inner_iter.size_hint();
        let cap: usize = if size == 0 {
            1
        } else {
            size
        };
        let mut new_vec: Vec1<A> = Vec1::new_with_size_and_cap(0, cap);
        let ghost start = inner_iter;
        let ghost mut done: Seq<A> = Seq::empty();
        proof {
            assert(new_vec@ =~= filled(done));
        }
        loop
            invariant_except_break
                forall|rest: Seq<A>| #[trigger]
                    inner_iter.yields(rest) ==> start.yields(done + rest),
            invariant
                inner_iter.wf(),
                new_vec.wf(),
                new_vec@ == filled(done),
                done.len() + inner_iter.remaining() == start.remaining(),
                new_vec@.len() == done.len(),
                new_vec.capacity() == cap_after_pushes(cap as nat, done.len()),
                2 * start.remaining() <= usize::MAX,
            ensures
                start.yields(done),
                done.len() == start.remaining(),
                new_vec.wf(),
                new_vec@ == filled(done),
                new_vec.capacity() == cap_after_pushes(cap as nat, done.len()),
            decreases inner_iter.remaining(),
        {
            let ghost before = inner_iter;
            match inner_iter.next() {
                Some(v) => {
                    new_vec.push(v);
                    proof {
                        let longer = done.push(v);
                        assert forall|rest: Seq<A>| #[trigger]
                            inner_iter.yields(rest) implies start.yields(longer + rest) by {
                            assert(before.yields(seq![v] + rest));
                            assert(done + (seq![v] + rest) =~= longer + rest);
                        }
                        assert(new_vec@ =~= filled(longer));
                        done = longer;
                    }
                },
                None => {
                    proof {
                        assert(done + Seq::<A>::empty() =~= done);
                    }
                    break ;
                },
            }
        }
        new_vec
    }
}

} // verus!
