//! A small iterator layer: the iterator trait with fold, transform and
//! collect, the conversions into and from iterators, and the transforming
//! adaptor.
//!
//! An iterator here is finite. It knows how many items are still to come,
//! and which runs of items it may yield from where it stands until it is
//! exhausted. For an iterator over stored elements there is one such run;
//! for an adaptor that calls a function on each item there is one for each
//! way the function's contract lets the calls turn out.

use std::marker::PhantomData;
use vstd::prelude::*;

verus! {

/// Whether `accs` lists the accumulator before the first item, between
/// the items and after the last one, in a fold of `items` from the left in
/// which every call of `f` turns out as the contract of `f` allows.
pub open spec fn fold_trace<B, X, F: Fn(B, X) -> B>(f: F, items: Seq<X>, accs: Seq<B>) -> bool {
    &&& accs.len() == items.len() + 1
    &&& forall|i: int|
        0 <= i < items.len() ==> f.ensures((accs[i], #[trigger] items[i]), accs[i + 1])
}

/// Whether folding `items` from the left with `f`, starting from `init`,
/// can end in `result` according to the contract of `f`.
pub open spec fn folded<B, X, F: Fn(B, X) -> B>(f: F, init: B, items: Seq<X>, result: B) -> bool {
    exists|accs: Seq<B>|
        {
            &&& #[trigger] fold_trace(f, items, accs)
            &&& accs[0] == init
            &&& accs.last() == result
        }
}

/// A finite source of items, handed out one at a time.
pub trait Iterator {
    type Item;

    /// The iterator's state is valid.
    spec fn wf(&self) -> bool;

    /// How many items are still to come.
    spec fn remaining(&self) -> nat;

    /// Whether `items` is a run that the iterator may hand out from here
    /// until it is exhausted.
    spec fn yields(&self, items: Seq<Self::Item>) -> bool;

    /// Hands out the next item, or `None` once the iterator is exhausted.
    fn next(&mut self) -> (item: Option<Self::Item>)
        requires
            old(self).wf(),
        ensures
            final(self).wf(),
            match item {
                Some(x) => {
                    &&& old(self).remaining() > 0
                    &&& final(self).remaining() == old(self).remaining() - 1
                    &&& forall|rest: Seq<Self::Item>| #[trigger]
                        final(self).yields(rest) ==> old(self).yields(seq![x] + rest)
                },
                None => {
                    &&& old(self).remaining() == 0
                    &&& final(self).remaining() == 0
                    &&& old(self).yields(Seq::empty())
                },
            },
    ;

    /// Folds the remaining items from the left with `f`, starting from
    /// `init`.
    fn fold<B, F>(self, init: B, f: F) -> (result: B) where
        Self: Sized,
        F: Fn(B, Self::Item) -> B,

        requires
            self.wf(),
            forall|acc: B, x: Self::Item| #[trigger] f.requires((acc, x)),
        ensures
            exists|items: Seq<Self::Item>|
                {
                    &&& #[trigger] self.yields(items)
                    &&& items.len() == self.remaining()
                    &&& folded(f, init, items, result)
                },
    {
        let mut it = self;
        let ghost start = it;
        let ghost mut done: Seq<Self::Item> = Seq::empty();
        let ghost mut accs: Seq<B> = seq![init];
        let mut cur_sum = init;
        loop
            invariant_except_break
                forall|rest: Seq<Self::Item>| #[trigger]
                    it.yields(rest) ==> start.yields(done + rest),
            invariant
                it.wf(),
                fold_trace(f, done, accs),
                accs[0] == init,
                accs.last() == cur_sum,
                done.len() + it.remaining() == start.remaining(),
                forall|acc: B, x: Self::Item| #[trigger] f.requires((acc, x)),
            ensures
                start.yields(done),
                done.len() == start.remaining(),
            decreases it.remaining(),
        {
            let ghost before = it;
            match it.next() {
                Some(v) => {
                    cur_sum = f(cur_sum, v);
                    proof {
                        let longer = done.push(v);
                        assert forall|rest: Seq<Self::Item>| #[trigger]
                            it.yields(rest) implies start.yields(longer + rest) by {
                            assert(before.yields(seq![v] + rest));
                            assert(done + (seq![v] + rest) =~= longer + rest);
                        }
                        done = longer;
                        accs = accs.push(cur_sum);
                    }
                },
                None => {
                    proof {
                        assert(done + Seq::<Self::Item>::empty() =~= done);
                    }
                    break ;
                },
            }
        }
        cur_sum
    }

    /// A lower and, where known, an upper bound on how many items are
    /// still to come.
    fn size_hint(&self) -> (hint: (usize, Option<usize>))
        requires
            self.wf(),
        ensures
            hint.0 <= self.remaining(),
            hint.1 matches Some(most) ==> self.remaining() <= most,
    {
        (0, None)
    }
}

/// What can be turned into an iterator over its items.
pub trait IntoIterator {
    type Item;

    type IntoIter: Iterator<Item = Self::Item>;

    /// The value is fit to be iterated over.
    spec fn iterable(&self) -> bool;

    /// How many items the value gives.
    spec fn count(&self) -> nat;

    /// Whether `items` is a run that iterating over the value may give.
    spec fn gives(&self, items: Seq<Self::Item>) -> bool;

    fn into_iter(self) -> (it: Self::IntoIter)
        requires
            self.iterable(),
        ensures
            it.wf(),
            it.remaining() == self.count(),
            forall|items: Seq<Self::Item>| #[trigger] it.yields(items) ==> self.gives(items),
    ;
}

/// An iterator turns into itself.
impl<I: Iterator> IntoIterator for I {
    type Item = I::Item;

    type IntoIter = I;

    open spec fn iterable(&self) -> bool {
        self.wf()
    }

    open spec fn count(&self) -> nat {
        self.remaining()
    }

    open spec fn gives(&self, items: Seq<I::Item>) -> bool {
        self.yields(items)
    }

    #[inline]
    fn into_iter(self) -> (it: I)
        ensures
            it == self,
    {
        self
    }
}

/// What can be built from the items of an iterator.
pub trait FromIterator<A>: Sized {
    /// Whether a collection of this type can take `n` items.
    spec fn room_for(n: nat) -> bool;

    /// Whether the collection holds exactly `items`, in this order.
    spec fn holds(&self, items: Seq<A>) -> bool;

    fn from_iter<T: IntoIterator<Item = A>>(iter: T) -> (made: Self)
        requires
            iter.iterable(),
            Self::room_for(iter.count()),
        ensures
            exists|items: Seq<A>|
                {
                    &&& #[trigger] iter.gives(items)
                    &&& items.len() == iter.count()
                    &&& made.holds(items)
                },
    ;
}

/// What every iterator can do once collections can be built from iterators.
pub trait IteratorExt: Iterator {
    /// The iterator that hands out `f` of each remaining item.
    fn map<B, F>(self, f: F) -> (mapped: Mapped<Self, B, F>) where
        Self: Sized,
        F: Fn(Self::Item) -> B,

        requires
            self.wf(),
            forall|x: Self::Item| #[trigger] f.requires((x,)),
        ensures
            mapped.source() == self,
            mapped.function() == f,
            mapped.wf(),
    {
        Mapped::new(self, f)
    }

    /// Builds a collection from the remaining items.
    fn collect<B: FromIterator<Self::Item>>(self) -> (made: B) where Self: Sized
        requires
            self.wf(),
            B::room_for(self.remaining()),
        ensures
            exists|items: Seq<Self::Item>|
                {
                    &&& #[trigger] self.yields(items)
                    &&& items.len() == self.remaining()
                    &&& made.holds(items)
                },
    {
        B::from_iter(self)
    }
}

impl<I: Iterator> IteratorExt for I {

}

/// Whether an iterator that stood at `before` can hand out `x` next and
/// stand at `after` then.
pub open spec fn steps<I: Iterator>(before: I, x: I::Item, after: I) -> bool {
    &&& before.remaining() > 0
    &&& after.remaining() == before.remaining() - 1
    &&& forall|rest: Seq<I::Item>| #[trigger] after.yields(rest) ==> before.yields(seq![x] + rest)
}

/// Whether `items` can be what `f` returns for the items of `source`, one
/// for one and in order, according to the contract of `f`.
pub open spec fn mapped_from<X, B, F: Fn(X) -> B>(f: F, source: Seq<X>, items: Seq<B>) -> bool {
    &&& source.len() == items.len()
    &&& forall|i: int| 0 <= i < source.len() ==> f.ensures((#[trigger] source[i],), items[i])
}

/// The transforming adaptor: it hands out `f` of each item of `inner`.
pub struct Mapped<A, B, F> {
    inner: A,
    f: F,
    _out: PhantomData<B>,
}

impl<A, B, F> Mapped<A, B, F> {
    /// The iterator whose items are transformed.
    pub closed spec fn source(&self) -> A {
        self.inner
    }

    /// The function that transforms them.
    pub closed spec fn function(&self) -> F {
        self.f
    }
}

impl<A: Iterator, B, F: Fn(A::Item) -> B> Mapped<A, B, F> {
    pub fn new(inner: A, f: F) -> (mapped: Self)
        ensures
            mapped.source() == inner,
            mapped.function() == f,
    {
        Mapped { inner: inner, f: f, _out: PhantomData }
    }
}

impl<A: Iterator, B, F: Fn(A::Item) -> B> Iterator for Mapped<A, B, F> {
    type Item = B;

    /// The source is valid, and the function takes every item.
    open spec fn wf(&self) -> bool {
        &&& self.source().wf()
        &&& forall|x: A::Item| #[trigger] self.function().requires((x,))
    }

    open spec fn remaining(&self) -> nat {
        self.source().remaining()
    }

    open spec fn yields(&self, items: Seq<B>) -> bool {
        exists|from: Seq<A::Item>|
            #[trigger] self.source().yields(from) && mapped_from(self.function(), from, items)
    }

    /// Takes the next item of the source and hands out what the function
    /// returns for it.
    fn next(&mut self) -> (item: Option<Self::Item>)
        ensures
            final(self).function() == old(self).function(),
            item matches Some(out) ==> exists|x: A::Item|
                #[trigger] steps(old(self).source(), x, final(self).source()) && old(
                    self,
                ).function().ensures((x,), out),
    {
        match self.inner.next() {
            Some(n) => {
                assert(self.function() == old(self).function());
                let out = (self.f)(n);
                proof {
                    assert(steps(old(self).source(), n, self.source()));
                    assert forall|rest: Seq<B>| #[trigger] final(self).yields(rest) implies old(
                        self,
                    ).yields(seq![out] + rest) by {
                        let from = choose|from: Seq<A::Item>|
                            #[trigger] final(self).source().yields(from) && mapped_from(
                                self.function(),
                                from,
                                rest,
                            );
                        assert(old(self).source().yields(seq![n] + from));
                        assert(mapped_from(self.function(), seq![n] + from, seq![out] + rest));
                    }
                }
                Some(out)
            },
            None => {
                proof {
                    assert(self.function() == old(self).function());
                    assert(mapped_from(
                        self.function(),
                        Seq::<A::Item>::empty(),
                        Seq::<B>::empty(),
                    ));
                }
                None
            },
        }
    }

    /// The adaptor hands out one item for each item of its source, so its
    /// bounds are the ones that the source gives for itself.
    fn size_hint(&self) -> (hint: (usize, Option<usize>))
        ensures
            call_ensures(A::size_hint, (&self.source(),), hint),
    {
        self.inner.size_hint()
    }
}

/// What the adaptor's validity, count and runs come to, spelled out over
/// its source and its function, for a caller that holds a concrete
/// function.
pub proof fn lemma_mapped_unfolds<A: Iterator, B, F: Fn(A::Item) -> B>(mapped: Mapped<A, B, F>)
    ensures
        mapped.remaining() == mapped.source().remaining(),
        mapped.wf() <==> mapped.source().wf() && forall|x: A::Item| #[trigger]
            mapped.function().requires((x,)),
        forall|items: Seq<B>| #[trigger]
            mapped.yields(items) <==> exists|from: Seq<A::Item>| #[trigger]
                mapped.source().yields(from) && mapped_from(mapped.function(), from, items),
{
}

} // verus!
