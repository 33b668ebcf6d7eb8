//! Shared ownership by counting: ownership blocks on a heap, strong handles
//! that own a block's value together, and weak observers that can tell
//! whether the value is still there without keeping it alive.
//!
//! A block carries two counts. `strong` counts the strong handles. `weak`
//! counts the weak observers plus one: as long as any strong handle exists,
//! the strong handles together hold one claim on the block's memory. This is
//! deliberate policy. It lets teardown run in two phases with one rule each:
//! the value is destroyed when `strong` reaches zero, at which point the
//! strong handles' joint claim is given up, and the memory is released when
//! `weak` reaches zero.
//!
//! Handles do not point into memory. A handle names a block of a [`Heap`] by
//! its address there, and every operation that reads or changes a block takes
//! the heap. Strong handles that reference each other in a cycle are never
//! torn down; hold one edge of such a cycle as a weak observer.

use crate::cell::Cell;
use std::marker::PhantomData;
use vstd::prelude::*;

verus! {

/// What an ownership block holds, as plain values.
pub struct Block<T> {
    /// The value, until it is destroyed.
    pub value: Option<T>,
    pub strong: nat,
    pub weak: nat,
}

impl<T> Block<T> {
    /// The value is there exactly as long as a strong handle exists, and a
    /// block that is still allocated is still claimed by somebody.
    pub open spec fn wf(self) -> bool {
        &&& self.value is Some <==> self.strong > 0
        &&& self.weak >= 1
    }

    /// The value is still there: some strong handle exists.
    pub open spec fn alive(self) -> bool {
        self.strong > 0
    }

    /// The block of a value that has just been placed on the heap.
    pub open spec fn fresh(v: T) -> Block<T> {
        Block { value: Some(v), strong: 1, weak: 1 }
    }

    /// The block after one more strong handle was made.
    pub open spec fn strong_added(self) -> Block<T> {
        Block { strong: self.strong + 1, ..self }
    }

    /// The block after one more weak observer was made.
    pub open spec fn weak_added(self) -> Block<T> {
        Block { weak: self.weak + 1, ..self }
    }

    /// What is left after a strong handle was dropped; `None` when the
    /// block's memory is released. The last strong handle takes the value
    /// with it and gives up the strong handles' claim on the memory.
    pub open spec fn strong_dropped(self) -> Option<Block<T>> {
        if self.strong > 1 {
            Some(Block { strong: (self.strong - 1) as nat, ..self })
        } else if self.weak > 1 {
            Some(Block { value: None, strong: 0, weak: (self.weak - 1) as nat })
        } else {
            None
        }
    }

    /// What is left after a weak observer was dropped; `None` when the
    /// block's memory is released.
    pub open spec fn weak_dropped(self) -> Option<Block<T>> {
        if self.weak > 1 || self.strong > 0 {
            Some(Block { weak: (self.weak - 1) as nat, ..self })
        } else {
            None
        }
    }
}

/// An ownership block: a value with its strong and weak counts.
pub struct RcInner<T> {
    value: Option<T>,
    strong_ref_count: Cell<usize>,
    weak_ref_count: Cell<usize>,
}

impl<T> View for RcInner<T> {
    type V = Block<T>;

    closed spec fn view(&self) -> Block<T> {
        Block {
            value: self.value,
            strong: self.strong_ref_count@ as nat,
            weak: self.weak_ref_count@ as nat,
        }
    }
}

impl<T> RcInner<T> {
    /// The block of a value that has just been placed on the heap: one
    /// strong handle, and the strong handles' claim among the weak count.
    pub fn new(value: T) -> (inner: Self)
        ensures
            inner@ == Block::fresh(value),
    {
        RcInner { value: Some(value), strong_ref_count: Cell::new(1), weak_ref_count: Cell::new(1) }
    }

    pub fn strong_ref_count(&self) -> (n: usize)
        ensures
            n == self@.strong,
    {
        self.strong_ref_count.get()
    }

    pub fn decr_strong_ref_count(&mut self)
        requires
            old(self)@.strong > 0,
        ensures
            final(self)@ == (Block { strong: (old(self)@.strong - 1) as nat, ..old(self)@ }),
    {
        let n: usize = self.strong_ref_count();
        self.strong_ref_count.set(n - 1);
    }

    pub fn incr_strong_ref_count(&mut self)
        requires
            old(self)@.strong < usize::MAX,
        ensures
            final(self)@ == old(self)@.strong_added(),
    {
        let n: usize = self.strong_ref_count();
        self.strong_ref_count.set(n + 1);
    }

    pub fn weak_ref_count(&self) -> (n: usize)
        ensures
            n == self@.weak,
    {
        self.weak_ref_count.get()
    }

    pub fn decr_weak_ref_count(&mut self)
        requires
            old(self)@.weak > 0,
        ensures
            final(self)@ == (Block { weak: (old(self)@.weak - 1) as nat, ..old(self)@ }),
    {
        let n: usize = self.weak_ref_count();
        self.weak_ref_count.set(n - 1);
    }

    pub fn incr_weak_ref_count(&mut self)
        requires
            old(self)@.weak < usize::MAX,
        ensures
            final(self)@ == old(self)@.weak_added(),
    {
        let n: usize = self.weak_ref_count();
        self.weak_ref_count.set(n + 1);
    }
}

/// What a heap slot holds, as plain values: the block, or nothing once the
/// block's memory was released.
pub open spec fn slot_view<T>(slot: Option<RcInner<T>>) -> Option<Block<T>> {
    match slot {
        Some(inner) => Some(inner@),
        None => None,
    }
}

/// The heap on which ownership blocks live. Addresses are handed out in
/// order and never reused, so an address cannot come to name another block.
pub struct Heap<T> {
    blocks: std::vec::Vec<Option<RcInner<T>>>,
}

impl<T> View for Heap<T> {
    type V = Seq<Option<Block<T>>>;

    /// At each address ever handed out: the block there, or `None` once its
    /// memory was released.
    closed spec fn view(&self) -> Seq<Option<Block<T>>> {
        Seq::new(self.blocks@.len(), |a: int| slot_view(self.blocks@[a]))
    }
}

impl<T> Heap<T> {
    /// Every block that is still allocated is well-formed.
    pub open spec fn wf(&self) -> bool {
        forall|a: int| 0 <= a < self@.len() ==> (#[trigger] self@[a] matches Some(b) ==> b.wf())
    }

    /// Whether the block at `addr` is still allocated.
    pub open spec fn allocated(&self, addr: nat) -> bool {
        addr < self@.len() && self@[addr as int] is Some
    }

    /// The block at `addr`.
    pub open spec fn block(&self, addr: nat) -> Block<T>
        recommends
            self.allocated(addr),
    {
        self@[addr as int].unwrap()
    }

    /// A heap without blocks.
    pub fn new() -> (heap: Self)
        ensures
            heap.wf(),
            heap@ == Seq::<Option<Block<T>>>::empty(),
    {
        let heap = Heap { blocks: std::vec::Vec::new() };
        assert(heap@ =~= Seq::<Option<Block<T>>>::empty());
        heap
    }

    /// How many addresses were handed out so far.
    pub fn len(&self) -> (n: usize)
        ensures
            n == self@.len(),
    {
        self.blocks.len()
    }

    /// Whether the block at `addr` is still allocated.
    pub fn is_allocated(&self, addr: usize) -> (yes: bool)
        ensures
            yes == self.allocated(addr as nat),
    {
        addr < self.blocks.len() && self.blocks[addr].is_some()
    }
}

/// A strong handle: one of the joint owners of a block's value.
pub struct Rc<T> {
    inner: usize,
    _owns: PhantomData<T>,
}

impl<T> Rc<T> {
    /// The address of the block that the handle names.
    pub closed spec fn addr(&self) -> nat {
        self.inner as nat
    }

    /// The handle counts among the strong handles of an allocated block of
    /// `heap`.
    pub open spec fn live_in(&self, heap: &Heap<T>) -> bool {
        heap.allocated(self.addr()) && heap.block(self.addr()).strong >= 1
    }

    /// Whether the handle counts among the strong handles of an allocated
    /// block of `heap`: what the operations on a handle ask of their caller.
    pub fn is_live(&self, heap: &Heap<T>) -> (yes: bool)
        ensures
            yes == self.live_in(heap),
    {
        if self.inner < heap.blocks.len() {
            match &heap.blocks[self.inner] {
                Some(inner) => inner.strong_ref_count() >= 1,
                None => false,
            }
        } else {
            false
        }
    }

    /// Places `v` in a new block and returns its first strong handle. Both
    /// counts start at 1: one strong handle, and the strong handles' joint
    /// claim on the block's memory.
    pub fn new(heap: &mut Heap<T>, v: T) -> (rc: Self)
        requires
            old(heap).wf(),
        ensures
            final(heap).wf(),
            rc.addr() == old(heap)@.len(),
            final(heap)@ == old(heap)@.push(Some(Block::fresh(v))),
            rc.live_in(final(heap)),
    {
        let addr: usize = heap.blocks.len();
        heap.blocks.push(Some(RcInner::new(v)));
        assert(heap@ =~= old(heap)@.push(Some(Block::fresh(v))));
        Rc { inner: addr, _owns: PhantomData }
    }

    /// The number of strong handles of the block.
    pub fn strong_count(this: &Rc<T>, heap: &Heap<T>) -> (n: usize)
        requires
            this.live_in(heap),
        ensures
            n == heap.block(this.addr()).strong,
    {
        match &heap.blocks[this.inner] {
            Some(inner) => inner.strong_ref_count(),
            None => 0,
        }
    }

    /// The weak count of the block: its weak observers, and one for the
    /// strong handles together.
    pub fn weak_count(this: &Rc<T>, heap: &Heap<T>) -> (n: usize)
        requires
            this.live_in(heap),
        ensures
            n == heap.block(this.addr()).weak,
    {
        match &heap.blocks[this.inner] {
            Some(inner) => inner.weak_ref_count(),
            None => 0,
        }
    }

    /// The value that the handle co-owns.
    pub fn as_ref<'a>(&self, heap: &'a Heap<T>) -> (value: &'a T)
        requires
            heap.wf(),
            self.live_in(heap),
        ensures
            Some(*value) == heap.block(self.addr()).value,
    {
        assert(heap@[self.inner as int] is Some);
        heap.blocks[self.inner].as_ref().unwrap().value.as_ref().unwrap()
    }

    /// The value that the handle co-owns, for writing. Nothing checks that
    /// no other handle of the block is in use meanwhile: that is the
    /// caller's affair. The counts do not change.
    pub fn get_mut_unchecked<'a>(&mut self, heap: &'a mut Heap<T>) -> (value: &'a mut T)
        requires
            old(heap).wf(),
            old(self).live_in(old(heap)),
        ensures
            final(self).addr() == old(self).addr(),
            Some(*value) == old(heap).block(old(self).addr()).value,
            final(heap)@ == old(heap)@.update(
                old(self).addr() as int,
                Some(Block { value: Some(*final(value)), ..old(heap).block(old(self).addr()) }),
            ),
    {
        assert(heap@[self.inner as int] is Some);
        let inner = heap.blocks[self.inner].as_mut().unwrap();
        inner.value.as_mut().unwrap()
    }

    /// Makes a weak observer of the block: the weak count goes up by one.
    pub fn downgrade(this: &Rc<T>, heap: &mut Heap<T>) -> (observer: Weak<T>)
        requires
            old(heap).wf(),
            this.live_in(old(heap)),
            old(heap).block(this.addr()).weak < usize::MAX,
        ensures
            final(heap).wf(),
            observer.target() == Some(this.addr()),
            final(heap)@ == old(heap)@.update(
                this.addr() as int,
                Some(old(heap).block(this.addr()).weak_added()),
            ),
    {
        let mut slot = crate::mem::replace(&mut heap.blocks[this.inner], None);
        match &mut slot {
            Some(inner) => inner.incr_weak_ref_count(),
            None => {},
        }
        heap.blocks[this.inner] = slot;
        assert(heap@ =~= old(heap)@.update(
            this.addr() as int,
            Some(old(heap).block(this.addr()).weak_added()),
        ));
        Weak { inner: Link::Live(this.inner), _observes: PhantomData }
    }

    /// Makes another strong handle of the same block: the strong count goes
    /// up by one, and both handles read the new count.
    pub fn clone(&self, heap: &mut Heap<T>) -> (copy: Self)
        requires
            old(heap).wf(),
            self.live_in(old(heap)),
            old(heap).block(self.addr()).strong < usize::MAX,
        ensures
            final(heap).wf(),
            copy.addr() == self.addr(),
            final(heap)@ == old(heap)@.update(
                self.addr() as int,
                Some(old(heap).block(self.addr()).strong_added()),
            ),
            self.live_in(final(heap)),
            copy.live_in(final(heap)),
    {
        let mut slot = crate::mem::replace(&mut heap.blocks[self.inner], None);
        match &mut slot {
            Some(inner) => inner.incr_strong_ref_count(),
            None => {},
        }
        heap.blocks[self.inner] = slot;
        assert(heap@ =~= old(heap)@.update(
            self.addr() as int,
            Some(old(heap).block(self.addr()).strong_added()),
        ));
        Rc { inner: self.inner, _owns: PhantomData }
    }

    /// Gives the handle up: the strong count goes down by one. The last
    /// strong handle ends the value's life in the block and then gives up
    /// the strong handles' claim on the memory; if no weak observer is left
    /// either, the block's memory is released, and otherwise the block stays,
    /// without its value, for the observers to find it expired.
    ///
    /// The value that left the block is handed to the caller, once, by the
    /// drop of the last strong handle. A value that holds handles of its
    /// own can only give them up against the heap, so its disposal is the
    /// caller's; a caller with nothing to give up lets it fall.
    pub fn drop(self, heap: &mut Heap<T>) -> (destroyed: Option<T>)
        requires
            old(heap).wf(),
            self.live_in(old(heap)),
        ensures
            final(heap).wf(),
            final(heap)@ == old(heap)@.update(
                self.addr() as int,
                old(heap).block(self.addr()).strong_dropped(),
            ),
            destroyed == if old(heap).block(self.addr()).strong == 1 {
                old(heap).block(self.addr()).value
            } else {
                None
            },
    {
        let mut slot = crate::mem::replace(&mut heap.blocks[self.inner], None);
        let mut destroyed: Option<T> = None;
        let mut release = false;
        match &mut slot {
            Some(inner) => {
                inner.decr_strong_ref_count();
                if inner.strong_ref_count() == 0 {
                    destroyed = crate::mem::replace(&mut inner.value, None);
                    inner.decr_weak_ref_count();
                    release = inner.weak_ref_count() == 0;
                }
            },
            None => {},
        }
        if !release {
            heap.blocks[self.inner] = slot;
        }
        assert(heap@ =~= old(heap)@.update(
            self.addr() as int,
            old(heap).block(self.addr()).strong_dropped(),
        ));
        destroyed
    }
}

/// What a weak observer refers to: a block by its address, or nothing.
#[derive(Clone, Copy, Debug, PartialEq, Eq, Structural)]
pub enum Link {
    /// The observer was made from a strong handle of the block at this address.
    Live(usize),
    /// The observer never referred to a block.
    Empty,
}

/// A weak observer: it can find out whether a block's value is still
/// there, and holds the block's memory, but not its value.
pub struct Weak<T> {
    inner: Link,
    _observes: PhantomData<T>,
}

/// Whether the observer refers to no block at all. The answer comes from
/// the observer's tag, never from the address.
pub fn is_dangling_pointer<T>(observer: &Weak<T>) -> (dangling: bool)
    ensures
        dangling == (observer.target() is None),
{
    match observer.inner {
        Link::Live(_) => false,
        Link::Empty => true,
    }
}

impl<T> Weak<T> {
    /// The address of the observed block, if the observer refers to one.
    pub closed spec fn target(&self) -> Option<nat> {
        match self.inner {
            Link::Live(addr) => Some(addr as nat),
            Link::Empty => None,
        }
    }

    /// An observer that refers to a block counts among the claims on that
    /// block's memory: the block is still allocated, and while strong
    /// handles exist the weak count covers their joint claim besides.
    pub open spec fn valid_in(&self, heap: &Heap<T>) -> bool {
        self.target() matches Some(addr) ==> {
            &&& heap.allocated(addr)
            &&& heap.block(addr).strong > 0 ==> heap.block(addr).weak >= 2
        }
    }

    /// Whether the observer is valid in `heap`: what the operations on an
    /// observer ask of their caller.
    pub fn is_valid(&self, heap: &Heap<T>) -> (yes: bool)
        ensures
            yes == self.valid_in(heap),
    {
        match self.inner {
            Link::Empty => true,
            Link::Live(addr) => {
                if addr < heap.blocks.len() {
                    match &heap.blocks[addr] {
                        Some(inner) => inner.strong_ref_count() == 0 || inner.weak_ref_count()
                            >= 2,
                        None => false,
                    }
                } else {
                    false
                }
            },
        }
    }

    /// An observer that refers to no block.
    pub fn new() -> (observer: Self)
        ensures
            observer.target() is None,
    {
        Weak { inner: Link::Empty, _observes: PhantomData }
    }

    /// The address of the observed block, or `None` for an observer that
    /// refers to no block.
    pub fn as_ptr(&self) -> (addr: Option<usize>)
        ensures
            match addr {
                Some(a) => self.target() == Some(a as nat),
                None => self.target() is None,
            },
    {
        match self.inner {
            Link::Live(addr) => Some(addr),
            Link::Empty => None,
        }
    }

    /// The number of strong handles of the observed block; 0 for an
    /// observer that refers to no block.
    pub fn strong_count(&self, heap: &Heap<T>) -> (n: usize)
        requires
            self.valid_in(heap),
        ensures
            n == match self.target() {
                Some(addr) => heap.block(addr).strong,
                None => 0,
            },
    {
        match self.inner {
            Link::Live(addr) => match &heap.blocks[addr] {
                Some(inner) => inner.strong_ref_count(),
                None => 0,
            },
            Link::Empty => 0,
        }
    }

    /// The weak count of the observed block; 0 for an observer that refers
    /// to no block.
    pub fn weak_count(&self, heap: &Heap<T>) -> (n: usize)
        requires
            self.valid_in(heap),
        ensures
            n == match self.target() {
                Some(addr) => heap.block(addr).weak,
                None => 0,
            },
    {
        match self.inner {
            Link::Live(addr) => match &heap.blocks[addr] {
                Some(inner) => inner.weak_ref_count(),
                None => 0,
            },
            Link::Empty => 0,
        }
    }

    /// Tries to make a strong handle from the observer. There is none to be
    /// had when the observer refers to no block, or when the block's last
    /// strong handle is gone and its value with it. Otherwise the strong
    /// count goes up by one.
    pub fn upgrade(&self, heap: &mut Heap<T>) -> (handle: Option<Rc<T>>)
        requires
            old(heap).wf(),
            self.valid_in(old(heap)),
            self.target() matches Some(addr) ==> old(heap).block(addr).strong < usize::MAX,
        ensures
            final(heap).wf(),
            match self.target() {
                Some(addr) if old(heap).block(addr).alive() => {
                    &&& handle matches Some(rc)
                    &&& rc.addr() == addr
                    &&& rc.live_in(final(heap))
                    &&& final(heap)@ == old(heap)@.update(
                        addr as int,
                        Some(old(heap).block(addr).strong_added()),
                    )
                },
                _ => handle is None && final(heap)@ == old(heap)@,
            },
    {
        match self.inner {
            Link::Empty => None,
            Link::Live(addr) => {
                if Weak::strong_count(self, heap) == 0 {
                    None
                } else {
                    let mut slot = crate::mem::replace(&mut heap.blocks[addr], None);
                    match &mut slot {
                        Some(inner) => inner.incr_strong_ref_count(),
                        None => {},
                    }
                    heap.blocks[addr] = slot;
                    assert(heap@ =~= old(heap)@.update(
                        addr as int,
                        Some(old(heap).block(addr as nat).strong_added()),
                    ));
                    Some(Rc { inner: addr, _owns: PhantomData })
                }
            },
        }
    }

    /// Gives the observer up. For an observer that refers to no block this
    /// does nothing. Otherwise the weak count goes down by one, and if that
    /// was the last claim on a block whose value is already gone, the
    /// block's memory is released.
    pub fn drop(self, heap: &mut Heap<T>)
        requires
            old(heap).wf(),
            self.valid_in(old(heap)),
        ensures
            final(heap).wf(),
            final(heap)@ == match self.target() {
                Some(addr) => old(heap)@.update(
                    addr as int,
                    old(heap).block(addr).weak_dropped(),
                ),
                None => old(heap)@,
            },
    {
        if !is_dangling_pointer(&self) {
            let addr: usize = self.as_ptr().unwrap();
            let mut slot = crate::mem::replace(&mut heap.blocks[addr], None);
            let mut release = false;
            match &mut slot {
                Some(inner) => {
                    inner.decr_weak_ref_count();
                    release = inner.weak_ref_count() == 0 && inner.strong_ref_count() == 0;
                },
                None => {},
            }
            if !release {
                heap.blocks[addr] = slot;
            }
            assert(heap@ =~= old(heap)@.update(
                addr as int,
                old(heap).block(addr as nat).weak_dropped(),
            ));
        }
    }
}

/// Cloning a strong handle raises the strong count of its block by one, and
/// dropping the clone again puts the heap back exactly as it was.
pub proof fn lemma_clone_then_drop_restores<T>(heap: Seq<Option<Block<T>>>, addr: int)
    requires
        0 <= addr < heap.len(),
        heap[addr] matches Some(b) && b.wf() && b.alive(),
    ensures
        ({
            let before = heap[addr].unwrap();
            let cloned = heap.update(addr, Some(before.strong_added()));
            let after = cloned.update(addr, cloned[addr].unwrap().strong_dropped());
            &&& cloned[addr].unwrap().strong == before.strong + 1
            &&& after[addr].unwrap().strong == before.strong
            &&& after == heap
        }),
{
    let before = heap[addr].unwrap();
    let cloned = heap.update(addr, Some(before.strong_added()));
    let after = cloned.update(addr, cloned[addr].unwrap().strong_dropped());
    assert(after =~= heap);
}

/// The value goes exactly when the last strong handle goes. Dropping a
/// strong handle that is not the last leaves the value where it is.
/// Dropping the last one either releases the block, when no weak observer
/// holds it, or leaves a block without value and without strong handles,
/// from which no step leads back to a value: it admits no strong drop and
/// no upgrade, and a weak drop leaves the value gone.
pub proof fn lemma_last_strong_drop_destroys_value<T>(b: Block<T>)
    requires
        b.wf(),
        b.alive(),
    ensures
        b.strong > 1 ==> ({
            &&& b.strong_dropped() matches Some(rest)
            &&& rest.wf()
            &&& rest.alive()
            &&& rest.value == b.value
        }),
        b.strong == 1 && b.weak == 1 ==> b.strong_dropped() is None,
        b.strong == 1 && b.weak > 1 ==> ({
            &&& b.strong_dropped() matches Some(rest)
            &&& rest.wf()
            &&& !rest.alive()
            &&& rest.value is None
            &&& rest.weak == b.weak - 1
            &&& rest.weak_dropped() matches Some(later) ==> later.value is None && !later.alive()
        }),
{
}

/// A weak observer keeps the block of a dead value in memory. With an
/// observer made by `downgrade`, the block outlives its last strong
/// handle: it stays allocated, its strong count reads 0, its weak count
/// still counts the observer, and it is not alive, so no strong handle can
/// be made from it again. The observer's own drop then releases the block.
pub proof fn lemma_observer_outlives_value<T>(b: Block<T>)
    requires
        b.wf(),
        b.strong == 1,
    ensures
        ({
            &&& b.weak_added().strong_dropped() matches Some(rest)
            &&& rest.wf()
            &&& !rest.alive()
            &&& rest.strong == 0
            &&& rest.weak == b.weak
            &&& rest.value is None
        }),
        b.weak == 1 ==> b.weak_added().strong_dropped().unwrap().weak_dropped() is None,
{
}

} // verus!
