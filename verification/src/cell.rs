//! Cells: a bare value slot, a replaceable cell built on it, and a cell
//! guarded by a run-time borrow-state machine.

use vstd::prelude::*;
use vstd::std_specs::cmp::PartialEqSpec;
use vstd::std_specs::cmp::PartialEqSpecImpl;

verus! {

/// The innermost slot: a value and nothing else.
pub struct UnsafeCell<T> {
    value: T,
}

impl<T> View for UnsafeCell<T> {
    type V = T;

    closed spec fn view(&self) -> T {
        self.value
    }
}

impl<T> UnsafeCell<T> {
    #[inline(always)]
    pub fn new(v: T) -> (slot: Self)
        ensures
            slot@ == v,
    {
        UnsafeCell { value: v }
    }

    pub fn into_inner(self) -> (v: T)
        ensures
            v == self@,
    {
        self.value
    }

    /// Hands out the stored value for writing. Whatever the caller leaves
    /// behind the returned reference is what the slot holds afterwards.
    pub fn get(&mut self) -> (inner: &mut T)
        ensures
            *inner == old(self)@,
            final(self)@ == *final(inner),
    {
        &mut self.value
    }

}

impl<T: Clone> Clone for UnsafeCell<T> {
    fn clone(&self) -> (copy: Self)
        ensures
            cloned::<T>(self@, copy@),
    {
        UnsafeCell { value: self.value.clone() }
    }
}

impl<T: Copy> Copy for UnsafeCell<T> {

}

/// A cell whose content is swapped as one logical step. It performs no
/// aliasing check of its own; it is the storage for counters.
pub struct Cell<T> {
    value: UnsafeCell<T>,
}

impl<T> View for Cell<T> {
    type V = T;

    closed spec fn view(&self) -> T {
        self.value@
    }
}

impl<T> Cell<T> {
    pub fn new(v: T) -> (cell: Self)
        ensures
            cell@ == v,
    {
        Cell { value: UnsafeCell::new(v) }
    }

    /// Stores `val` and returns what was stored before. The previous value
    /// is not dropped here: it is the caller's to dispose of.
    pub fn replace(&mut self, val: T) -> (previous: T)
        ensures
            previous == old(self)@,
            final(self)@ == val,
    {
        crate::mem::replace(self.value.get(), val)
    }

    /// Stores `val`, discarding what was stored before.
    pub fn set(&mut self, val: T)
        ensures
            final(self)@ == val,
    {
        let _ = self.replace(val);
    }

    pub fn into_inner(self) -> (v: T)
        ensures
            v == self@,
    {
        self.value.into_inner()
    }
}

impl<T: Clone> Clone for Cell<T> {
    fn clone(&self) -> (copy: Self)
        ensures
            cloned::<T>(self@, copy@),
    {
        Cell { value: self.value.clone() }
    }
}

impl<T: Copy> Cell<T> {
    /// A copy of the stored value.
    pub fn get(&self) -> (v: T)
        ensures
            v == self@,
    {
        self.value.value
    }
}

impl<T: Copy> Copy for Cell<T> {

}

/// The borrow state of a guarded cell.
#[derive(Clone, Copy, Debug, PartialEq, Eq, Structural)]
pub enum RefState {
    /// Nobody holds a borrow.
    Initialized,
    /// This many shared borrows are outstanding.
    ImmutableRef(usize),
    /// One exclusive borrow is outstanding.
    MutableRef,
}

impl RefState {
    /// A shared state always counts at least one borrow.
    pub open spec fn wf(self) -> bool {
        self matches RefState::ImmutableRef(n) ==> n >= 1
    }

    /// How many shared borrows are outstanding.
    pub open spec fn readers(self) -> nat {
        match self {
            RefState::ImmutableRef(n) => n as nat,
            _ => 0,
        }
    }

    /// A shared borrow may be taken unless an exclusive one is out.
    pub open spec fn admits_shared(self) -> bool {
        self != RefState::MutableRef
    }

    /// An exclusive borrow may be taken only when nothing is borrowed.
    pub open spec fn admits_exclusive(self) -> bool {
        self == RefState::Initialized
    }

    /// The state after one more shared borrow.
    pub open spec fn share(self) -> RefState {
        match self {
            RefState::Initialized => RefState::ImmutableRef(1),
            RefState::ImmutableRef(n) => RefState::ImmutableRef((n + 1) as usize),
            RefState::MutableRef => RefState::MutableRef,
        }
    }

    /// The state after one shared borrow is given back.
    pub open spec fn unshare(self) -> RefState {
        match self {
            RefState::ImmutableRef(n) => if n <= 1 {
                RefState::Initialized
            } else {
                RefState::ImmutableRef((n - 1) as usize)
            },
            other => other,
        }
    }
}

/// The state after `k` shared borrows are given back.
pub open spec fn unshare_times(s: RefState, k: nat) -> RefState
    decreases k,
{
    if k == 0 {
        s
    } else {
        unshare_times(s.unshare(), (k - 1) as nat)
    }
}

/// Shared borrows coexist and shut out the exclusive one. From any state
/// that admits a shared borrow, a borrow leads to a state that admits
/// another shared borrow and no exclusive one, and giving the borrow back
/// leads to the state before.
pub proof fn lemma_shared_borrows_coexist(s: RefState)
    requires
        s.wf(),
        s.admits_shared(),
        s.readers() < usize::MAX,
    ensures
        s.share().wf(),
        s.share().readers() == s.readers() + 1,
        s.share().admits_shared(),
        !s.share().admits_exclusive(),
        s.share().unshare() == s,
{
}

/// Once every outstanding shared borrow is given back, nothing is
/// borrowed, and the exclusive borrow is admitted again; before that it
/// is not.
pub proof fn lemma_exclusive_after_all_released(s: RefState, k: nat)
    requires
        s.wf(),
        s.admits_shared(),
        k <= s.readers(),
    ensures
        unshare_times(s, k).wf(),
        unshare_times(s, k).readers() == s.readers() - k,
        unshare_times(s, k).admits_exclusive() <==> k == s.readers(),
    decreases k,
{
    if k > 0 {
        lemma_exclusive_after_all_released(s.unshare(), (k - 1) as nat);
    }
}

/// While the exclusive borrow is out, neither kind of borrow is admitted;
/// giving it back leaves nothing borrowed.
pub proof fn lemma_exclusive_borrow_is_alone(s: RefState)
    requires
        s == RefState::MutableRef,
    ensures
        !s.admits_shared(),
        !s.admits_exclusive(),
        RefState::Initialized.admits_shared(),
        RefState::Initialized.admits_exclusive(),
{
}

/// The token of one outstanding shared borrow. It is handed out by
/// [`RefCell::borrow`] and consumed by [`RefCell::release`].
#[must_use]
#[derive(Debug)]
pub struct Ref {
    _sealed: (),
}

/// The token of the outstanding exclusive borrow. It is handed out by
/// [`RefCell::borrow_mut`] and consumed by [`RefCell::release_mut`].
#[must_use]
#[derive(Debug)]
pub struct RefMut {
    _sealed: (),
}

/// A cell that tracks at run time who may read and who may write.
///
/// A borrow is a token. Taking one moves the state machine forward, the
/// value is reached through the cell by showing the token, and giving the
/// token back moves the state machine backward. A token cannot be copied or
/// made elsewhere, so each step back answers exactly one step forward.
///
/// [`RefCell::with_borrow`] and [`RefCell::with_borrow_mut`] are the scoped
/// forms: they take the borrow, run a function on the value, and give the
/// borrow back on the way out, so that no borrow is left outstanding.
pub struct RefCell<T> {
    value: UnsafeCell<T>,
    ref_state: Cell<RefState>,
}

impl<T> View for RefCell<T> {
    type V = T;

    closed spec fn view(&self) -> T {
        self.value@
    }
}

impl<T> RefCell<T> {
    /// The current borrow state.
    pub closed spec fn state(&self) -> RefState {
        self.ref_state@
    }

    pub open spec fn wf(&self) -> bool {
        self.state().wf()
    }

    pub fn new(value: T) -> (cell: Self)
        ensures
            cell.wf(),
            cell@ == value,
            cell.state() == RefState::Initialized,
    {
        RefCell { value: UnsafeCell::new(value), ref_state: Cell::new(RefState::Initialized) }
    }

    /// Reads the borrow state, so that a caller can test beforehand whether
    /// a borrow would be legal.
    pub fn ref_state(&self) -> (s: RefState)
        ensures
            s == self.state(),
    {
        self.ref_state.get()
    }

    /// Whether a shared borrow may be taken now.
    pub fn can_borrow(&self) -> (yes: bool)
        ensures
            yes == (self.state().admits_shared() && self.state().readers() < usize::MAX),
    {
        match self.ref_state.get() {
            RefState::Initialized => true,
            RefState::ImmutableRef(n) => n < usize::MAX,
            RefState::MutableRef => false,
        }
    }

    /// Whether the exclusive borrow may be taken now.
    pub fn can_borrow_mut(&self) -> (yes: bool)
        ensures
            yes == self.state().admits_exclusive(),
    {
        match self.ref_state.get() {
            RefState::Initialized => true,
            _ => false,
        }
    }

    /// Takes a shared borrow: `Initialized` becomes `ImmutableRef(1)`, and
    /// `ImmutableRef(n)` becomes `ImmutableRef(n + 1)`. Not legal while an
    /// exclusive borrow is out.
    pub fn borrow(&mut self) -> (guard: Ref)
        requires
            old(self).wf(),
            old(self).state().admits_shared(),
            old(self).state().readers() < usize::MAX,
        ensures
            final(self).wf(),
            final(self).state() == old(self).state().share(),
            final(self).state().readers() == old(self).state().readers() + 1,
            final(self)@ == old(self)@,
    {
        let next_state = match self.ref_state.get() {
            RefState::Initialized => RefState::ImmutableRef(1),
            RefState::ImmutableRef(n) => RefState::ImmutableRef(n + 1),
            RefState::MutableRef => RefState::MutableRef,
        };
        self.ref_state.set(next_state);
        Ref { _sealed: () }
    }

    /// The value, as seen through a shared borrow.
    pub fn read(&self, guard: &Ref) -> (inner: &T)
        requires
            self.state() is ImmutableRef,
        ensures
            *inner == self@,
    {
        &self.value.value
    }

    /// Gives one shared borrow back: `ImmutableRef(1)` becomes
    /// `Initialized`, and `ImmutableRef(n + 1)` becomes `ImmutableRef(n)`.
    pub fn release(&mut self, guard: Ref)
        requires
            old(self).wf(),
            old(self).state() is ImmutableRef,
        ensures
            final(self).wf(),
            final(self).state() == old(self).state().unshare(),
            final(self).state().readers() == old(self).state().readers() - 1,
            final(self)@ == old(self)@,
    {
        let next_state = match self.ref_state.get() {
            RefState::ImmutableRef(n) => if n <= 1 {
                RefState::Initialized
            } else {
                RefState::ImmutableRef(n - 1)
            },
            other => other,
        };
        self.ref_state.set(next_state);
    }

    /// Takes the exclusive borrow. Legal only when nothing is borrowed.
    pub fn borrow_mut(&mut self) -> (guard: RefMut)
        requires
            old(self).state().admits_exclusive(),
        ensures
            final(self).wf(),
            final(self).state() == RefState::MutableRef,
            final(self)@ == old(self)@,
    {
        self.ref_state.set(RefState::MutableRef);
        RefMut { _sealed: () }
    }

    /// The value, for writing, as seen through the exclusive borrow.
    /// Whatever the caller leaves behind the returned reference is what the
    /// cell holds afterwards; the borrow state does not change.
    pub fn write(&mut self, guard: &RefMut) -> (inner: &mut T)
        requires
            old(self).state() == RefState::MutableRef,
        ensures
            *inner == old(self)@,
            final(self)@ == *final(inner),
            final(self).state() == old(self).state(),
    {
        self.value.get()
    }

    /// Runs `f` on the value under a shared borrow of its own. The borrow
    /// is taken before `f` runs and given back when `f` returns, so the
    /// cell is left in the state in which it was found.
    pub fn with_borrow<R, F: FnOnce(&T) -> R>(&mut self, f: F) -> (result: R)
        requires
            old(self).wf(),
            old(self).state().admits_shared(),
            old(self).state().readers() < usize::MAX,
            f.requires((&old(self)@,)),
        ensures
            f.ensures((&old(self)@,), result),
            final(self).wf(),
            final(self).state() == old(self).state(),
            final(self)@ == old(self)@,
    {
        let guard = self.borrow();
        let result = f(self.read(&guard));
        self.release(guard);
        result
    }

    /// Runs `f` on the value under the exclusive borrow. The borrow is
    /// taken before `f` runs and given back when `f` returns.
    pub fn with_borrow_mut<R, F: FnOnce(&mut T) -> R>(&mut self, f: F) -> (result: R)
        requires
            old(self).state().admits_exclusive(),
            forall|v: &mut T| *v == old(self)@ ==> f.requires((v,)),
        ensures
            final(self).wf(),
            final(self).state() == RefState::Initialized,
            exists|v: &mut T|
                {
                    &&& *v == old(self)@
                    &&& *final(v) == final(self)@
                    &&& #[trigger] f.ensures((v,), result)
                },
    {
        let guard = self.borrow_mut();
        let result = f(self.write(&guard));
        self.release_mut(guard);
        result
    }

    /// Gives the exclusive borrow back: the state returns to `Initialized`.
    pub fn release_mut(&mut self, guard: RefMut)
        requires
            old(self).state() == RefState::MutableRef,
        ensures
            final(self).wf(),
            final(self).state() == RefState::Initialized,
            final(self)@ == old(self)@,
    {
        self.ref_state.set(RefState::Initialized);
    }
}

/// Two guarded cells are equal when the values they wrap are equal. The
/// borrow state takes no part in the comparison.
impl<T: PartialEq> PartialEq for RefCell<T> {
    fn eq(&self, other: &Self) -> (equal: bool) {
        self.value.value == other.value.value
    }
}

impl<T: PartialEq> PartialEqSpecImpl for RefCell<T> {
    open spec fn obeys_eq_spec() -> bool {
        T::obeys_eq_spec()
    }

    open spec fn eq_spec(&self, other: &Self) -> bool {
        self@.eq_spec(&other@)
    }
}

} // verus!
