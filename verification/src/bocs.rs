//! A single value in a heap block of its own.

use std::ops::Deref;
use std::ops::DerefMut;
use vstd::prelude::*;

verus! {

/// The sole owner of one value on the heap. The block is released, and the
/// value with it, when the owner goes.
pub struct Bocs<T> {
    inner: Box<T>,
}

impl<T> View for Bocs<T> {
    type V = T;

    closed spec fn view(&self) -> T {
        *self.inner
    }
}

impl<T> Bocs<T> {
    pub fn new(x: T) -> (b: Self)
        ensures
            b@ == x,
    {
        Bocs { inner: Box::new(x) }
    }
}

impl<T: Clone> Clone for Bocs<T> {
    /// Clones the value into a block of its own.
    fn clone(&self) -> (copy: Self)
        ensures
            cloned::<T>(self@, copy@),
    {
        let inner_clone = (*self.inner).clone();
        Bocs::new(inner_clone)
    }
}

impl<T> Deref for Bocs<T> {
    type Target = T;

    fn deref(&self) -> (value: &T)
        ensures
            *value == self@,
    {
        &*self.inner
    }
}

impl<T> DerefMut for Bocs<T> {
    fn deref_mut(&mut self) -> (value: &mut T)
        ensures
            *value == old(self)@,
            final(self)@ == *final(value),
    {
        &mut *self.inner
    }
}

} // verus!
