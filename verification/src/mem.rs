//! Value-level memory helpers.

use vstd::prelude::*;

verus! {

/// Overwrites the value behind `dest` with `src` and hands back the value
/// that was stored there before. Nothing is dropped: the caller owns the
/// returned old value.
pub fn replace<T>(dest: &mut T, src: T) -> (previous: T)
    ensures
        previous == *old(dest),
        *final(dest) == src,
{
    let mut incoming = src;
    std::mem::swap(dest, &mut incoming);
    incoming
}

} // verus!
