//! Low-level memory-management primitives with machine-checked contracts:
//! a growable contiguous buffer, interior-mutability cells, and a
//! reference-counted ownership block with strong handles and weak observers.
//!
//! Everything here is single-threaded and free of `unsafe`. State that several
//! parties share is held in one place and taken by `&mut`, so that every
//! transition of a count or of a borrow state is a step the verifier sees.

pub mod bocs;
pub mod cell;
pub mod growth;
pub mod iter;
pub mod mem;
pub mod raw_buf;
pub mod rc;
pub mod vec;
pub mod vec1;
