//! Low-level single-threaded primitives: a growable buffer with an explicit
//! doubling capacity policy, a reference-counted shared-ownership handle, two
//! interior-mutability cells with a runtime-checked borrow discipline, a set
//! of comparison sorts, a delimiter-based string splitter, and an adapter
//! that flattens nested sequences.

pub mod cell;
pub mod nvec;
pub mod rc;
pub mod refcell;
pub mod sort;
pub mod insertionsort;
pub mod selectionsort;
pub mod quicksort;
pub mod strsplit;
pub mod iter;
