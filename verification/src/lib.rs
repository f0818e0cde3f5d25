//! Reference-counted slices: shared, read-only windows into one owned block.
//!
//! A handle is like `&[T]` without a lifetime. Handles that were cloned or
//! narrowed from one another share one block of elements, which lives until
//! the last of them is gone; each shows a window of it.
//! [`rc::RcSlice`] is for use within one thread, [`arc::ArcSlice`] can be
//! shared between threads.

pub mod arc;
pub mod compare;
pub mod delegate;
pub mod rc;
pub mod window;
