//! What a handle hands on to the standard library: formatting and hashing of
//! the elements it shows.
//!
//! Both depend on the element type's own `Debug` and `Hash`, and on the
//! formatter or hasher they write to. Nothing is proved of what they write.
//! What is proved is what they are given: a handle passes the slice of its
//! window, no more of the block.

use std::fmt::Debug;
use std::fmt::Formatter;
use std::hash::Hash;
use std::hash::Hasher;
use vstd::prelude::*;

verus! {

/// `std::fmt::Formatter`, opaque: it is only passed through.
#[verifier::external_type_specification]
#[verifier::external_body]
pub struct ExFormatter<'a>(Formatter<'a>);

/// `std::fmt::Error`, opaque: it is only passed through.
#[verifier::external_type_specification]
#[verifier::external_body]
pub struct ExFmtError(std::fmt::Error);

/// Calls `Debug::fmt` of the slice `[T]`, which writes the elements as a list.
/// No claim is made of what is written or of the result: both are up to `T`'s
/// `Debug` and to the formatter.
#[verifier::external_body]
pub(crate) fn fmt_elements<T: Debug>(items: &[T], f: &mut Formatter<'_>) -> std::fmt::Result {
    Debug::fmt(items, f)
}

/// Calls `Hash::hash` of the slice `[T]`, which feeds the length and then each
/// element to the hasher. No claim is made of what the hasher is left with:
/// that is up to `T`'s `Hash` and to `H`.
#[verifier::external_body]
pub(crate) fn hash_elements<T: Hash, H: Hasher>(items: &[T], state: &mut H) {
    Hash::hash(items, state)
}

} // verus!
