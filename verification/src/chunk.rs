//! The chunks that a response body arrives in.
//!
//! A chunk is a [`bytes::Bytes`]; what is believed of that type is stated here and nowhere else.

use bytes::Bytes;
use vstd::prelude::*;

verus! {

#[verifier::external_type_specification]
#[verifier::external_body]
pub struct ExBytes(Bytes);

/// The bytes that a [`Bytes`] holds, in order.
pub uninterp spec fn chunk_bytes(chunk: Bytes) -> Seq<u8>;

/// [`Bytes::len`] gives the number of bytes held.
pub assume_specification[ Bytes::len ](chunk: &Bytes) -> (n: usize)
    ensures
        n == chunk_bytes(*chunk).len(),
;

/// [`Bytes::slice`] from `n` to the end: the bytes held, without the first `n`. Slicing past the
/// end panics, so `n` stays within the length.
#[verifier::external_body]
pub(crate) fn chunk_from(chunk: &Bytes, n: usize) -> (rest: Bytes)
    requires
        n <= chunk_bytes(*chunk).len(),
    ensures
        chunk_bytes(rest) == chunk_bytes(*chunk).skip(n as int),
{
    chunk.slice(n..)
}

} // verus!
