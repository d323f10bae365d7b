//! The chunks of a body stream.

use bytes::Bytes;
use vstd::prelude::*;

verus! {

/// `bytes::Bytes`, a chunk of a body; what it holds is `bytes_content`.
#[verifier::external_type_specification]
#[verifier::external_body]
pub struct ExBytes(bytes::Bytes);

/// The bytes that a chunk holds, in order.
pub uninterp spec fn bytes_content(b: Bytes) -> Seq<u8>;

/// `Bytes::from` on a `Vec<u8>`: the chunk that holds the bytes of `v`.
#[verifier::external_body]
pub(crate) fn bytes_from_vec(v: Vec<u8>) -> (b: Bytes)
    ensures
        bytes_content(b) == v@,
{
    Bytes::from(v)
}

/// `Bytes::deref`, copied into a vector: the bytes that `b` holds.
#[verifier::external_body]
pub(crate) fn bytes_to_vec(b: &Bytes) -> (v: Vec<u8>)
    ensures
        v@ == bytes_content(*b),
{
    b.to_vec()
}

} // verus!
