//! Owned byte buffers that outlive the packets they were copied from.

use bytes::Bytes;
use vstd::prelude::*;

verus! {

/// `bytes::Bytes`, a cheaply cloneable handle on a run of bytes. Nothing is
/// claimed of the type but that it can be named: what a handle holds is
/// spoken of through `contents`.
#[verifier::external_type_specification]
#[verifier::external_body]
pub struct ExBytes(bytes::Bytes);

/// The bytes that a `Bytes` handle holds, in order: what `Bytes::as_ref`
/// lends.
pub uninterp spec fn contents(bytes: Bytes) -> Seq<u8>;

/// `Bytes::from(Vec<u8>)`: takes the vector over as it is, so the handle
/// holds exactly the vector's bytes.
#[verifier::external_body]
pub(crate) fn bytes_from_vec(data: Vec<u8>) -> (bytes: Bytes)
    ensures
        contents(bytes) == data@,
{
    Bytes::from(data)
}

/// `Bytes::clone`: a second handle on the same bytes.
#[verifier::external_body]
pub(crate) fn bytes_clone(bytes: &Bytes) -> (copy: Bytes)
    ensures
        contents(copy) == contents(*bytes),
{
    bytes.clone()
}

} // verus!
