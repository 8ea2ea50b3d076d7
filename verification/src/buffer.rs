//! `bytes::Bytes`, the form in which body chunks travel.
use bytes::Bytes;
use vstd::prelude::*;

verus! {

/// `bytes::Bytes`: an owned run of bytes that is cheap to hand on.
#[verifier::external_type_specification]
#[verifier::external_body]
pub struct ExBytes(Bytes);

/// The bytes that a `Bytes` holds, in order.
pub uninterp spec fn bytes_view(b: Bytes) -> Seq<u8>;

/// `Bytes::from` for a `Vec<u8>`: the same bytes, in the same order.
#[verifier::external_body]
pub(crate) fn bytes_from_vec(v: Vec<u8>) -> (b: Bytes)
    ensures
        bytes_view(b) == v@,
{
    Bytes::from(v)
}

/// `AsRef<[u8]>::as_ref` of `Bytes`: the bytes, to read.
#[verifier::external_body]
pub(crate) fn bytes_as_slice(b: &Bytes) -> (s: &[u8])
    ensures
        s@ == bytes_view(*b),
{
    b.as_ref()
}

} // verus!
