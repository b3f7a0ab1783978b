//! What this crate takes on trust of the `bytes` crate.
//!
//! Nothing here is proved: each contract restates what the named function
//! of `bytes` does.

use bytes::Bytes;
use vstd::prelude::*;

verus! {

/// `bytes::Bytes`, of which the verifier sees nothing but `bytes_contents`.
#[verifier::external_type_specification]
#[verifier::external_body]
pub struct ExBytes(bytes::Bytes);

/// The bytes that a `Bytes` buffer holds, in order.
pub uninterp spec fn bytes_contents(b: Bytes) -> Seq<u8>;

/// `Bytes::copy_from_slice`: a new buffer that holds a copy of `data`.
#[verifier::external_body]
pub(crate) fn bytes_copy_from_slice(data: &[u8]) -> (b: Bytes)
    ensures
        bytes_contents(b) == data@,
{
    Bytes::copy_from_slice(data)
}

/// `Bytes::from_static`: a buffer that shows the static slice `data`.
#[verifier::external_body]
pub(crate) fn bytes_from_static(data: &'static [u8]) -> (b: Bytes)
    ensures
        bytes_contents(b) == data@,
{
    Bytes::from_static(data)
}

/// `<Bytes as AsRef<[u8]>>::as_ref`: the contents of the buffer as a slice.
#[verifier::external_body]
pub(crate) fn bytes_as_slice(b: &Bytes) -> (s: &[u8])
    ensures
        s@ == bytes_contents(*b),
{
    b.as_ref()
}

/// `<Bytes as Clone>::clone`: a buffer with the same contents.
pub assume_specification[ <Bytes as Clone>::clone ](b: &Bytes) -> (copy: Bytes)
    ensures
        bytes_contents(copy) == bytes_contents(*b),
;

/// `BufMut::put_slice` on a `Vec<u8>`: the vector grows by the bytes of
/// `src`. For a vector the call is `Vec::extend_from_slice`, and fails only
/// where that does: when memory runs out.
#[verifier::external_body]
pub(crate) fn put_slice(buf: &mut Vec<u8>, src: &[u8])
    ensures
        final(buf)@ == old(buf)@ + src@,
{
    bytes::BufMut::put_slice(buf, src)
}

} // verus!
