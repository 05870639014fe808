//! Shared byte buffers.
//!
//! Media payloads travel from the publisher through the registry to every
//! subscriber without copying: they are carried in `bytes::Bytes`, an
//! atomically reference-counted slice. This module declares that outside
//! type and the handful of operations the library relies on, each stated
//! over the buffer's contents `bytes_view`.

use vstd::prelude::*;

use bytes::Buf;
use bytes::Bytes;

verus! {

#[verifier::external_type_specification]
#[verifier::external_body]
pub struct ExBytes(Bytes);

/// The bytes that a `Bytes` buffer holds, in order.
pub uninterp spec fn bytes_view(b: Bytes) -> Seq<u8>;

/// Relies on Bytes::len: the number of bytes in the buffer.
#[verifier::external_body]
pub fn bytes_len(b: &Bytes) -> (r: usize)
    ensures
        r == bytes_view(*b).len(),
{
    b.len()
}

/// Relies on the slice indexing that Bytes derefs to: the byte at `i`.
#[verifier::external_body]
pub fn bytes_get(b: &Bytes, i: usize) -> (r: u8)
    requires
        i < bytes_view(*b).len(),
    ensures
        r == bytes_view(*b)[i as int],
{
    b[i]
}

/// Relies on Bytes::to_vec (via the slice deref): a copy of the contents.
#[verifier::external_body]
pub fn bytes_to_vec(b: &Bytes) -> (r: Vec<u8>)
    ensures
        r@ == bytes_view(*b),
{
    b.to_vec()
}

/// Relies on From<Vec<u8>> for Bytes: the buffer takes over the vector's
/// bytes unchanged.
#[verifier::external_body]
pub fn vec_to_bytes(v: Vec<u8>) -> (r: Bytes)
    ensures
        bytes_view(r) == v@,
{
    Bytes::from(v)
}

/// Relies on Bytes::clone: a second reference-counted handle to the same
/// bytes.
pub assume_specification[ <Bytes as Clone>::clone ](b: &Bytes) -> (r: Bytes)
    ensures
        bytes_view(r) == bytes_view(*b),
;

/// Relies on Buf::advance for Bytes: drops the first `n` bytes from the
/// front of the buffer.
#[verifier::external_body]
pub fn bytes_advance(b: &mut Bytes, n: usize)
    requires
        n <= bytes_view(*old(b)).len(),
    ensures
        bytes_view(*final(b)) == bytes_view(*old(b)).skip(n as int),
{
    b.advance(n)
}

/// Relies on Bytes::slice: a new handle onto the bytes from `start` to
/// `end`, sharing the same allocation.
#[verifier::external_body]
pub fn bytes_slice(b: &Bytes, start: usize, end: usize) -> (r: Bytes)
    requires
        start <= end <= bytes_view(*b).len(),
    ensures
        bytes_view(r) == bytes_view(*b).subrange(start as int, end as int),
{
    b.slice(start..end)
}

} // verus!
