//! The byte buffer that pipes hold their in-flight data in: `bytes::BytesMut`.
use bytes::BytesMut;
use vstd::prelude::*;

verus! {

#[verifier::external_type_specification]
#[verifier::external_body]
pub struct ExBytesMut(BytesMut);

/// The bytes that a `BytesMut` holds, in order.
pub uninterp spec fn bytes_mut_contents(b: BytesMut) -> Seq<u8>;

/// `<BytesMut as From<&[u8]>>::from`: a buffer holding a copy of `src`.
#[verifier::external_body]
pub(crate) fn bytes_mut_from_slice(src: &[u8]) -> (b: BytesMut)
    ensures
        bytes_mut_contents(b) == src@,
{
    BytesMut::from(src)
}

/// `BytesMut::len`: the number of bytes held.
#[verifier::external_body]
pub(crate) fn bytes_mut_len(b: &BytesMut) -> (n: usize)
    ensures
        n == bytes_mut_contents(*b).len(),
{
    b.len()
}

/// `BytesMut::split_to`: panics if `at > len`; otherwise returns the first `at` bytes and
/// keeps the rest.
#[verifier::external_body]
pub(crate) fn bytes_mut_split_to(b: &mut BytesMut, at: usize) -> (head: BytesMut)
    requires
        at <= bytes_mut_contents(*old(b)).len(),
    ensures
        bytes_mut_contents(head) == bytes_mut_contents(*old(b)).take(at as int),
        bytes_mut_contents(*final(b)) == bytes_mut_contents(*old(b)).skip(at as int),
{
    b.split_to(at)
}

/// `<BytesMut as AsRef<[u8]>>::as_ref`: the held bytes as a slice.
#[verifier::external_body]
pub(crate) fn bytes_mut_as_slice(b: &BytesMut) -> (s: &[u8])
    ensures
        s@ == bytes_mut_contents(*b),
{
    b.as_ref()
}

/// Copies the first `n` bytes of `src` to the front of `dst`.
pub(crate) fn copy_prefix(dst: &mut [u8], src: &[u8], n: usize)
    requires
        n <= src@.len(),
        n <= old(dst)@.len(),
    ensures
        final(dst)@.len() == old(dst)@.len(),
        final(dst)@.take(n as int) == src@.take(n as int),
        final(dst)@.skip(n as int) == old(dst)@.skip(n as int),
{
    let mut i: usize = 0;
    while i < n
        invariant
            i <= n,
            n <= src@.len(),
            n <= old(dst)@.len(),
            dst@.len() == old(dst)@.len(),
            forall|j: int| 0 <= j < i ==> dst@[j] == src@[j],
            forall|j: int| i <= j < dst@.len() ==> dst@[j] == old(dst)@[j],
        decreases n - i,
    {
        dst[i] = src[i];
        i = i + 1;
    }
    assert(dst@.take(n as int) =~= src@.take(n as int));
    assert(dst@.skip(n as int) =~= old(dst)@.skip(n as int));
}

} // verus!
