//! Copying into the fixed buffers of the inline representations, and the
//! standard library's boxed slices with the contracts the containers use.

use vstd::prelude::*;

verus! {

/// `buf` with `bytes` written over the positions from `start` on.
pub fn write_at<const N: usize>(buf: [u8; N], start: usize, bytes: &[u8]) -> (r: [u8; N])
    requires
        start + bytes@.len() <= N,
    ensures
        r@.subrange(0, start as int) == buf@.subrange(0, start as int),
        r@.subrange(start as int, start + bytes@.len()) == bytes@,
        r@.subrange(start + bytes@.len(), N as int) == buf@.subrange(
            start + bytes@.len(),
            N as int,
        ),
{
    let mut r = buf;
    let mut i: usize = 0;
    while i < bytes.len()
        invariant
            start + bytes@.len() <= N,
            i <= bytes@.len(),
            forall|k: int| 0 <= k < start ==> r@[k] == buf@[k],
            forall|k: int| 0 <= k < i ==> r@[start + k] == bytes@[k],
            forall|k: int| start + bytes@.len() <= k < N ==> r@[k] == buf@[k],
        decreases bytes@.len() - i,
    {
        r[start + i] = bytes[i];
        i += 1;
    }
    assert(r@.subrange(0, start as int) =~= buf@.subrange(0, start as int));
    assert(r@.subrange(start as int, start + bytes@.len()) =~= bytes@);
    assert(r@.subrange(start + bytes@.len(), N as int) =~= buf@.subrange(
        start + bytes@.len(),
        N as int,
    ));
    r
}

/// `Box::from` on a slice: a boxed slice of its own that holds a copy of the
/// elements.
#[verifier::external_body]
pub(crate) fn box_slice(s: &[u8]) -> (r: Box<[u8]>)
    ensures
        r@ == s@,
{
    Box::from(s)
}

/// `Vec::into_boxed_slice`: the elements of the vector in a buffer without
/// spare capacity.
#[verifier::external_body]
pub(crate) fn vec_into_boxed_slice(v: Vec<u8>) -> (r: Box<[u8]>)
    ensures
        r@ == v@,
{
    v.into_boxed_slice()
}

/// `Vec::shrink_to`: the vector keeps its elements; only its allocation may
/// become smaller.
#[verifier::external_body]
pub(crate) fn vec_shrink_to(v: &mut Vec<u8>, min_capacity: usize)
    ensures
        final(v)@ == old(v)@,
{
    v.shrink_to(min_capacity)
}

} // verus!
