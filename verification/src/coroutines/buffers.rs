//! Byte-buffer helpers shared by the coroutines.

use vstd::prelude::*;
use crate::io::zeros;

verus! {

/// Calls `Vec::capacity`. The standard library documents the capacity as
/// the number of elements the vector can hold without reallocating, so it
/// is never below the length, and a vector never holds room for more than
/// `isize::MAX` bytes (its allocating methods panic beyond that), which
/// for bytes bounds the capacity. Where between those bounds it lies is up
/// to the allocator, and nothing more is claimed.
#[verifier::external_body]
pub(crate) fn vec_capacity(v: &Vec<u8>) -> (c: usize)
    ensures
        v@.len() <= c <= isize::MAX,
{
    v.capacity()
}

/// Calls `Vec::shrink_to`. Its documentation says it only lowers the
/// capacity (never below the length nor below `min_capacity`), so the
/// contents stay as they were; the resulting capacity is left unsaid.
#[verifier::external_body]
pub(crate) fn vec_shrink_to(v: &mut Vec<u8>, min_capacity: usize)
    ensures
        final(v)@ == old(v)@,
{
    v.shrink_to(min_capacity)
}

/// Overwrites every byte of `buf` with zero, keeping its length.
pub(crate) fn zero_fill(buf: &mut Vec<u8>)
    ensures
        final(buf)@ == zeros(old(buf)@.len()),
{
    let len = buf.len();
    let mut i: usize = 0;
    while i < len
        invariant
            len == buf@.len(),
            len == old(buf)@.len(),
            i <= len,
            forall|j: int| 0 <= j < i ==> buf@[j] == 0u8,
        decreases len - i,
    {
        buf.set(i, 0u8);
        i = i + 1;
    }
    assert(buf@ =~= zeros(len as nat));
}

/// A fresh buffer of `n` zero bytes.
pub(crate) fn zeroed(n: usize) -> (v: Vec<u8>)
    ensures
        v@ == zeros(n as nat),
{
    let v: Vec<u8> = vec![0u8; n];
    assert(v@ =~= zeros(n as nat));
    v
}

} // verus!
