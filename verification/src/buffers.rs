//! Sizes of GPU buffers, which WGSL wants in whole 4-byte words.
use vstd::prelude::*;

verus! {

/// The least multiple of 4 that is at least `size`.
pub open spec fn aligned_to_4(size: nat) -> nat {
    ((size + 3) / 4 * 4) as nat
}

/// `size` rounded up to a whole number of 4-byte words.
pub fn align_to_4_bytes(size: u64) -> (r: u64)
    requires
        size + 3 <= u64::MAX,
    ensures
        r == aligned_to_4(size as nat),
        r % 4 == 0,
        size <= r < size + 4,
{
    ((size + 3) / 4) * 4
}

/// Rounding up to whole words changes nothing of a size already aligned,
/// and the result is the least multiple of 4 that holds `size`.
pub proof fn lemma_aligned_to_4(size: nat, m: nat)
    ensures
        aligned_to_4(size) % 4 == 0,
        size <= aligned_to_4(size) < size + 4,
        aligned_to_4(aligned_to_4(size)) == aligned_to_4(size),
        m % 4 == 0 && size <= m ==> aligned_to_4(size) <= m,
{
}

} // verus!
