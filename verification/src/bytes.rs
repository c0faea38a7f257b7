//! Comparisons of fixed-size byte strings.
use vstd::prelude::*;

verus! {

/// Byte-wise equality of two 32-byte strings.
pub fn bytes32_eq(a: &[u8; 32], b: &[u8; 32]) -> (r: bool)
    ensures
        r == (*a == *b),
{
    let mut i: usize = 0;
    while i < 32
        invariant
            i <= 32,
            forall|j: int| 0 <= j < i ==> a@[j] == b@[j],
        decreases 32 - i,
    {
        if a[i] != b[i] {
            return false;
        }
        i += 1;
    }
    assert(*a =~= *b);
    true
}

/// Whether every byte of `h` is zero (the genesis hash).
pub open spec fn is_zero_hash(h: [u8; 32]) -> bool {
    forall|i: int| 0 <= i < 32 ==> h@[i] == 0
}

/// Whether every byte of `h` is zero.
pub fn zero_hash(h: &[u8; 32]) -> (r: bool)
    ensures
        r == is_zero_hash(*h),
{
    let mut i: usize = 0;
    while i < 32
        invariant
            i <= 32,
            forall|j: int| 0 <= j < i ==> h@[j] == 0,
        decreases 32 - i,
    {
        if h[i] != 0 {
            return false;
        }
        i += 1;
    }
    true
}

} // verus!
