//! Small byte-buffer helpers shared by the fixed-length identifier codecs.

use vstd::prelude::*;

verus! {

/// A buffer of `n` zero bytes.
pub open spec fn spec_zero_bytes(n: int) -> Seq<u8> {
    Seq::new(n as nat, |i| 0u8)
}

/// Builds a buffer of `n` zero bytes.
pub fn zero_vec(n: usize) -> (r: Vec<u8>)
    ensures
        r@ == spec_zero_bytes(n as int),
{
    let mut r: Vec<u8> = Vec::new();
    let mut i: usize = 0;
    while i < n
        invariant
            0 <= i <= n,
            r@.len() == i,
            forall|j: int| 0 <= j < i ==> r@[j] == 0u8,
        decreases n - i,
    {
        r.push(0);
        i = i + 1;
    }
    proof {
        assert(r@ =~= spec_zero_bytes(n as int));
    }
    r
}

} // verus!
