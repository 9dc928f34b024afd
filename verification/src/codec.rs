//! Small byte-level helpers shared by the wire formats: fixed-size reads,
//! constant-shape comparisons, and the all-zero word.

use vstd::prelude::*;

verus! {

/// The all-zero 32-byte word, the one value the proof protocol rejects
/// outright in every proof field.
pub open spec fn zero32() -> Seq<u8> {
    Seq::new(32, |i: int| 0u8)
}

/// Whether two 32-byte words hold the same bytes.
pub fn bytes32_eq(a: &[u8; 32], b: &[u8; 32]) -> (r: bool)
    ensures
        r == (a@ == b@),
{
    let mut i: usize = 0;
    while i < 32
        invariant
            i <= 32,
            forall|j: int| 0 <= j < i ==> a@[j] == b@[j],
        decreases 32 - i,
    {
        if a[i] != b[i] {
            return false;
        }
        i += 1;
    }
    proof {
        assert(a@ =~= b@);
    }
    true
}

/// Whether a 32-byte word is all zero.
pub fn is_zero32(a: &[u8; 32]) -> (r: bool)
    ensures
        r == (a@ == zero32()),
{
    let mut i: usize = 0;
    while i < 32
        invariant
            i <= 32,
            forall|j: int| 0 <= j < i ==> a@[j] == 0u8,
        decreases 32 - i,
    {
        if a[i] != 0 {
            return false;
        }
        i += 1;
    }
    proof {
        assert(a@ =~= zero32());
    }
    true
}

/// The 32 bytes of `bytes` starting at `offset`, as a fresh array.
pub fn read_bytes32(bytes: &[u8], offset: usize) -> (r: [u8; 32])
    requires
        offset + 32 <= bytes@.len(),
    ensures
        r@ == bytes@.subrange(offset as int, offset as int + 32),
{
    let mut out = [0u8; 32];
    proof {
        vstd::slice::axiom_spec_len(bytes);
    }
    let mut i: usize = 0;
    while i < 32
        invariant
            i <= 32,
            offset + 32 <= bytes@.len(),
            bytes@.len() <= usize::MAX,
            forall|j: int| 0 <= j < i ==> out@[j] == bytes@[offset + j],
        decreases 32 - i,
    {
        out[i] = bytes[offset + i];
        i += 1;
    }
    proof {
        assert(out@ =~= bytes@.subrange(offset as int, offset as int + 32));
    }
    out
}

} // verus!
