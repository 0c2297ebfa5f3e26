//! The 64-bit FNV-1a checksum that guards the content of archive entries.

use vstd::prelude::*;

verus! {

/// The value every checksum starts from.
pub const FNV_OFFSET_BASIS: u64 = 0xcbf2_9ce4_8422_2325;

/// The multiplier of each step.
pub const FNV_PRIME: u64 = 0x0000_0100_0000_01b3;

/// One step: the byte is mixed in, then the state is multiplied, modulo 2^64.
pub open spec fn fnv1a_step(state: u64, byte: u8) -> u64 {
    (state ^ (byte as u64)).wrapping_mul(FNV_PRIME)
}

/// The checksum of a byte sequence: the steps taken in order from the basis.
pub open spec fn fnv1a(content: Seq<u8>) -> u64
    decreases content.len(),
{
    if content.len() == 0 {
        FNV_OFFSET_BASIS
    } else {
        fnv1a_step(fnv1a(content.drop_last()), content.last())
    }
}

/// Computes the checksum of `content`.
pub fn checksum(content: &[u8]) -> (sum: u64)
    ensures
        sum == fnv1a(content@),
{
    let mut state: u64 = FNV_OFFSET_BASIS;
    let mut i: usize = 0;
    while i < content.len()
        invariant
            i <= content@.len(),
            state == fnv1a(content@.take(i as int)),
        decreases content@.len() - i,
    {
        assert(content@.take(i + 1).drop_last() =~= content@.take(i as int));
        state = (state ^ (content[i] as u64)).wrapping_mul(FNV_PRIME);
        i += 1;
    }
    assert(content@.take(i as int) =~= content@);
    state
}

} // verus!
