use vstd::prelude::*;

verus! {

/// The number of set bits of a value below 16.
pub open spec fn nibble_popcount(n: int) -> int {
    (n % 2) + ((n / 2) % 2) + ((n / 4) % 2) + ((n / 8) % 2)
}

/// The number of set bits of a byte.
pub open spec fn byte_popcount(b: u8) -> int {
    nibble_popcount(b as int % 16) + nibble_popcount(b as int / 16)
}

/// The number of set bits of the first `n` bytes of `s`.
pub open spec fn popcount_prefix(s: Seq<u8>, n: int) -> int
    decreases n,
{
    if n <= 0 {
        0
    } else {
        popcount_prefix(s, n - 1) + byte_popcount(s[n - 1])
    }
}

/// The number of set bits of a 16-byte block, each byte counted as the sum of the
/// table entries for its low and high four bits.
pub fn popcount_block(v: &[u8; 16]) -> (r: u32)
    ensures
        r as int == popcount_prefix(v@, 16),
{
    let lut: [u8; 16] = [0, 1, 1, 2, 1, 2, 2, 3, 1, 2, 2, 3, 2, 3, 3, 4];
    assert forall|n: int| 0 <= n < 16 implies lut@[n] as int == nibble_popcount(n) by {
        assert(lut@ =~= seq![0u8, 1, 1, 2, 1, 2, 2, 3, 1, 2, 2, 3, 2, 3, 3, 4]);
    }
    let mut sum: u32 = 0;
    let mut i: usize = 0;
    while i < 16
        invariant
            0 <= i <= 16,
            v@.len() == 16,
            forall|n: int| 0 <= n < 16 ==> lut@[n] as int == nibble_popcount(n),
            sum as int == popcount_prefix(v@, i as int),
            sum <= 8 * i,
        decreases 16 - i,
    {
        let b = v[i];
        let lo = b & 0x0f;
        let hi = (b >> 4) & 0x0f;
        assert(lo == b % 16 && hi == b / 16) by (bit_vector)
            requires
                lo == b & 0x0f,
                hi == (b >> 4) & 0x0f,
        ;
        let cnt = lut[lo as usize] as u32 + lut[hi as usize] as u32;
        assert(cnt as int == byte_popcount(b));
        assert(cnt <= 8);
        sum = sum + cnt;
        i = i + 1;
    }
    sum
}

} // verus!
