//! Bit patterns of small integer-valued IEEE 754 single-precision
//! numbers, computed with integer arithmetic only.
//!
//! Spawn positions are derived from a player's spawn index and travel
//! on the wire as 32-bit float patterns. The protocol core never does
//! float arithmetic, so the pattern of a small non-negative integer is
//! built directly: a zero gives the all-zero pattern; otherwise the
//! exponent field holds `127 + floor(log2 n)` and the mantissa field
//! holds the bits of `n` below its leading one. Integers up to 2^23
//! are exactly representable, so no rounding is involved.

use vstd::prelude::*;
use vstd::arithmetic::power2::{
    lemma2_to64, lemma_pow2_strictly_increases, lemma_pow2_unfold, pow2,
};

verus! {

/// Largest integer this module converts: 2^23, the last value whose
/// mantissa fits without rounding.
pub const MAX_EXACT_F32_UINT: u32 = 0x0080_0000;

/// `floor(log2 n)` for positive `n`; 0 for 0.
pub open spec fn spec_floor_log2(n: nat) -> nat
    decreases n,
{
    if n < 2 {
        0
    } else {
        1 + spec_floor_log2(n / 2)
    }
}

/// The IEEE 754 single-precision bit pattern of the integer `n`,
/// for `n` up to 2^23.
pub open spec fn spec_f32_bits(n: u32) -> u32
    recommends
        n <= MAX_EXACT_F32_UINT,
{
    if n == 0 {
        0u32
    } else {
        let e = spec_floor_log2(n as nat);
        let exp_field = ((127 + e) as u32) << 23u32;
        let mant_field = (n << ((23 - e) as u32)) & 0x007F_FFFFu32;
        exp_field | mant_field
    }
}

/// `pow2(e) <= n < 2 * pow2(e)` pins `e` as the floor of `log2 n`.
proof fn lemma_floor_log2_bounds(n: nat, e: nat)
    requires
        pow2(e) <= n,
        n < 2 * pow2(e),
    ensures
        spec_floor_log2(n) == e,
    decreases e,
{
    if e == 0 {
        assert(pow2(0) == 1) by {
            lemma2_to64();
        }
    } else {
        lemma_pow2_unfold(e);
        assert(pow2(e) >= 2) by {
            lemma_pow2_strictly_increases(0, e);
            lemma2_to64();
        }
        assert(n / 2 >= pow2((e - 1) as nat) && n / 2 < 2 * pow2((e - 1) as nat))
            by (nonlinear_arith)
            requires
                pow2(e) == 2 * pow2((e - 1) as nat),
                pow2(e) <= n,
                n < 2 * pow2(e),
        ;
        lemma_floor_log2_bounds(n / 2, (e - 1) as nat);
    }
}

/// Compute the bit pattern of `n as f32` for integers up to 2^23.
pub fn f32_bits_of_uint(n: u32) -> (r: u32)
    requires
        n <= MAX_EXACT_F32_UINT,
    ensures
        r == spec_f32_bits(n),
{
    if n == 0 {
        return 0;
    }
    let mut e: u32 = 0;
    let mut m: u32 = n;
    proof {
        assert(pow2(0) == 1) by {
            lemma2_to64();
        }
    }
    while m >= 2
        invariant
            1 <= m,
            n <= MAX_EXACT_F32_UINT,
            e <= 23,
            spec_floor_log2(n as nat) == e + spec_floor_log2(m as nat),
            pow2(e as nat) * m <= n,
            n < pow2(e as nat) * (m + 1),
        decreases m,
    {
        proof {
            lemma_pow2_unfold((e + 1) as nat);
            // pow2(e + 1) * (m / 2) == pow2(e) * (2 * (m / 2)) <= pow2(e) * m
            assert(pow2((e + 1) as nat) * (m / 2) <= pow2(e as nat) * m && n < pow2(
                (e + 1) as nat,
            ) * (m / 2 + 1)) by (nonlinear_arith)
                requires
                    pow2((e + 1) as nat) == 2 * pow2(e as nat),
                    pow2(e as nat) * m <= n,
                    n < pow2(e as nat) * (m + 1),
                    m >= 2,
            ;
            if e + 1 > 23 {
                // then pow2(24) <= pow2(e + 1) * (m / 2) <= n, impossible
                lemma2_to64();
                if e + 1 > 24 {
                    lemma_pow2_strictly_increases(24, (e + 1) as nat);
                }
                assert(pow2((e + 1) as nat) * (m / 2) >= pow2(24)) by (nonlinear_arith)
                    requires
                        pow2((e + 1) as nat) >= pow2(24),
                        m / 2 >= 1,
                ;
                assert(false);
            }
        }
        m = m / 2;
        e = e + 1;
    }
    proof {
        // m == 1, so e is exactly floor(log2 n)
        assert(pow2(e as nat) <= n && n < 2 * pow2(e as nat)) by (nonlinear_arith)
            requires
                m == 1,
                pow2(e as nat) * m <= n,
                n < pow2(e as nat) * (m + 1),
        ;
        lemma_floor_log2_bounds(n as nat, e as nat);
    }
    let exp_field: u32 = (127 + e) << 23;
    let mant_field: u32 = (n << (23 - e)) & 0x007F_FFFF;
    exp_field | mant_field
}

} // verus!
