//! Integer grid coordinates as single-precision bit patterns.
//!
//! The vertex record carries the tile's grid position as three
//! single-precision values, but the coordinates arrive as unsigned integers.
//! This module defines the IEEE 754 binary32 encoding of an unsigned integer
//! (round to nearest, ties to even — the rounding the conversion to single
//! precision uses), an executable conversion proved against it, and the
//! guarantee that the conversion is exact for every coordinate within the
//! format's exact-integer range.

use vstd::arithmetic::div_mod::{
    lemma_div_is_ordered, lemma_div_multiples_vanish, lemma_fundamental_div_mod,
    lemma_fundamental_div_mod_converse, lemma_multiply_divide_lt,
};
use vstd::arithmetic::mul::{lemma_mul_inequality, lemma_mul_strict_inequality};
use vstd::arithmetic::power2::{
    lemma2_to64, lemma_pow2_adds, lemma_pow2_pos, lemma_pow2_strictly_increases,
    lemma_pow2_unfold, pow2,
};
use vstd::prelude::*;

verus! {

/// Bit pattern of single-precision `1.0`: exponent field 127, mantissa 0.
pub const ONE_BITS: u32 = 0x3F80_0000;

/// Largest integer up to which every integer has an exact single-precision
/// representation: `2^24`.
pub const EXACT_RANGE: u32 = 0x100_0000;

/// Floor of the base-two logarithm.
pub open spec fn log2(n: nat) -> nat
    decreases n,
{
    if n < 2 {
        0
    } else {
        1 + log2(n / 2)
    }
}

/// The IEEE 754 binary32 bit pattern nearest to the integer `n` (ties to
/// even). For `n < 2^24` the mantissa is `n` shifted up to 24 bits and the
/// encoding is exact; above that the low bits are rounded off, and a mantissa
/// overflow carries into the exponent field.
pub open spec fn single_bits_of_uint(n: nat) -> u32
    recommends
        n <= u32::MAX,
{
    if n == 0 {
        0u32
    } else {
        let e = log2(n);
        if e <= 23 {
            ((e + 127) * 0x80_0000 + n * pow2((23 - e) as nat) - 0x80_0000) as u32
        } else {
            let d = pow2((e - 23) as nat);
            let q = n / d;
            let r = n % d;
            let q2: nat = if 2 * r > d || (2 * r == d && q % 2 == 1) {
                q + 1
            } else {
                q
            };
            ((e + 127) * 0x80_0000 + q2 - 0x80_0000) as u32
        }
    }
}

/// The nonnegative integer a bit pattern with clear sign bit stands for,
/// rounded down when the value is not an integer. Together with
/// [`single_bits_of_uint`] this makes exactness a provable round trip.
pub open spec fn uint_value_of_single_bits(b: u32) -> nat
    recommends
        b < 0x8000_0000,
{
    if b == 0 {
        0
    } else {
        let ebits = b as nat / 0x80_0000;
        let m = b as nat % 0x80_0000;
        if ebits >= 150 {
            (0x80_0000 + m) * pow2((ebits - 150) as nat)
        } else {
            (0x80_0000 + m) / pow2((150 - ebits) as nat)
        }
    }
}

/// `pow2(log2(n))` brackets `n` from below, `pow2(log2(n) + 1)` from above.
proof fn lemma_log2_bounds(n: nat)
    requires
        n >= 1,
    ensures
        pow2(log2(n)) <= n < pow2(log2(n) + 1),
    decreases n,
{
    lemma2_to64();
    if n < 2 {
    } else {
        lemma_log2_bounds(n / 2);
        lemma_fundamental_div_mod(n as int, 2);
        lemma_pow2_unfold(log2(n));
        lemma_pow2_unfold(log2(n) + 1);
    }
}

/// The bracketing powers of two determine `log2`.
proof fn lemma_log2_unique(n: nat, e: nat)
    requires
        pow2(e) <= n < pow2(e + 1),
    ensures
        log2(n) == e,
{
    lemma_pow2_pos(e);
    lemma_log2_bounds(n);
    if log2(n) < e {
        lemma_pow2_strictly_increases(log2(n) + 1, e + 1);
        if log2(n) + 1 < e {
            lemma_pow2_strictly_increases(log2(n) + 1, e);
        }
        assert(false);
    }
    if log2(n) > e {
        if e + 1 < log2(n) {
            lemma_pow2_strictly_increases(e + 1, log2(n));
        }
        assert(false);
    }
}

/// `2^e`, computed by repeated doubling.
fn pow2_u64(e: u32) -> (r: u64)
    requires
        e < 64,
    ensures
        r as nat == pow2(e as nat),
{
    let mut i: u32 = 0;
    let mut r: u64 = 1;
    proof {
        lemma2_to64();
    }
    while i < e
        invariant
            i <= e,
            e < 64,
            r as nat == pow2(i as nat),
        decreases e - i,
    {
        proof {
            lemma_pow2_unfold(i as nat + 1);
            if i as nat + 1 < 64 {
                lemma_pow2_strictly_increases(i as nat + 1, 64);
            }
            lemma2_to64();
        }
        r = 2 * r;
        i = i + 1;
    }
    r
}

/// Bit pattern of the single-precision value nearest to `x`, ties to even:
/// the value the numeric cast from a 32-bit unsigned integer to single
/// precision produces.
pub fn single_bits_from_u32(x: u32) -> (r: u32)
    ensures
        r == single_bits_of_uint(x as nat),
{
    if x == 0 {
        return 0;
    }
    let mut e: u32 = 0;
    let mut p: u64 = 1;
    proof {
        lemma2_to64();
    }
    while 2 * p <= x as u64
        invariant
            1 <= x,
            p as nat == pow2(e as nat),
            p <= x as u64,
            e <= 31,
        decreases x as int - p as int,
    {
        proof {
            lemma_pow2_unfold(e as nat + 1);
            lemma2_to64();
            if e as nat + 1 >= 32 {
                lemma_pow2_strictly_increases(32, e as nat + 1);
                assert(false);
            }
        }
        p = 2 * p;
        e = e + 1;
    }
    proof {
        lemma_pow2_unfold(e as nat + 1);
        lemma_log2_unique(x as nat, e as nat);
        lemma2_to64();
    }
    if e <= 23 {
        let shift: u64 = pow2_u64(23 - e);
        proof {
            lemma_pow2_adds((23 - e) as nat, e as nat + 1);
            lemma_pow2_adds((23 - e) as nat, e as nat);
            if ((23 - e) as nat) < 23 {
                lemma_pow2_strictly_increases((23 - e) as nat, 23);
            }
            // x * shift stays within [2^23, 2^24)
            lemma_mul_strict_inequality(x as int, pow2(e as nat + 1) as int, shift as int);
            lemma_mul_inequality(pow2(e as nat) as int, x as int, shift as int);
        }
        let q: u64 = (x as u64) * shift;
        ((e as u64 + 127) * 0x80_0000 + q - 0x80_0000) as u32
    } else {
        let d: u64 = pow2_u64(e - 23);
        proof {
            lemma_pow2_pos((e - 23) as nat);
            lemma_pow2_adds((e - 23) as nat, 24);
            lemma_pow2_adds((e - 23) as nat, 23);
            // q = x / d stays within [2^23, 2^24)
            lemma_multiply_divide_lt(x as int, d as int, 0x100_0000);
            lemma_div_multiples_vanish(0x80_0000, d as int);
            lemma_div_is_ordered((d * 0x80_0000) as int, x as int, d as int);
        }
        let q: u64 = (x as u64) / d;
        let r0: u64 = (x as u64) % d;
        let q2: u64 = if 2 * r0 > d || (2 * r0 == d && q % 2 == 1) {
            q + 1
        } else {
            q
        };
        ((e as u64 + 127) * 0x80_0000 + q2 - 0x80_0000) as u32
    }
}

/// The conversion is exact over the exact-integer range: encoding an integer
/// `n <= 2^24` and reading the encoded value back yields `n` again. Beyond
/// that range the format has too few mantissa bits and the guarantee stops.
pub proof fn lemma_single_bits_exact(n: nat)
    requires
        n <= EXACT_RANGE,
    ensures
        uint_value_of_single_bits(single_bits_of_uint(n)) == n,
{
    lemma2_to64();
    if n == 0 {
    } else if n < 0x100_0000 {
        let e = log2(n);
        lemma_log2_bounds(n);
        if e >= 24 {
            lemma_pow2_strictly_increases(24, e + 1);
            if e > 24 {
                lemma_pow2_strictly_increases(24, e);
            }
            assert(false);
        }
        let q = n * pow2((23 - e) as nat);
        assert(pow2(23) <= q < pow2(24)) by {
            lemma_pow2_pos((23 - e) as nat);
            lemma_pow2_adds((23 - e) as nat, e);
            lemma_pow2_adds((23 - e) as nat, e + 1);
            lemma_mul_inequality(pow2(e) as int, n as int, pow2((23 - e) as nat) as int);
            lemma_mul_strict_inequality(n as int, pow2(e + 1) as int, pow2((23 - e) as nat) as int);
        }
        let b = (e + 127) * 0x80_0000 + q - 0x80_0000;
        assert(single_bits_of_uint(n) == b as u32);
        assert(b < 0x8000_0000);
        let m = q - 0x80_0000;
        lemma_fundamental_div_mod_converse(b, 0x80_0000, (e + 127) as int, m);
        assert(b as u32 as nat / 0x80_0000 == e + 127);
        assert(b as u32 as nat % 0x80_0000 == m);
        if e == 23 {
            assert(uint_value_of_single_bits(b as u32) == q * pow2(0));
            assert((23 - e) as nat == 0);
            assert(pow2((23 - e) as nat) == 1);
            assert(q == n * 1);
            assert(n * 1 == n);
        } else {
            assert(150 - (e + 127) == 23 - e);
            assert(uint_value_of_single_bits(b as u32) == q / pow2((23 - e) as nat));
            lemma_pow2_pos((23 - e) as nat);
            lemma_div_multiples_vanish(n as int, pow2((23 - e) as nat) as int);
            assert(q == pow2((23 - e) as nat) * n) by (nonlinear_arith)
                requires
                    q == n * pow2((23 - e) as nat),
            ;
        }
    } else {
        // n == 2^24: exponent 24, mantissa 0, no rounding.
        let e = log2(n);
        assert(e == 24) by {
            lemma_log2_unique(n, 24);
        }
        assert(pow2(1) == 2);
        let q = n / 2;
        let r = n % 2;
        assert(q == 0x80_0000 && r == 0) by {
            lemma_fundamental_div_mod_converse(n as int, 2, 0x80_0000, 0);
        }
        let b = 151int * 0x80_0000;
        assert(single_bits_of_uint(n) == b as u32);
        lemma_fundamental_div_mod_converse(b, 0x80_0000, 151, 0);
        assert(b as u32 as nat / 0x80_0000 == 151);
        assert(b as u32 as nat % 0x80_0000 == 0);
        assert(uint_value_of_single_bits(b as u32) == 0x80_0000 * pow2(1));
    }
}

/// `1.0` is the encoding of the integer one, so the default tint channel is
/// exactly one.
pub proof fn lemma_one_bits()
    ensures
        ONE_BITS == single_bits_of_uint(1),
{
    lemma2_to64();
    assert(log2(1) == 0);
    assert(single_bits_of_uint(1) == (127 * 0x80_0000 + 1 * pow2(23) - 0x80_0000) as u32);
}

} // verus!
