//! IEEE-754 bit patterns of the few floating-point values that the pipeline
//! has to produce or test itself.
//!
//! A binary64 value is laid out as one sign bit, eleven exponent bits with a
//! bias of 1023, and fifty-two fraction bits.

use vstd::arithmetic::power2::{
    lemma2_to64, lemma2_to64_rest, lemma_pow2_pos, lemma_pow2_strictly_increases,
    lemma_pow2_unfold, pow2,
};
use vstd::prelude::*;

verus! {

/// The bits of `+0.0`.
pub const F64_ZERO: u64 = 0;

/// The bits of positive infinity: every larger pattern without the sign bit
/// is a NaN.
pub const F64_INFINITY: u64 = 0x7FF0_0000_0000_0000;

/// The sign bit.
pub const F64_SIGN: u64 = 0x8000_0000_0000_0000;

/// The bits of `1.0`.
pub const F64_ONE: u64 = 0x3FF0_0000_0000_0000;

/// Two to the power of 52: the weight of the exponent field.
pub const F64_FRACTION_SPAN: u64 = 0x10_0000_0000_0000;

/// The position of the highest set bit of `n`, and 0 for `n == 0`.
pub open spec fn floor_log2(n: nat) -> nat
    decreases n,
{
    if n <= 1 {
        0
    } else {
        1 + floor_log2(n / 2)
    }
}

/// The binary64 bits of the whole number `n`, which is exact below 2^53:
/// with `p` the position of the highest set bit, the exponent field is
/// `1023 + p` and the fraction field holds the bits of `n` below that bit,
/// moved to the top of the field.
pub open spec fn f64_bits_of_nat(n: nat) -> int
    recommends
        n < pow2(53),
{
    if n == 0 {
        0
    } else {
        let p = floor_log2(n);
        (1023 + p) * pow2(52) + (n - pow2(p)) * pow2((52 - p) as nat)
    }
}

/// A binary64 pattern stands for a value greater than zero when its sign bit
/// is clear and it is neither zero nor a NaN.
pub open spec fn f64_is_positive(bits: u64) -> bool {
    0 < bits <= F64_INFINITY
}

/// The binary64 pattern of the negated value.
pub open spec fn f64_negated(bits: u64) -> u64 {
    if bits >= F64_SIGN {
        (bits - F64_SIGN) as u64
    } else {
        (bits + F64_SIGN) as u64
    }
}

/// The binary64 value with these bits, rounded to the nearest whole number
/// with halves rounded up, and held within the range of `u64`: negative
/// values and NaNs give 0, and values beyond the range give `u64::MAX`.
///
/// A positive value with exponent field `e > 0` and fraction field `f` is
/// `(2^52 + f) * 2^(e - 1075)`; with `e == 0` it is below `2^-1022`.
pub open spec fn f64_rounded(bits: u64) -> int {
    let e = (bits / F64_FRACTION_SPAN) as nat;
    let m = pow2(52) + bits % F64_FRACTION_SPAN;
    if bits > F64_INFINITY || e == 0 {
        0
    } else if e >= 1075 {
        let whole = m * pow2((e - 1075) as nat);
        if whole > u64::MAX {
            u64::MAX as int
        } else {
            whole
        }
    } else {
        (m + pow2((1074 - e) as nat)) / (pow2((1075 - e) as nat) as int)
    }
}

/// `m / d` rounded to the nearest whole number, a tie going to the even one.
pub open spec fn round_half_even(m: nat, d: nat) -> nat {
    let q = m / d;
    let r = m % d;
    if 2 * r < d {
        q
    } else if 2 * r > d {
        q + 1
    } else {
        q + q % 2
    }
}

/// The bits of positive infinity in binary32.
pub const F32_INFINITY: u32 = 0x7F80_0000;

/// The binary32 pattern, without its sign bit, of the magnitude that a
/// binary64 pattern without its sign bit stands for, rounded to the nearest
/// binary32 value with ties going to the even fraction.
///
/// With `e` the exponent field and `f` the fraction field of the binary64
/// pattern, the magnitude is `(2^52 + f) * 2^(e - 1075)`.  Binary32 has an
/// exponent bias of 127 and 23 fraction bits, so from `e = 897` on the
/// result is normal: the significand loses 29 bits and is added to the
/// exponent `e - 897`, into which a rounding carry runs over.  Below, the
/// result is subnormal and counts units of `2^-149`.  What reaches the
/// exponent field 255 is infinite.  A NaN stays a NaN: it is made quiet and
/// keeps the leading bits of its payload.
pub open spec fn f32_magnitude_of(magnitude: u64) -> int {
    let e = (magnitude / F64_FRACTION_SPAN) as nat;
    let f = (magnitude % F64_FRACTION_SPAN) as nat;
    let m = pow2(52) + f;
    if e == 2047 {
        if f == 0 {
            F32_INFINITY as int
        } else if f / pow2(29) >= pow2(22) {
            F32_INFINITY + f / pow2(29)
        } else {
            F32_INFINITY + pow2(22) + f / pow2(29)
        }
    } else if e == 0 {
        0
    } else if e >= 897 {
        let raw = (e - 897) * pow2(23) + round_half_even(m, pow2(29));
        if raw >= F32_INFINITY {
            F32_INFINITY as int
        } else {
            raw
        }
    } else {
        round_half_even(m, pow2((926 - e) as nat)) as int
    }
}

/// The binary32 pattern of the value that a binary64 pattern stands for,
/// rounded to the nearest binary32 value: the sign is kept and the
/// magnitude is rounded.
pub open spec fn f32_bits_of_f64(bits: u64) -> int {
    if bits >= F64_SIGN {
        0x8000_0000 + f32_magnitude_of((bits - F64_SIGN) as u64)
    } else {
        f32_magnitude_of(bits)
    }
}

/// A number between two neighbouring powers of two has the smaller one's
/// exponent as the position of its highest set bit.
pub proof fn lemma_floor_log2_between(n: nat, p: nat)
    requires
        pow2(p) <= n < pow2(p + 1),
    ensures
        floor_log2(n) == p,
    decreases p,
{
    lemma2_to64();
    if p == 0 {
        assert(n == 1);
    } else {
        lemma_pow2_unfold(p);
        lemma_pow2_unfold(p + 1);
        lemma_pow2_pos((p - 1) as nat);
        lemma_floor_log2_between(n / 2, (p - 1) as nat);
    }
}

/// Two to the power of `k`.
pub fn power_of_two(k: u64) -> (out: u64)
    requires
        k < 64,
    ensures
        out == pow2(k as nat),
{
    let mut out: u64 = 1;
    let mut i: u64 = 0;
    proof {
        lemma2_to64();
    }
    while i < k
        invariant
            i <= k < 64,
            out == pow2(i as nat),
        decreases k - i,
    {
        proof {
            lemma2_to64();
            lemma_pow2_unfold((i + 1) as nat);
            lemma_pow2_strictly_increases((i + 1) as nat, 64);
        }
        out = out * 2;
        i = i + 1;
    }
    out
}

/// The binary64 value with these bits, rounded to the nearest whole number
/// and held within the range of `u64`.
pub fn round_f64_to_u64(bits: u64) -> (out: u64)
    ensures
        out == f64_rounded(bits),
{
    let e = bits / F64_FRACTION_SPAN;
    if bits > F64_INFINITY || e == 0 {
        return 0;
    }
    proof {
        lemma2_to64();
        lemma2_to64_rest();
    }
    let m = F64_FRACTION_SPAN + bits % F64_FRACTION_SPAN;
    if e >= 1075 {
        let shift = e - 1075;
        if shift > 11 {
            proof {
                if shift > 12 {
                    lemma_pow2_strictly_increases(12, shift as nat);
                }
                assert(m * pow2(shift as nat) > u64::MAX) by (nonlinear_arith)
                    requires
                        m >= 0x10_0000_0000_0000,
                        pow2(shift as nat) >= 0x1000,
                ;
            }
            return u64::MAX;
        }
        let factor = power_of_two(shift);
        proof {
            if shift < 11 {
                lemma_pow2_strictly_increases(shift as nat, 11);
            }
            assert(m * factor <= u64::MAX) by (nonlinear_arith)
                requires
                    m < 0x20_0000_0000_0000,
                    factor <= 0x800,
            ;
        }
        m * factor
    } else {
        let k = 1075 - e;
        if k > 53 {
            proof {
                let half = pow2((k - 1) as nat);
                lemma_pow2_unfold(k as nat);
                if k > 54 {
                    lemma_pow2_strictly_increases(53, (k - 1) as nat);
                }
                assert((m + half) / ((2 * half) as int) == 0) by (nonlinear_arith)
                    requires
                        0 <= m < half,
                ;
            }
            return 0;
        }
        let half = power_of_two(k - 1);
        let whole = power_of_two(k);
        proof {
            if k < 53 {
                lemma_pow2_strictly_increases((k - 1) as nat, 52);
            }
        }
        (m + half) / whole
    }
}

/// `m / d` rounded to the nearest whole number, a tie going to the even one.
fn divide_half_even(m: u64, d: u64) -> (out: u64)
    requires
        d > 0,
        m < u64::MAX,
    ensures
        out == round_half_even(m as nat, d as nat),
        out <= m / d + 1,
{
    let q = m / d;
    let r = m % d;
    assert(q * d + r == m) by (nonlinear_arith)
        requires
            q == m / d,
            r == m % d,
            d > 0,
    ;
    assert(q <= m) by (nonlinear_arith)
        requires
            q * d + r == m,
            d > 0,
            r >= 0,
            q >= 0,
    ;
    if r < d - r {
        q
    } else if r > d - r {
        q + 1
    } else {
        q + q % 2
    }
}

/// The binary32 bits of the value with the given binary64 bits, rounded to
/// the nearest binary32 value.
pub fn narrow_f64_to_f32(bits: u64) -> (out: u32)
    ensures
        out == f32_bits_of_f64(bits),
{
    proof {
        lemma2_to64();
        lemma2_to64_rest();
    }
    let negative = bits >= F64_SIGN;
    let magnitude = if negative {
        bits - F64_SIGN
    } else {
        bits
    };
    let e = magnitude / F64_FRACTION_SPAN;
    let f = magnitude % F64_FRACTION_SPAN;
    let m = F64_FRACTION_SPAN + f;
    let body: u32 = if e == 2047 {
        if f == 0 {
            F32_INFINITY
        } else {
            let top = (f / 0x2000_0000) as u32;
            if top >= 0x40_0000 {
                F32_INFINITY + top
            } else {
                F32_INFINITY + 0x40_0000 + top
            }
        }
    } else if e == 0 {
        0
    } else if e >= 897 {
        let rounded = divide_half_even(m, 0x2000_0000);
        let raw = (e - 897) * 0x80_0000 + rounded;
        if raw >= 0x7F80_0000 {
            F32_INFINITY
        } else {
            raw as u32
        }
    } else {
        let shift = 926 - e;
        if shift >= 55 {
            proof {
                let d = pow2(shift as nat);
                if shift > 55 {
                    lemma_pow2_strictly_increases(55, shift as nat);
                }
                assert(m as nat / d == 0 && m as nat % d == m) by (nonlinear_arith)
                    requires
                        0 <= m < d,
                ;
            }
            0
        } else {
            let d = power_of_two(shift);
            proof {
                lemma_pow2_strictly_increases(29, shift as nat);
                assert(m / d <= m / 0x2000_0000) by (nonlinear_arith)
                    requires
                        d >= 0x2000_0000,
                        m >= 0,
                ;
            }
            divide_half_even(m, d) as u32
        }
    };
    if negative {
        0x8000_0000 + body
    } else {
        body
    }
}

/// Whether the binary64 value with these bits is greater than zero.
pub fn is_positive_f64(bits: u64) -> (positive: bool)
    ensures
        positive == f64_is_positive(bits),
{
    0 < bits && bits <= F64_INFINITY
}

/// The bits of the negated binary64 value: the sign bit is flipped.
pub fn negate_f64(bits: u64) -> (out: u64)
    ensures
        out == f64_negated(bits),
{
    if bits >= F64_SIGN {
        bits - F64_SIGN
    } else {
        bits + F64_SIGN
    }
}

/// The bits of the binary64 value equal to `n`.  Any other number than zero
/// gives a normal value of at least one.
pub fn f64_bits_from_u32(n: u32) -> (bits: u64)
    ensures
        bits == f64_bits_of_nat(n as nat),
        n > 0 ==> F64_ONE <= bits < F64_INFINITY,
{
    if n == 0 {
        return 0;
    }
    let mut p: u64 = 0;
    let mut top: u64 = 1;
    let mut scale: u64 = 0x10_0000_0000_0000;
    proof {
        lemma2_to64();
        lemma2_to64_rest();
    }
    while top * 2 <= n as u64
        invariant
            p <= 31,
            top == pow2(p as nat),
            scale == pow2((52 - p) as nat),
            1 <= top <= n,
            top * scale == 0x10_0000_0000_0000,
        decreases n - top,
    {
        proof {
            lemma2_to64();
            lemma_pow2_unfold((p + 1) as nat);
            lemma_pow2_unfold((52 - p) as nat);
            if p == 31 {
                assert(top * 2 == 0x1_0000_0000);
            }
            assert((top * 2) * (scale / 2) == top * scale) by (nonlinear_arith)
                requires
                    scale % 2 == 0,
            ;
        }
        top = top * 2;
        scale = scale / 2;
        p = p + 1;
    }
    proof {
        lemma2_to64();
        lemma2_to64_rest();
        lemma_pow2_unfold((p + 1) as nat);
        lemma_floor_log2_between(n as nat, p as nat);
        assert((n - top) * scale < top * scale) by (nonlinear_arith)
            requires
                n - top < top,
                scale > 0,
        ;
        assert((n - top) * scale >= 0) by (nonlinear_arith)
            requires
                n - top >= 0,
                scale > 0,
        ;
        assert((1023 + p) * 0x10_0000_0000_0000 <= 1054 * 0x10_0000_0000_0000) by (nonlinear_arith)
            requires
                p <= 31,
        ;
    }
    (1023 + p) * 0x10_0000_0000_0000 + (n as u64 - top) * scale
}

} // verus!
