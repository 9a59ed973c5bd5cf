//! Correctly rounded quotients in binary64.
//!
//! A positive finite binary64 value is a significand below 2^53 times a
//! power of two.  The quotient of two such values is therefore a ratio of
//! whole numbers times a power of two, and its binary64 form is that number
//! rounded to 53 significant bits, or to a multiple of 2^-1074 where it is
//! too small for that, with ties going to the even neighbour.

use crate::float_bits::{
    f64_bits_of_nat, floor_log2, power_of_two, round_half_even, F64_FRACTION_SPAN, F64_INFINITY,
};
use vstd::arithmetic::power2::{
    lemma2_to64, lemma2_to64_rest, lemma_pow2_adds, lemma_pow2_pos,
    lemma_pow2_strictly_increases, lemma_pow2_unfold, pow2,
};
use vstd::prelude::*;

verus! {

/// The position of the leading binary digit of `m / d`: the whole number `e`
/// with `2^e <= m / d < 2^(e + 1)`.
pub open spec fn ratio_log2(m: nat, d: nat) -> int
    recommends
        m > 0,
        d > 0,
{
    if m >= d {
        floor_log2(m / d) as int
    } else {
        -(floor_log2(((d - 1) / (m as int)) as nat) as int) - 1
    }
}

/// `(m / d) * 2^s` rounded to the nearest whole number, a tie going to the
/// even one.
pub open spec fn round_scaled(m: nat, d: nat, s: int) -> nat {
    if s >= 0 {
        round_half_even(m * pow2(s as nat), d)
    } else {
        round_half_even(m, d * pow2((-s) as nat))
    }
}

/// The binary64 bits of `(m / d) * 2^s`, rounded to the nearest binary64
/// value with ties going to the even fraction.
///
/// With `e` the position of the leading binary digit, a normal result has
/// the exponent field `e + 1023` and counts units of `2^(e - 52)`; the
/// count includes the leading digit, which is why it is added to the
/// exponent field less one, and a count that rounding carries into the
/// next power of two raises the exponent by itself.  Below `2^-1022` the
/// result is subnormal and counts units of `2^-1074`.  What reaches the
/// exponent field 2047 is infinite.
pub open spec fn f64_bits_of_ratio(m: nat, d: nat, s: int) -> int
    recommends
        m > 0,
        d > 0,
{
    let e = ratio_log2(m, d) + s;
    let top = if e < -1022 {
        -1022
    } else {
        e
    };
    let raw = (top + 1022) * pow2(52) + round_scaled(m, d, s - (top - 52));
    if raw >= F64_INFINITY {
        F64_INFINITY as int
    } else {
        raw
    }
}

/// The significand of a binary64 pattern without sign: the fraction field,
/// with the leading digit that a normal value implies.
pub open spec fn f64_significand(bits: u64) -> nat {
    if bits / F64_FRACTION_SPAN == 0 {
        (bits % F64_FRACTION_SPAN) as nat
    } else {
        pow2(52) + (bits % F64_FRACTION_SPAN) as nat
    }
}

/// The scale of a binary64 pattern without sign: the value is the
/// significand times `2^(scale - 1075)`.
pub open spec fn f64_scale(bits: u64) -> int {
    if bits / F64_FRACTION_SPAN == 0 {
        1
    } else {
        (bits / F64_FRACTION_SPAN) as int
    }
}

/// The binary64 bits of the quotient of two positive finite binary64
/// values.
pub open spec fn f64_quotient(a: u64, b: u64) -> int
    recommends
        0 < a < F64_INFINITY,
        0 < b < F64_INFINITY,
{
    f64_bits_of_ratio(f64_significand(a), f64_significand(b), f64_scale(a) - f64_scale(b))
}

/// The position of the leading binary digit of the quotient of two positive
/// finite binary64 values.
pub open spec fn quotient_log2(a: u64, b: u64) -> int
    recommends
        0 < a < F64_INFINITY,
        0 < b < F64_INFINITY,
{
    ratio_log2(f64_significand(a), f64_significand(b)) + f64_scale(a) - f64_scale(b)
}

/// The binary64 bits of the whole number `n`, rounded to the nearest
/// binary64 value where it has more than 53 significant bits.
pub open spec fn f64_bits_of_count(n: u64) -> int {
    if n == 0 {
        0
    } else {
        f64_bits_of_ratio(n as nat, 1, 0)
    }
}

/// A number below a power of two has its highest set bit below that
/// power's exponent.
pub proof fn lemma_floor_log2_below(n: nat, k: nat)
    requires
        n < pow2(k),
        k >= 1,
    ensures
        floor_log2(n) < k,
    decreases k,
{
    lemma2_to64();
    if n > 1 {
        lemma_pow2_unfold(k);
        if k == 1 {
            assert(pow2(1) == 2);
        } else {
            lemma_floor_log2_below(n / 2, (k - 1) as nat);
        }
    }
}

/// A number lies between the power of two at its highest set bit and the
/// next one.
pub proof fn lemma_floor_log2_brackets(n: nat)
    requires
        n >= 1,
    ensures
        pow2(floor_log2(n)) <= n < pow2(floor_log2(n) + 1),
    decreases n,
{
    lemma2_to64();
    if n > 1 {
        lemma_floor_log2_brackets(n / 2);
        lemma_pow2_unfold(floor_log2(n));
        lemma_pow2_unfold(floor_log2(n) + 1);
    }
}

/// The leading binary digit of a ratio is where the ratio lies between two
/// neighbouring powers of two.
pub proof fn lemma_ratio_log2_brackets(m: nat, d: nat)
    requires
        m > 0,
        d > 0,
    ensures
        ratio_log2(m, d) >= 0 ==> d * pow2(ratio_log2(m, d) as nat) <= m < d * pow2(
            (ratio_log2(m, d) + 1) as nat,
        ),
        ratio_log2(m, d) < 0 ==> d <= m * pow2((-ratio_log2(m, d)) as nat) < 2 * d,
{
    if m >= d {
        let x = m / d;
        let e = floor_log2(x);
        assert(x >= 1 && d * x <= m < d * (x + 1)) by (nonlinear_arith)
            requires
                x == m / d,
                m >= d,
                d > 0,
        ;
        lemma_floor_log2_brackets(x);
        assert(d * pow2(e) <= d * x && d * (x + 1) <= d * pow2(e + 1)) by (nonlinear_arith)
            requires
                pow2(e) <= x < pow2(e + 1),
                d > 0,
        ;
    } else {
        let y = ((d - 1) / (m as int)) as nat;
        let k = floor_log2(y) + 1;
        assert(y >= 1 && m * y <= d - 1 < m * (y + 1)) by (nonlinear_arith)
            requires
                y == (d - 1) / (m as int),
                m < d,
                m > 0,
        ;
        lemma_floor_log2_brackets(y);
        lemma_pow2_unfold(k);
        assert(m * (y + 1) <= m * pow2(k) && m * pow2(k) <= 2 * (m * y)) by (nonlinear_arith)
            requires
                pow2((k - 1) as nat) <= y < pow2(k),
                pow2(k) == 2 * pow2((k - 1) as nat),
                m > 0,
        ;
    }
}

/// Rounding goes to a nearest whole number: the rounded ratio is off by
/// half a unit at most, and where it is off by exactly that much, it is
/// even.
pub proof fn lemma_round_half_even_is_nearest(m: nat, d: nat)
    requires
        d > 0,
    ensures
        2 * (round_half_even(m, d) * d - m) <= d,
        2 * (m - round_half_even(m, d) * d) <= d,
        2 * (m % d) == d ==> round_half_even(m, d) % 2 == 0,
{
    let q = m / d;
    let r = m % d;
    assert(q * d + r == m && 0 <= r < d) by (nonlinear_arith)
        requires
            q == m / d,
            r == m % d,
            d > 0,
    ;
    assert((q + 1) * d == q * d + d) by (nonlinear_arith);
}

/// Doubling the upper part of a ratio is the same as scaling it by one
/// more power of two.
pub proof fn lemma_bits_double_upper(m: nat, d: nat, s: int)
    requires
        m > 0,
        d > 0,
    ensures
        f64_bits_of_ratio(2 * m, d, s) == f64_bits_of_ratio(m, d, s + 1),
{
    lemma_ratio_log2_double_upper(m, d);
    let e = ratio_log2(m, d) + s + 1;
    let top = if e < -1022 {
        -1022
    } else {
        e
    };
    lemma_round_scaled_double_upper(m, d, s - (top - 52));
}

/// Doubling the lower part of a ratio is the same as scaling it by one
/// power of two less.
pub proof fn lemma_bits_double_lower(m: nat, d: nat, s: int)
    requires
        m > 0,
        d > 0,
    ensures
        f64_bits_of_ratio(m, 2 * d, s) == f64_bits_of_ratio(m, d, s - 1),
{
    lemma_ratio_log2_double_lower(m, d);
    let e = ratio_log2(m, d) + s - 1;
    let top = if e < -1022 {
        -1022
    } else {
        e
    };
    lemma_round_scaled_double_lower(m, d, s - (top - 52));
}

/// A whole number with at most 53 significant bits is a binary64 value
/// itself, so that nothing is rounded when it is taken for one.
pub proof fn lemma_small_count_is_exact(n: u64)
    requires
        0 < n < 0x20_0000_0000_0000,
    ensures
        f64_bits_of_count(n) == f64_bits_of_nat(n as nat),
{
    lemma2_to64();
    lemma2_to64_rest();
    let p = floor_log2(n as nat);
    lemma_floor_log2_below(n as nat, 53);
    lemma_floor_log2_brackets(n as nat);
    let up = pow2((52 - p) as nat);
    lemma_pow2_adds(p, (52 - p) as nat);
    lemma_pow2_pos((52 - p) as nat);
    assert(n as nat / 1 == n);
    assert(ratio_log2(n as nat, 1) == p);
    let scaled = n as nat * up;
    assert(scaled / 1 == scaled && scaled % 1 == 0);
    assert(round_scaled(n as nat, 1, 52 - p) == scaled);
    assert((p + 1022) * pow2(52) + n * up == (1023 + p) * pow2(52) + (n - pow2(p)) * up)
        by (nonlinear_arith)
        requires
            pow2(p) * up == pow2(52),
    ;
    assert(n * up < pow2(p + 1) * up) by (nonlinear_arith)
        requires
            n < pow2(p + 1),
            up > 0,
    ;
    lemma_pow2_unfold(p + 1);
    assert(pow2(p + 1) * up == 2 * pow2(52)) by (nonlinear_arith)
        requires
            pow2(p + 1) == 2 * pow2(p),
            pow2(p) * up == pow2(52),
    ;
    assert((p + 1022) * pow2(52) <= 1074 * pow2(52)) by (nonlinear_arith)
        requires
            p <= 52,
    ;
}

/// Doubling a number moves its highest set bit up by one.
proof fn lemma_floor_log2_double(x: nat)
    requires
        x >= 1,
    ensures
        floor_log2(2 * x) == floor_log2(x) + 1,
        floor_log2(2 * x + 1) == floor_log2(x) + 1,
{
    assert((2 * x) / 2 == x);
    assert((2 * x + 1) / 2 == x);
}

/// Halving a number of at least two moves its highest set bit down by one.
proof fn lemma_floor_log2_halve(x: nat)
    requires
        x >= 2,
    ensures
        floor_log2(x) == floor_log2(x / 2) + 1,
{
}

/// Doubling both parts of a ratio leaves its leading digit where it is.
proof fn lemma_ratio_log2_scale(m: nat, d: nat)
    requires
        m > 0,
        d > 0,
    ensures
        ratio_log2(2 * m, 2 * d) == ratio_log2(m, d),
{
    if m >= d {
        assert((2 * m) / (2 * d) == m / d) by (nonlinear_arith)
            requires
                d > 0,
        ;
    } else {
        assert((2 * d - 1) / (2 * m as int) == (d - 1) / (m as int)) by (nonlinear_arith)
            requires
                m > 0,
                d > m,
        ;
    }
}

/// Doubling the upper part of a ratio moves its leading digit up by one.
proof fn lemma_ratio_log2_double_upper(m: nat, d: nat)
    requires
        m > 0,
        d > 0,
    ensures
        ratio_log2(2 * m, d) == ratio_log2(m, d) + 1,
{
    if m >= d {
        let x = m / d;
        assert(x >= 1 && ((2 * m) / d == 2 * x || (2 * m) / d == 2 * x + 1)) by (nonlinear_arith)
            requires
                x == m / d,
                m >= d,
                d > 0,
        ;
        lemma_floor_log2_double(x);
    } else if 2 * m >= d {
        assert((2 * m) / d == 1) by (nonlinear_arith)
            requires
                d <= 2 * m < 2 * d,
        ;
        assert((d - 1) / (m as int) == 1) by (nonlinear_arith)
            requires
                m < d <= 2 * m,
                m > 0,
        ;
    } else {
        let x = ((d - 1) / (m as int)) as nat;
        assert(x >= 2 && (d - 1) / (2 * m as int) == x / 2) by (nonlinear_arith)
            requires
                x == (d - 1) / (m as int),
                2 * m < d,
                m > 0,
        ;
        lemma_floor_log2_halve(x);
    }
}

/// Doubling the lower part of a ratio moves its leading digit down by one.
proof fn lemma_ratio_log2_double_lower(m: nat, d: nat)
    requires
        m > 0,
        d > 0,
    ensures
        ratio_log2(m, 2 * d) == ratio_log2(m, d) - 1,
{
    lemma_ratio_log2_scale(m, d);
    lemma_ratio_log2_double_upper(m, 2 * d);
}

/// Doubling both parts of a ratio leaves its rounded value as it is.
proof fn lemma_round_scale(m: nat, d: nat)
    requires
        d > 0,
    ensures
        round_half_even(2 * m, 2 * d) == round_half_even(m, d),
{
    assert((2 * m) / (2 * d) == m / d && (2 * m) % (2 * d) == 2 * (m % d)) by (nonlinear_arith)
        requires
            d > 0,
    ;
}

/// Doubling the upper part of a ratio is the same as scaling it by one
/// more power of two.
proof fn lemma_round_scaled_double_upper(m: nat, d: nat, s: int)
    requires
        d > 0,
    ensures
        round_scaled(2 * m, d, s) == round_scaled(m, d, s + 1),
{
    if s >= 0 {
        lemma_pow2_unfold((s + 1) as nat);
        assert(2 * m * pow2(s as nat) == m * (2 * pow2(s as nat))) by (nonlinear_arith);
    } else if s == -1 {
        lemma2_to64();
        lemma_round_scale(m, d);
        assert(m * pow2(0) == m);
        assert(d * pow2(1) == 2 * d);
    } else {
        lemma_pow2_unfold((-s) as nat);
        let half = d * pow2((-s - 1) as nat);
        lemma_pow2_pos((-s - 1) as nat);
        assert(half > 0) by (nonlinear_arith)
            requires
                half == d * pow2((-s - 1) as nat),
                d > 0,
                pow2((-s - 1) as nat) > 0,
        ;
        assert(d * pow2((-s) as nat) == 2 * half) by (nonlinear_arith)
            requires
                pow2((-s) as nat) == 2 * pow2((-s - 1) as nat),
                half == d * pow2((-s - 1) as nat),
        ;
        lemma_round_scale(m, half);
    }
}

/// Doubling the lower part of a ratio is the same as scaling it by one
/// power of two less.
proof fn lemma_round_scaled_double_lower(m: nat, d: nat, s: int)
    requires
        d > 0,
    ensures
        round_scaled(m, 2 * d, s) == round_scaled(m, d, s - 1),
{
    if s < 0 {
        lemma_pow2_unfold((1 - s) as nat);
        assert(2 * d * pow2((-s) as nat) == d * (2 * pow2((-s) as nat))) by (nonlinear_arith);
    } else if s == 0 {
        lemma2_to64();
        assert(m * pow2(0) == m) by (nonlinear_arith)
            requires
                pow2(0) == 1,
        ;
        assert(d * pow2(1) == 2 * d) by (nonlinear_arith)
            requires
                pow2(1) == 2,
        ;
    } else {
        lemma_pow2_unfold(s as nat);
        let half = m * pow2((s - 1) as nat);
        assert(m * pow2(s as nat) == 2 * half) by (nonlinear_arith)
            requires
                pow2(s as nat) == 2 * pow2((s - 1) as nat),
                half == m * pow2((s - 1) as nat),
        ;
        lemma_round_scale(half, d);
    }
}

/// `m / d` rounded to the nearest whole number, a tie going to the even one.
fn divide_half_even_wide(m: u128, d: u128) -> (out: u128)
    requires
        d > 0,
        m < u128::MAX,
    ensures
        out == round_half_even(m as nat, d as nat),
        out <= m / d + 1,
{
    let q = m / d;
    let r = m % d;
    assert(q * d + r == m && q <= m) by (nonlinear_arith)
        requires
            q == m / d,
            r == m % d,
            d > 0,
            m >= 0,
    ;
    if r < d - r {
        q
    } else if r > d - r {
        q + 1
    } else {
        q + q % 2
    }
}

/// `(a / b) * 2^k` rounded to the nearest whole number, for a ratio between
/// a half and two and a scale that brings it below 2^53.
fn count_scaled(a: u64, b: u64, k: i64) -> (count: u64)
    requires
        a >= 0x8000_0000_0000_0000,
        b >= 0x8000_0000_0000_0000,
        k <= 53,
        a >= b ==> k <= 52,
    ensures
        count == round_scaled(a as nat, b as nat, k as int),
        count <= 0x20_0000_0000_0000,
        (k == 53 || (k == 52 && a >= b)) ==> count >= 0x10_0000_0000_0000,
{
    proof {
        lemma2_to64();
        lemma2_to64_rest();
    }
    if k < -1 {
        proof {
            let wide = pow2((-k) as nat);
            if -k > 2 {
                lemma_pow2_strictly_increases(2, (-k) as nat);
            }
            assert(a as nat / (b as nat * wide) == 0 && a as nat % (b as nat * wide) == a
                && 2 * a < b as nat * wide) by (nonlinear_arith)
                requires
                    wide >= 4,
                    0 < a < 2 * b,
            ;
        }
        0
    } else if k == -1 {
        proof {
            assert(b as nat * pow2(1) == 2 * b) by (nonlinear_arith)
                requires
                    pow2(1) == 2,
            ;
            assert(a as nat / (2 * b as nat) <= 1) by (nonlinear_arith)
                requires
                    a < 2 * b,
                    b > 0,
            ;
        }
        let count = divide_half_even_wide(a as u128, 2 * (b as u128));
        count as u64
    } else {
        let factor = power_of_two(k as u64);
        proof {
            if k < 53 {
                lemma_pow2_strictly_increases(k as nat, 53);
            }
            if k < 52 {
                lemma_pow2_strictly_increases(k as nat, 52);
            }
            assert(a as nat * factor as nat <= 0xFFFF_FFFF_FFFF_FFFF * 0x20_0000_0000_0000)
                by (nonlinear_arith)
                requires
                    a <= 0xFFFF_FFFF_FFFF_FFFF,
                    factor <= 0x20_0000_0000_0000,
            ;
            if a >= b {
                assert((a as nat * factor as nat) / (b as nat) < 0x20_0000_0000_0000)
                    by (nonlinear_arith)
                    requires
                        a < 2 * b,
                        b > 0,
                        0 < factor <= 0x10_0000_0000_0000,
                ;
            } else {
                assert((a as nat * factor as nat) / (b as nat) < 0x20_0000_0000_0000)
                    by (nonlinear_arith)
                    requires
                        a < b,
                        b > 0,
                        0 < factor <= 0x20_0000_0000_0000,
                ;
            }
            if k == 52 && a >= b {
                assert((a as nat * factor as nat) / (b as nat) >= 0x10_0000_0000_0000)
                    by (nonlinear_arith)
                    requires
                        a >= b,
                        b > 0,
                        factor == 0x10_0000_0000_0000,
                ;
            }
            if k == 53 {
                assert((a as nat * factor as nat) / (b as nat) >= 0x10_0000_0000_0000)
                    by (nonlinear_arith)
                    requires
                        2 * a >= b,
                        b > 0,
                        factor == 0x20_0000_0000_0000,
                ;
            }
        }
        let count = divide_half_even_wide((a as u128) * (factor as u128), b as u128);
        count as u64
    }
}

/// The binary64 bits of `(a / b) * 2^t`, for a ratio between a half and
/// two.
fn round_normalized(a: u64, b: u64, t: i64) -> (out: u64)
    requires
        a >= 0x8000_0000_0000_0000,
        b >= 0x8000_0000_0000_0000,
        -4200 <= t <= 4200,
    ensures
        out == f64_bits_of_ratio(a as nat, b as nat, t as int),
        out <= F64_INFINITY,
        ratio_log2(a as nat, b as nat) + t <= 1022 ==> out < F64_INFINITY,
        ratio_log2(a as nat, b as nat) + t >= -1022 ==> out >= F64_FRACTION_SPAN,
{
    proof {
        lemma2_to64();
        lemma2_to64_rest();
        if a >= b {
            assert(a as nat / b as nat == 1) by (nonlinear_arith)
                requires
                    b <= a < 2 * b,
            ;
        } else {
            assert((b as nat - 1) / (a as int) == 1) by (nonlinear_arith)
                requires
                    a <= b - 1 < 2 * a,
            ;
        }
    }
    let log: i64 = if a >= b {
        0
    } else {
        -1
    };
    assert(log == ratio_log2(a as nat, b as nat));
    let e = log + t;
    let top = if e < -1022 {
        -1022
    } else {
        e
    };
    let k = t - (top - 52);
    if top > 1024 {
        assert((top + 1022) * pow2(52) + round_scaled(a as nat, b as nat, k as int)
            >= F64_INFINITY) by (nonlinear_arith)
            requires
                top + 1022 >= 2047,
                pow2(52) == 0x10_0000_0000_0000,
        ;
        return F64_INFINITY;
    }
    let count = count_scaled(a, b, k);
    let exponent = (top + 1022) as u64;
    assert(exponent * pow2(52) == exponent * 0x10_0000_0000_0000);
    assert(exponent * 0x10_0000_0000_0000 <= 2046 * 0x10_0000_0000_0000) by (nonlinear_arith)
        requires
            exponent <= 2046,
    ;
    let raw = exponent * 0x10_0000_0000_0000 + count;
    if raw >= F64_INFINITY {
        F64_INFINITY
    } else {
        raw
    }
}

/// The binary64 bits of `(m / d) * 2^s`.
fn round_ratio(m: u64, d: u64, s: i64) -> (out: u64)
    requires
        m > 0,
        d > 0,
        -4000 <= s <= 4000,
    ensures
        out == f64_bits_of_ratio(m as nat, d as nat, s as int),
        out <= F64_INFINITY,
        ratio_log2(m as nat, d as nat) + s <= 1022 ==> out < F64_INFINITY,
        ratio_log2(m as nat, d as nat) + s >= -1022 ==> out >= F64_FRACTION_SPAN,
{
    let mut a = m;
    let mut b = d;
    let mut t = s;
    let mut i: i64 = 0;
    proof {
        lemma2_to64();
    }
    while a < 0x8000_0000_0000_0000
        invariant
            a > 0,
            m > 0,
            d > 0,
            -4000 <= s <= 4000,
            0 <= i <= 64,
            a >= pow2(i as nat),
            t == s - i,
            ratio_log2(a as nat, d as nat) + t == ratio_log2(m as nat, d as nat) + s,
            f64_bits_of_ratio(a as nat, d as nat, t as int) == f64_bits_of_ratio(
                m as nat,
                d as nat,
                s as int,
            ),
        decreases 64 - i,
    {
        proof {
            lemma2_to64();
            lemma2_to64_rest();
            lemma_bits_double_upper(a as nat, d as nat, t - 1);
            lemma_ratio_log2_double_upper(a as nat, d as nat);
            lemma_pow2_unfold((i + 1) as nat);
            if i > 63 {
                lemma_pow2_strictly_increases(63, i as nat);
            }
        }
        a = a * 2;
        t = t - 1;
        i = i + 1;
    }
    let mut j: i64 = 0;
    while b < 0x8000_0000_0000_0000
        invariant
            a > 0,
            b > 0,
            m > 0,
            d > 0,
            -4000 <= s <= 4000,
            0 <= j <= 64,
            b >= pow2(j as nat),
            t == s - i + j,
            0 <= i <= 64,
            ratio_log2(a as nat, b as nat) + t == ratio_log2(m as nat, d as nat) + s,
            f64_bits_of_ratio(a as nat, b as nat, t as int) == f64_bits_of_ratio(
                m as nat,
                d as nat,
                s as int,
            ),
        decreases 64 - j,
    {
        proof {
            lemma2_to64();
            lemma2_to64_rest();
            lemma_bits_double_lower(a as nat, b as nat, t + 1);
            lemma_ratio_log2_double_lower(a as nat, b as nat);
            lemma_pow2_unfold((j + 1) as nat);
            if j > 63 {
                lemma_pow2_strictly_increases(63, j as nat);
            }
        }
        b = b * 2;
        t = t + 1;
        j = j + 1;
    }
    round_normalized(a, b, t)
}

/// The significand of a positive finite binary64 pattern.
fn significand_of(bits: u64) -> (out: u64)
    requires
        0 < bits < F64_INFINITY,
    ensures
        out == f64_significand(bits),
        0 < out < 0x20_0000_0000_0000,
{
    proof {
        lemma2_to64_rest();
    }
    if bits / F64_FRACTION_SPAN == 0 {
        bits % F64_FRACTION_SPAN
    } else {
        F64_FRACTION_SPAN + bits % F64_FRACTION_SPAN
    }
}

/// The scale of a finite binary64 pattern without sign.
fn scale_of(bits: u64) -> (out: i64)
    requires
        bits < F64_INFINITY,
    ensures
        out == f64_scale(bits),
        1 <= out <= 2046,
{
    let e = bits / F64_FRACTION_SPAN;
    if e == 0 {
        1
    } else {
        e as i64
    }
}

/// The quotient of two positive finite binary64 values, as binary64 bits:
/// the binary64 value nearest to the exact quotient, and infinity where the
/// quotient is too large.  A quotient whose leading digit lies below 2^1023
/// is finite, and one whose leading digit lies at 2^-1022 or above is
/// normal.
pub fn divide_f64(a: u64, b: u64) -> (out: u64)
    requires
        0 < a < F64_INFINITY,
        0 < b < F64_INFINITY,
    ensures
        out == f64_quotient(a, b),
        out <= F64_INFINITY,
        quotient_log2(a, b) <= 1022 ==> out < F64_INFINITY,
        quotient_log2(a, b) >= -1022 ==> out >= F64_FRACTION_SPAN,
{
    round_ratio(significand_of(a), significand_of(b), scale_of(a) - scale_of(b))
}

/// The binary64 bits of the whole number `n`.  Any other number than zero
/// gives a positive finite value.
pub fn f64_bits_from_u64(n: u64) -> (out: u64)
    ensures
        out == f64_bits_of_count(n),
        n > 0 ==> 0 < out < F64_INFINITY,
{
    if n == 0 {
        return 0;
    }
    proof {
        lemma2_to64();
        lemma2_to64_rest();
        lemma_floor_log2_below(n as nat, 64);
        assert(n as nat / 1 == n);
    }
    round_ratio(n, 1, 0)
}

} // verus!
