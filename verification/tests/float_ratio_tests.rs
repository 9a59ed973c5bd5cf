use eeg_pipeline::float_ratio::{divide_f64, f64_bits_from_u64};

const INFINITY_BITS: u64 = 0x7FF0_0000_0000_0000;

/// A fixed stream of 64-bit patterns.
fn patterns(count: usize, seed: u64) -> Vec<u64> {
    let mut state: u64 = seed;
    let mut out = Vec::with_capacity(count);
    for _ in 0..count {
        state ^= state << 13;
        state ^= state >> 7;
        state ^= state << 17;
        out.push(state);
    }
    out
}

/// The pattern cleared of its sign and kept positive and finite.
fn positive_finite(bits: u64) -> Option<u64> {
    let magnitude = bits & 0x7FFF_FFFF_FFFF_FFFF;
    if magnitude == 0 || magnitude >= INFINITY_BITS {
        None
    } else {
        Some(magnitude)
    }
}

fn assert_quotient(a: u64, b: u64) {
    let expected = (f64::from_bits(a) / f64::from_bits(b)).to_bits();
    assert_eq!(divide_f64(a, b), expected, "{:#018x} / {:#018x}", a, b);
}

#[test]
fn simple_quotients_are_exact() {
    assert_eq!(divide_f64(1.0f64.to_bits(), 1.0f64.to_bits()), 1.0f64.to_bits());
    assert_eq!(divide_f64(1.0f64.to_bits(), 2.0f64.to_bits()), 0.5f64.to_bits());
    assert_eq!(divide_f64(250.0f64.to_bits(), 256.0f64.to_bits()), 0.9765625f64.to_bits());
    assert_eq!(divide_f64(500.0f64.to_bits(), 250.0f64.to_bits()), 2.0f64.to_bits());
    assert_eq!(divide_f64(3.0f64.to_bits(), 4.0f64.to_bits()), 0.75f64.to_bits());
}

#[test]
fn quotients_are_rounded_to_the_nearest_value() {
    assert_eq!(divide_f64(1.0f64.to_bits(), 3.0f64.to_bits()), (1.0f64 / 3.0).to_bits());
    assert_eq!(divide_f64(2.0f64.to_bits(), 3.0f64.to_bits()), (2.0f64 / 3.0).to_bits());
    assert_eq!(divide_f64(1.0f64.to_bits(), 250.0f64.to_bits()), 0.004f64.to_bits());
    assert_eq!(divide_f64(1.0f64.to_bits(), 10.0f64.to_bits()), 0.1f64.to_bits());
    for n in 1u64..200 {
        for d in 1u64..200 {
            assert_quotient((n as f64).to_bits(), (d as f64).to_bits());
        }
    }
}

#[test]
fn quotients_agree_with_the_machine() {
    let left = patterns(30000, 0x9E37_79B9_7F4A_7C15);
    let right = patterns(30000, 0xD1B5_4A32_D192_ED03);
    let mut checked = 0;
    for (a, b) in left.iter().zip(right.iter()) {
        if let (Some(a), Some(b)) = (positive_finite(*a), positive_finite(*b)) {
            assert_quotient(a, b);
            checked += 1;
        }
    }
    assert!(checked > 25000);
}

#[test]
fn quotients_agree_with_the_machine_near_each_other() {
    // Operands of similar size exercise the rounding of the last place.
    let fractions = patterns(20000, 0x2545_F491_4F6C_DD1D);
    for pair in fractions.chunks(2) {
        let a = 0x3FF0_0000_0000_0000 | (pair[0] >> 12);
        let b = 0x3FF0_0000_0000_0000 | (pair[1] >> 12);
        assert_quotient(a, b);
        assert_quotient(b, a);
    }
}

#[test]
fn quotients_overflow_to_infinity_and_fade_to_zero() {
    assert_eq!(divide_f64(f64::MAX.to_bits(), 0.5f64.to_bits()), INFINITY_BITS);
    assert_eq!(divide_f64(f64::MAX.to_bits(), f64::MIN_POSITIVE.to_bits()), INFINITY_BITS);
    assert_eq!(divide_f64(f64::MAX.to_bits(), 1.0f64.to_bits()), f64::MAX.to_bits());
    assert_eq!(divide_f64(f64::MAX.to_bits(), f64::MAX.to_bits()), 1.0f64.to_bits());
    assert_eq!(divide_f64(5e-324f64.to_bits(), 2.0f64.to_bits()), 0);
    assert_eq!(divide_f64(5e-324f64.to_bits(), 1.5f64.to_bits()), 5e-324f64.to_bits());
    assert_eq!(divide_f64(5e-324f64.to_bits(), f64::MAX.to_bits()), 0);
    assert_eq!(divide_f64(1.0f64.to_bits(), f64::MAX.to_bits()), (1.0 / f64::MAX).to_bits());
    assert_eq!(divide_f64(5e-324f64.to_bits(), 5e-324f64.to_bits()), 1.0f64.to_bits());
    assert_eq!(divide_f64(1.0f64.to_bits(), 5e-324f64.to_bits()), INFINITY_BITS);
}

#[test]
fn quotients_around_the_smallest_normal_value_agree_with_the_machine() {
    let fractions = patterns(4000, 0x1234_5678_9ABC_DEF1);
    for (i, fraction) in fractions.iter().enumerate() {
        let numerator = ((1 + (i as u64 % 60)) << 52) | (fraction >> 12);
        let denominator = ((1020 + (i as u64 % 9)) << 52) | (fraction.rotate_left(17) >> 12);
        assert_quotient(numerator, denominator);
        let subnormal = fraction >> (12 + i % 52);
        if subnormal != 0 {
            assert_quotient(subnormal, 0x3FF0_0000_0000_0000 | (fraction.rotate_left(29) >> 12));
            assert_quotient(0x0010_0000_0000_0000 | (fraction >> 12), subnormal);
            assert_quotient(subnormal, (fraction.rotate_left(9) >> 12) | 1);
        }
    }
}

#[test]
fn quotients_around_the_largest_value_agree_with_the_machine() {
    let fractions = patterns(4000, 0x0F1E_2D3C_4B5A_6978);
    for (i, fraction) in fractions.iter().enumerate() {
        let numerator = ((2040 + (i as u64 % 7)) << 52) | (fraction >> 12);
        let denominator = ((1015 + (i as u64 % 12)) << 52) | (fraction.rotate_left(23) >> 12);
        assert_quotient(numerator, denominator);
    }
}

#[test]
fn counts_have_the_bits_of_their_values() {
    assert_eq!(f64_bits_from_u64(0), 0);
    assert_eq!(f64_bits_from_u64(1), 1.0f64.to_bits());
    assert_eq!(f64_bits_from_u64(500), 500.0f64.to_bits());
    assert_eq!(f64_bits_from_u64(u64::MAX), (u64::MAX as f64).to_bits());
    assert_eq!(f64_bits_from_u64(9007199254740993), 9007199254740992.0f64.to_bits());
    assert_eq!(f64_bits_from_u64(9007199254740995), 9007199254740996.0f64.to_bits());
    for n in 0u64..3000 {
        assert_eq!(f64_bits_from_u64(n), (n as f64).to_bits());
    }
    for n in patterns(20000, 0xA076_1D64_78BD_642F) {
        assert_eq!(f64_bits_from_u64(n), (n as f64).to_bits());
        let small = n >> (n % 64);
        assert_eq!(f64_bits_from_u64(small), (small as f64).to_bits());
    }
    for shift in 0..64 {
        let n = 1u64 << shift;
        for m in [n, n - 1, n | 1, n.wrapping_add(n >> 1), n | (n >> 53), n | (n >> 54)] {
            assert_eq!(f64_bits_from_u64(m), (m as f64).to_bits());
        }
    }
}
